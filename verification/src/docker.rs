//! The commands sent to the container runtime, and what is made of its
//! replies.

use crate::json::{
    json_document, member_integer, member_text, parse_document, read_integer, read_text,
};
use crate::resources::{is_default_network, Container, Image, Network, Volume};
use crate::size::{parse_reclaimable, parse_size, reclaimable_bytes, size_bytes};
use crate::text::{filled_lines, lines_with_content, same_text, texts};
use crate::usage::{CategoryUsage, DiskUsage, UsageKind};
use vstd::prelude::*;

verus! {

/// The texts of a list of arguments.
pub open spec fn arg_texts(args: Seq<String>) -> Seq<Seq<char>> {
    texts(args)
}

/// The ids of the listed containers, in order.
pub open spec fn container_ids(containers: Seq<Container>) -> Seq<Seq<char>> {
    containers.map_values(|c: Container| c.id@)
}

/// The ids of the listed images, in order.
pub open spec fn image_ids(images: Seq<Image>) -> Seq<Seq<char>> {
    images.map_values(|i: Image| i.id@)
}

/// The names of the listed volumes, in order.
pub open spec fn volume_names(volumes: Seq<Volume>) -> Seq<Seq<char>> {
    volumes.map_values(|v: Volume| v.name@)
}

/// The ids of the listed networks that are not the runtime's own, in order.
pub open spec fn custom_network_ids(networks: Seq<Network>) -> Seq<Seq<char>> {
    networks.filter_map(
        |n: Network|
            if is_default_network(n.name@) {
                None
            } else {
                Some(n.id@)
            },
    )
}

/// The flag of a prune command: `-af` to remove everything, `-f` to remove
/// only what nothing refers to.
pub open spec fn prune_flag(all: bool) -> Seq<char> {
    if all {
        "-af"@
    } else {
        "-f"@
    }
}

/// The arguments of the listing of containers: all of them, or the running
/// ones only.
pub open spec fn list_containers_args(all: bool) -> Seq<Seq<char>> {
    if all {
        seq!["ps"@, "-a"@, "--format"@, "{{json .}}"@]
    } else {
        seq!["ps"@, "--format"@, "{{json .}}"@]
    }
}

/// What a finished command comes to: its output where it succeeded, nothing
/// where it failed without a word, and its complaint otherwise.
pub open spec fn command_outcome(success: bool, stdout: Seq<char>, stderr: Seq<char>) -> Result<
    Seq<char>,
    Seq<char>,
> {
    if success {
        Ok(stdout)
    } else if stderr.len() == 0 {
        Ok(Seq::empty())
    } else {
        Err(stderr)
    }
}

/// The category that the runtime reports under a name.
pub open spec fn usage_kind_named(name: Seq<char>) -> Option<UsageKind> {
    if name == "Images"@ {
        Some(UsageKind::Images)
    } else if name == "Containers"@ {
        Some(UsageKind::Containers)
    } else if name == "Local Volumes"@ {
        Some(UsageKind::Volumes)
    } else if name == "Build Cache"@ {
        Some(UsageKind::BuildCache)
    } else {
        None
    }
}

/// A text that was read, or the text that stands in for a missing one.
pub open spec fn text_or(read: Option<Seq<char>>, missing: Seq<char>) -> Seq<char> {
    match read {
        Some(text) => text,
        None => missing,
    }
}

/// The count that a reported number stands for.
pub open spec fn count_of(number: int) -> usize {
    (number as i64) as usize
}

/// A number that was read, or zero for a missing one.
pub open spec fn number_or_zero(read: Option<int>) -> int {
    match read {
        Some(number) => number,
        None => 0,
    }
}

/// The figures that a report of a size, a reclaimable figure and two counts
/// gives for its category.
pub open spec fn reported_figures(
    size: Seq<char>,
    reclaimable: Seq<char>,
    total_count: int,
    active_count: int,
) -> CategoryUsage {
    CategoryUsage {
        total_size: size_bytes(size) as u64,
        reclaimable_size: reclaimable_bytes(reclaimable) as u64,
        total_count: count_of(total_count),
        active_count: count_of(active_count),
    }
}

/// A snapshot after one more report: the figures of the named category
/// replaced, and nothing changed where the name is that of no category.
pub open spec fn usage_with_report(
    usage: DiskUsage,
    name: Seq<char>,
    size: Seq<char>,
    reclaimable: Seq<char>,
    total_count: int,
    active_count: int,
) -> DiskUsage {
    match usage_kind_named(name) {
        Some(kind) => usage.with_category(
            kind,
            reported_figures(size, reclaimable, total_count, active_count),
        ),
        None => usage,
    }
}

/// A snapshot after one more reported line. A line that is no JSON document
/// changes nothing. In a document the members `Type`, `Size`, `Reclaimable`,
/// `TotalCount` and `Active` are read; a missing name counts as empty, a
/// missing size or number as zero.
pub open spec fn usage_with_line(usage: DiskUsage, line: Seq<char>) -> DiskUsage {
    match json_document(line) {
        Some(members) => usage_with_report(
            usage,
            text_or(member_text(members, "Type"@), ""@),
            text_or(member_text(members, "Size"@), "0"@),
            text_or(member_text(members, "Reclaimable"@), "0"@),
            number_or_zero(member_integer(members, "TotalCount"@)),
            number_or_zero(member_integer(members, "Active"@)),
        ),
        None => usage,
    }
}

/// A snapshot after a run of reported lines, the later line winning where
/// two report the same category.
pub open spec fn usage_with_lines(usage: DiskUsage, lines: Seq<Seq<char>>) -> DiskUsage
    decreases lines.len(),
{
    if lines.len() == 0 {
        usage
    } else {
        usage_with_line(usage_with_lines(usage, lines.drop_last()), lines.last())
    }
}

/// The category that the runtime reports under `name`.
pub fn usage_kind(name: &str) -> (kind: Option<UsageKind>)
    ensures
        kind == usage_kind_named(name@),
{
    if same_text(name, "Images") {
        Some(UsageKind::Images)
    } else if same_text(name, "Containers") {
        Some(UsageKind::Containers)
    } else if same_text(name, "Local Volumes") {
        Some(UsageKind::Volumes)
    } else if same_text(name, "Build Cache") {
        Some(UsageKind::BuildCache)
    } else {
        None
    }
}

/// Takes one report into a snapshot: the category's name, its size and
/// reclaimable figure as the runtime writes them, and its two counts.
pub fn record_usage(
    usage: &mut DiskUsage,
    name: &str,
    size: &str,
    reclaimable: &str,
    total_count: i64,
    active_count: i64,
)
    ensures
        *final(usage) == usage_with_report(
            *old(usage),
            name@,
            size@,
            reclaimable@,
            total_count as int,
            active_count as int,
        ),
{
    match usage_kind(name) {
        Some(kind) => {
            usage.set_category(
                kind,
                CategoryUsage {
                    total_size: parse_size(size),
                    reclaimable_size: parse_reclaimable(reclaimable),
                    total_count: total_count as usize,
                    active_count: active_count as usize,
                },
            );
        },
        None => {},
    }
}

/// A text that was read, or `missing` in its place.
fn text_or_else(read: Option<String>, missing: &str) -> (text: String)
    ensures
        text@ == text_or(
            match read {
                Some(found) => Some(found@),
                None => None,
            },
            missing@,
        ),
{
    match read {
        Some(found) => found,
        None => String::from_str(missing),
    }
}

/// Takes one reported line into a snapshot.
pub fn record_usage_line(usage: &mut DiskUsage, line: &str)
    ensures
        *final(usage) == usage_with_line(*old(usage), line@),
{
    match parse_document(line) {
        Some(document) => {
            let name = text_or_else(read_text(&document, "Type"), "");
            let size = text_or_else(read_text(&document, "Size"), "0");
            let reclaimable = text_or_else(read_text(&document, "Reclaimable"), "0");
            let total_count = match read_integer(&document, "TotalCount") {
                Some(number) => number,
                None => 0,
            };
            let active_count = match read_integer(&document, "Active") {
                Some(number) => number,
                None => 0,
            };
            record_usage(
                usage,
                name.as_str(),
                size.as_str(),
                reclaimable.as_str(),
                total_count,
                active_count,
            );
        },
        None => {},
    }
}

/// Appends one argument.
fn push_arg(args: &mut Vec<String>, word: &str)
    ensures
        arg_texts(final(args)@) == arg_texts(old(args)@).push(word@),
{
    args.push(String::from_str(word));
    assert(arg_texts(args@) =~= arg_texts(old(args)@).push(word@));
}

/// The container runtime's command line.
pub struct Docker;

impl Docker {
    /// The arguments of the probe that tells whether the runtime answers.
    pub fn probe() -> (args: Vec<String>)
        ensures
            arg_texts(args@) == seq!["version"@],
    {
        let mut args: Vec<String> = Vec::new();
        assert(arg_texts(args@) =~= Seq::empty());
        push_arg(&mut args, "version");
        args
    }

    /// Whether the runtime can be used, given how the probe ended: `None`
    /// where it could not be started, else whether it succeeded.
    pub fn is_available(probe: Option<bool>) -> (available: bool)
        ensures
            available == (probe == Some(true)),
    {
        match probe {
            Some(success) => success,
            None => false,
        }
    }

    /// What a finished command comes to.
    pub fn run_command(success: bool, stdout: String, stderr: String) -> (outcome: Result<
        String,
        String,
    >)
        ensures
            match command_outcome(success, stdout@, stderr@) {
                Ok(text) => outcome is Ok && outcome->Ok_0@ == text,
                Err(text) => outcome is Err && outcome->Err_0@ == text,
            },
    {
        if success {
            Ok(stdout)
        } else if stderr.as_str().unicode_len() == 0 {
            Ok(String::new())
        } else {
            Err(stderr)
        }
    }

    /// The arguments of the usage query.
    pub fn get_disk_usage() -> (args: Vec<String>)
        ensures
            arg_texts(args@) == seq!["system"@, "df"@, "--format"@, "{{json .}}"@],
    {
        let mut args: Vec<String> = Vec::new();
        assert(arg_texts(args@) =~= Seq::empty());
        push_arg(&mut args, "system");
        push_arg(&mut args, "df");
        push_arg(&mut args, "--format");
        push_arg(&mut args, "{{json .}}");
        args
    }

    /// The snapshot that the reply to the usage query reports: every line
    /// that is not blank is taken in turn, and a line that is no JSON
    /// document, or names no known category, changes nothing.
    pub fn read_disk_usage(reply: &str) -> (usage: DiskUsage)
        ensures
            usage == usage_with_lines(DiskUsage::empty(), filled_lines(reply@)),
    {
        let lines = lines_with_content(reply);
        let mut usage = DiskUsage::default();
        let mut i: usize = 0;
        while i < lines.len()
            invariant
                i <= lines.len(),
                texts(lines@) == filled_lines(reply@),
                usage == usage_with_lines(DiskUsage::empty(), texts(lines@).take(i as int)),
            decreases lines.len() - i,
        {
            assert(texts(lines@).take(i + 1).drop_last() =~= texts(lines@).take(i as int));
            record_usage_line(&mut usage, lines[i].as_str());
            i = i + 1;
        }
        assert(texts(lines@).take(i as int) =~= texts(lines@));
        usage
    }

    /// The arguments of the listing of images.
    pub fn list_images() -> (args: Vec<String>)
        ensures
            arg_texts(args@) == seq!["images"@, "--format"@, "{{json .}}"@],
    {
        let mut args: Vec<String> = Vec::new();
        assert(arg_texts(args@) =~= Seq::empty());
        push_arg(&mut args, "images");
        push_arg(&mut args, "--format");
        push_arg(&mut args, "{{json .}}");
        args
    }

    /// The arguments of the listing of containers: all of them, or the
    /// running ones only.
    pub fn list_containers(all: bool) -> (args: Vec<String>)
        ensures
            arg_texts(args@) == list_containers_args(all),
    {
        let mut args: Vec<String> = Vec::new();
        assert(arg_texts(args@) =~= Seq::empty());
        push_arg(&mut args, "ps");
        if all {
            push_arg(&mut args, "-a");
        }
        push_arg(&mut args, "--format");
        push_arg(&mut args, "{{json .}}");
        args
    }

    /// The arguments of the listing of volumes.
    pub fn list_volumes() -> (args: Vec<String>)
        ensures
            arg_texts(args@) == seq!["volume"@, "ls"@, "--format"@, "{{json .}}"@],
    {
        let mut args: Vec<String> = Vec::new();
        assert(arg_texts(args@) =~= Seq::empty());
        push_arg(&mut args, "volume");
        push_arg(&mut args, "ls");
        push_arg(&mut args, "--format");
        push_arg(&mut args, "{{json .}}");
        args
    }

    /// The arguments of the listing of networks.
    pub fn list_networks() -> (args: Vec<String>)
        ensures
            arg_texts(args@) == seq!["network"@, "ls"@, "--format"@, "{{json .}}"@],
    {
        let mut args: Vec<String> = Vec::new();
        assert(arg_texts(args@) =~= Seq::empty());
        push_arg(&mut args, "network");
        push_arg(&mut args, "ls");
        push_arg(&mut args, "--format");
        push_arg(&mut args, "{{json .}}");
        args
    }

    /// The arguments that remove the stopped containers.
    pub fn prune_containers() -> (args: Vec<String>)
        ensures
            arg_texts(args@) == seq!["container"@, "prune"@, "-f"@],
    {
        let mut args: Vec<String> = Vec::new();
        assert(arg_texts(args@) =~= Seq::empty());
        push_arg(&mut args, "container");
        push_arg(&mut args, "prune");
        push_arg(&mut args, "-f");
        args
    }

    /// The arguments that remove images: every image that no container
    /// uses where `all` is set, the dangling ones otherwise.
    pub fn prune_images(all: bool) -> (args: Vec<String>)
        ensures
            arg_texts(args@) == seq!["image"@, "prune"@, prune_flag(all)],
    {
        let mut args: Vec<String> = Vec::new();
        assert(arg_texts(args@) =~= Seq::empty());
        push_arg(&mut args, "image");
        push_arg(&mut args, "prune");
        if all {
            push_arg(&mut args, "-af");
        } else {
            push_arg(&mut args, "-f");
        }
        args
    }

    /// The arguments that remove the volumes that nothing uses.
    pub fn prune_volumes() -> (args: Vec<String>)
        ensures
            arg_texts(args@) == seq!["volume"@, "prune"@, "-f"@],
    {
        let mut args: Vec<String> = Vec::new();
        assert(arg_texts(args@) =~= Seq::empty());
        push_arg(&mut args, "volume");
        push_arg(&mut args, "prune");
        push_arg(&mut args, "-f");
        args
    }

    /// The arguments that remove the networks that nothing uses.
    pub fn prune_networks() -> (args: Vec<String>)
        ensures
            arg_texts(args@) == seq!["network"@, "prune"@, "-f"@],
    {
        let mut args: Vec<String> = Vec::new();
        assert(arg_texts(args@) =~= Seq::empty());
        push_arg(&mut args, "network");
        push_arg(&mut args, "prune");
        push_arg(&mut args, "-f");
        args
    }

    /// The arguments that clear the build cache: all of it where `all` is
    /// set, what is unused otherwise.
    pub fn prune_build_cache(all: bool) -> (args: Vec<String>)
        ensures
            arg_texts(args@) == seq!["builder"@, "prune"@, prune_flag(all)],
    {
        let mut args: Vec<String> = Vec::new();
        assert(arg_texts(args@) =~= Seq::empty());
        push_arg(&mut args, "builder");
        push_arg(&mut args, "prune");
        if all {
            push_arg(&mut args, "-af");
        } else {
            push_arg(&mut args, "-f");
        }
        args
    }

    /// The arguments that stop the listed containers; `None` where none is
    /// listed, so that nothing is sent.
    pub fn stop_all_containers(running: &Vec<Container>) -> (args: Option<Vec<String>>)
        ensures
            running.len() == 0 <==> args is None,
            args is Some ==> arg_texts(args->0@) == seq!["stop"@] + container_ids(running@),
    {
        if running.len() == 0 {
            return None;
        }
        let mut args: Vec<String> = Vec::new();
        assert(arg_texts(args@) =~= Seq::empty());
        push_arg(&mut args, "stop");
        let mut i: usize = 0;
        while i < running.len()
            invariant
                i <= running.len(),
                arg_texts(args@) == seq!["stop"@] + container_ids(running@.take(i as int)),
            decreases running.len() - i,
        {
            push_arg(&mut args, running[i].id.as_str());
            i = i + 1;
            assert(container_ids(running@.take(i as int)) =~= container_ids(
                running@.take(i - 1),
            ).push(running@[i - 1].id@));
        }
        assert(running@.take(i as int) =~= running@);
        Some(args)
    }

    /// The arguments that remove the listed containers, running or not;
    /// `None` where none is listed.
    pub fn remove_all_containers(containers: &Vec<Container>) -> (args: Option<Vec<String>>)
        ensures
            containers.len() == 0 <==> args is None,
            args is Some ==> arg_texts(args->0@) == seq!["rm"@, "-f"@] + container_ids(
                containers@,
            ),
    {
        if containers.len() == 0 {
            return None;
        }
        let mut args: Vec<String> = Vec::new();
        assert(arg_texts(args@) =~= Seq::empty());
        push_arg(&mut args, "rm");
        push_arg(&mut args, "-f");
        let mut i: usize = 0;
        while i < containers.len()
            invariant
                i <= containers.len(),
                arg_texts(args@) == seq!["rm"@, "-f"@] + container_ids(
                    containers@.take(i as int),
                ),
            decreases containers.len() - i,
        {
            push_arg(&mut args, containers[i].id.as_str());
            i = i + 1;
            assert(container_ids(containers@.take(i as int)) =~= container_ids(
                containers@.take(i - 1),
            ).push(containers@[i - 1].id@));
        }
        assert(containers@.take(i as int) =~= containers@);
        Some(args)
    }

    /// The arguments that remove the listed images; `None` where none is
    /// listed.
    pub fn remove_all_images(images: &Vec<Image>) -> (args: Option<Vec<String>>)
        ensures
            images.len() == 0 <==> args is None,
            args is Some ==> arg_texts(args->0@) == seq!["rmi"@, "-f"@] + image_ids(images@),
    {
        if images.len() == 0 {
            return None;
        }
        let mut args: Vec<String> = Vec::new();
        assert(arg_texts(args@) =~= Seq::empty());
        push_arg(&mut args, "rmi");
        push_arg(&mut args, "-f");
        let mut i: usize = 0;
        while i < images.len()
            invariant
                i <= images.len(),
                arg_texts(args@) == seq!["rmi"@, "-f"@] + image_ids(images@.take(i as int)),
            decreases images.len() - i,
        {
            push_arg(&mut args, images[i].id.as_str());
            i = i + 1;
            assert(image_ids(images@.take(i as int)) =~= image_ids(images@.take(i - 1)).push(
                images@[i - 1].id@,
            ));
        }
        assert(images@.take(i as int) =~= images@);
        Some(args)
    }

    /// The arguments that remove the listed volumes; `None` where none is
    /// listed.
    pub fn remove_all_volumes(volumes: &Vec<Volume>) -> (args: Option<Vec<String>>)
        ensures
            volumes.len() == 0 <==> args is None,
            args is Some ==> arg_texts(args->0@) == seq!["volume"@, "rm"@, "-f"@] + volume_names(
                volumes@,
            ),
    {
        if volumes.len() == 0 {
            return None;
        }
        let mut args: Vec<String> = Vec::new();
        assert(arg_texts(args@) =~= Seq::empty());
        push_arg(&mut args, "volume");
        push_arg(&mut args, "rm");
        push_arg(&mut args, "-f");
        let mut i: usize = 0;
        while i < volumes.len()
            invariant
                i <= volumes.len(),
                arg_texts(args@) == seq!["volume"@, "rm"@, "-f"@] + volume_names(
                    volumes@.take(i as int),
                ),
            decreases volumes.len() - i,
        {
            push_arg(&mut args, volumes[i].name.as_str());
            i = i + 1;
            assert(volume_names(volumes@.take(i as int)) =~= volume_names(
                volumes@.take(i - 1),
            ).push(volumes@[i - 1].name@));
        }
        assert(volumes@.take(i as int) =~= volumes@);
        Some(args)
    }

    /// The arguments that remove the listed networks but for the runtime's
    /// own; `None` where no other is listed.
    pub fn remove_custom_networks(networks: &Vec<Network>) -> (args: Option<Vec<String>>)
        ensures
            custom_network_ids(networks@).len() == 0 <==> args is None,
            args is Some ==> arg_texts(args->0@) == seq!["network"@, "rm"@] + custom_network_ids(
                networks@,
            ),
    {
        let mut args: Vec<String> = Vec::new();
        assert(arg_texts(args@) =~= Seq::empty());
        push_arg(&mut args, "network");
        push_arg(&mut args, "rm");
        let mut i: usize = 0;
        assert(networks@.take(0).len() == 0);
        while i < networks.len()
            invariant
                i <= networks.len(),
                arg_texts(args@) == seq!["network"@, "rm"@] + custom_network_ids(
                    networks@.take(i as int),
                ),
            decreases networks.len() - i,
        {
            assert(networks@.take(i + 1).drop_last() =~= networks@.take(i as int));
            if !networks[i].is_default() {
                push_arg(&mut args, networks[i].id.as_str());
            }
            i = i + 1;
        }
        assert(networks@.take(i as int) =~= networks@);
        if args.len() == 2 {
            None
        } else {
            Some(args)
        }
    }
}

} // verus!
