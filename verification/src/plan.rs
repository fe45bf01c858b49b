//! From what the operator selects to the removals that are carried out.

use crate::display::{counted, counted_text, sized, sized_text, unused_of};
use crate::resources::{is_default_network, is_running_state, Container, Network};
use crate::usage::{DiskUsage, UsageKind};
use vstd::prelude::*;

verus! {

/// What the operator can choose to purge.
#[derive(Clone, Copy, Debug, PartialEq, Eq, Structural)]
pub enum PurgeCategory {
    StoppedContainers,
    DanglingImages,
    AllImages,
    UnusedVolumes,
    AllVolumes,
    CustomNetworks,
    BuildCache,
}

/// One removal that the runtime is asked for.
#[derive(Clone, Copy, Debug, PartialEq, Eq, Structural)]
pub enum PurgeAction {
    /// Stop the running containers.
    StopContainers,
    /// Remove every container.
    RemoveContainers,
    /// Remove the stopped containers.
    PruneContainers,
    /// Remove every image.
    RemoveImages,
    /// Remove images that are not in use: all of them, or the dangling
    /// ones only.
    PruneImages { all: bool },
    /// Remove every volume.
    RemoveVolumes,
    /// Remove the volumes that nothing uses.
    PruneVolumes,
    /// Remove every network but the runtime's own.
    RemoveCustomNetworks,
    /// Remove the networks that nothing uses.
    PruneNetworks,
    /// Clear the build cache: all of it, or what is unused.
    PruneBuildCache { all: bool },
}

/// The place of an action in the fixed order of removals: containers are
/// stopped and removed first, then images, volumes, networks, and the build
/// cache last.
pub open spec fn stage(action: PurgeAction) -> nat {
    match action {
        PurgeAction::StopContainers => 0,
        PurgeAction::RemoveContainers => 1,
        PurgeAction::PruneContainers => 1,
        PurgeAction::RemoveImages => 2,
        PurgeAction::PruneImages { .. } => 2,
        PurgeAction::RemoveVolumes => 3,
        PurgeAction::PruneVolumes => 3,
        PurgeAction::RemoveCustomNetworks => 4,
        PurgeAction::PruneNetworks => 4,
        PurgeAction::PruneBuildCache { .. } => 5,
    }
}

/// Whether each action of a plan belongs to a later stage than the one
/// before it: the plan keeps the fixed order and removes nothing twice.
pub open spec fn in_order(actions: Seq<PurgeAction>) -> bool {
    forall|i: int, j: int| 0 <= i < j < actions.len() ==> stage(actions[i]) < stage(actions[j])
}

/// `action` where `wanted`, nothing otherwise.
pub open spec fn when(wanted: bool, action: PurgeAction) -> Seq<PurgeAction> {
    if wanted {
        seq![action]
    } else {
        Seq::empty()
    }
}

/// The removal of images that a selection asks for: of all images where
/// those are selected, whether or not the dangling ones are too; of the
/// dangling ones where only they are selected.
pub open spec fn planned_images(selected: Set<PurgeCategory>) -> Seq<PurgeAction> {
    if selected.contains(PurgeCategory::AllImages) {
        seq![PurgeAction::PruneImages { all: true }]
    } else {
        when(
            selected.contains(PurgeCategory::DanglingImages),
            PurgeAction::PruneImages { all: false },
        )
    }
}

/// The removal of volumes that a selection asks for: of all volumes where
/// those are selected, of the unused ones where only they are.
pub open spec fn planned_volumes(selected: Set<PurgeCategory>) -> Seq<PurgeAction> {
    if selected.contains(PurgeCategory::AllVolumes) {
        seq![PurgeAction::RemoveVolumes]
    } else {
        when(selected.contains(PurgeCategory::UnusedVolumes), PurgeAction::PruneVolumes)
    }
}

/// The plan for a selection: one action at most for containers, images,
/// volumes, networks and build cache, in this order.
pub open spec fn planned(selected: Set<PurgeCategory>) -> Seq<PurgeAction> {
    when(selected.contains(PurgeCategory::StoppedContainers), PurgeAction::PruneContainers)
        + planned_images(selected) + planned_volumes(selected) + when(
        selected.contains(PurgeCategory::CustomNetworks),
        PurgeAction::PruneNetworks,
    ) + when(
        selected.contains(PurgeCategory::BuildCache),
        PurgeAction::PruneBuildCache { all: true },
    )
}

/// Whether `category` is among `selection`.
pub fn is_selected(selection: &Vec<PurgeCategory>, category: PurgeCategory) -> (found: bool)
    ensures
        found == selection@.to_set().contains(category),
{
    let mut i: usize = 0;
    while i < selection.len()
        invariant
            i <= selection.len(),
            forall|k: int| 0 <= k < i ==> selection[k] != category,
        decreases selection.len() - i,
    {
        if selection[i] == category {
            assert(selection@.contains(category));
            return true;
        }
        i = i + 1;
    }
    assert(!selection@.contains(category));
    false
}

/// Builds the plan for what the operator selected. Where both all images
/// and the dangling ones are selected, images are removed once, all of
/// them; likewise for volumes. Nothing selected gives an empty plan.
pub fn plan(selection: &Vec<PurgeCategory>) -> (actions: Vec<PurgeAction>)
    ensures
        actions@ == planned(selection@.to_set()),
        in_order(actions@),
        selection.len() == 0 ==> actions.len() == 0,
{
    let mut actions: Vec<PurgeAction> = Vec::new();
    let ghost selected = selection@.to_set();
    if is_selected(selection, PurgeCategory::StoppedContainers) {
        actions.push(PurgeAction::PruneContainers);
    }
    assert(actions@ =~= when(
        selected.contains(PurgeCategory::StoppedContainers),
        PurgeAction::PruneContainers,
    ));
    let ghost containers = actions@;
    if is_selected(selection, PurgeCategory::AllImages) {
        actions.push(PurgeAction::PruneImages { all: true });
    } else if is_selected(selection, PurgeCategory::DanglingImages) {
        actions.push(PurgeAction::PruneImages { all: false });
    }
    assert(actions@ =~= containers + planned_images(selected));
    let ghost images = actions@;
    if is_selected(selection, PurgeCategory::AllVolumes) {
        actions.push(PurgeAction::RemoveVolumes);
    } else if is_selected(selection, PurgeCategory::UnusedVolumes) {
        actions.push(PurgeAction::PruneVolumes);
    }
    assert(actions@ =~= images + planned_volumes(selected));
    let ghost volumes = actions@;
    if is_selected(selection, PurgeCategory::CustomNetworks) {
        actions.push(PurgeAction::PruneNetworks);
    }
    assert(actions@ =~= volumes + when(
        selected.contains(PurgeCategory::CustomNetworks),
        PurgeAction::PruneNetworks,
    ));
    let ghost networks = actions@;
    if is_selected(selection, PurgeCategory::BuildCache) {
        actions.push(PurgeAction::PruneBuildCache { all: true });
    }
    assert(actions@ =~= networks + when(
        selected.contains(PurgeCategory::BuildCache),
        PurgeAction::PruneBuildCache { all: true },
    ));
    proof {
        lemma_plan_in_order(selected);
        if selection.len() == 0 {
            assert(selected =~= Set::empty());
        }
    }
    actions
}

/// Whether every action of `actions` belongs to a stage before `limit`.
pub open spec fn before_stage(actions: Seq<PurgeAction>, limit: nat) -> bool {
    forall|i: int| 0 <= i < actions.len() ==> stage(#[trigger] actions[i]) < limit
}

/// An ordered plan stays ordered when an action of a later stage follows.
pub proof fn lemma_in_order_extend(actions: Seq<PurgeAction>, wanted: bool, next: PurgeAction)
    requires
        in_order(actions),
        before_stage(actions, stage(next)),
    ensures
        in_order(actions + when(wanted, next)),
        before_stage(actions + when(wanted, next), stage(next) + 1),
{
    let longer = actions + when(wanted, next);
    assert forall|i: int, j: int| 0 <= i < j < longer.len() implies stage(longer[i]) < stage(
        longer[j],
    ) by {
        if j < actions.len() {
            assert(longer[i] == actions[i] && longer[j] == actions[j]);
        } else {
            assert(longer[i] == actions[i]);
        }
    }
    assert forall|i: int| 0 <= i < longer.len() implies stage(#[trigger] longer[i]) < stage(next)
        + 1 by {
        if i < actions.len() {
            assert(longer[i] == actions[i]);
        }
    }
}

/// A plan keeps the fixed order and holds no stage twice, so that nothing
/// is removed twice.
pub proof fn lemma_plan_in_order(selected: Set<PurgeCategory>)
    ensures
        in_order(planned(selected)),
        planned(selected).len() <= 5,
{
    let none = Seq::<PurgeAction>::empty();
    let all_images = selected.contains(PurgeCategory::AllImages);
    let all_volumes = selected.contains(PurgeCategory::AllVolumes);
    let images = PurgeAction::PruneImages { all: all_images };
    let volumes = if all_volumes {
        PurgeAction::RemoveVolumes
    } else {
        PurgeAction::PruneVolumes
    };
    let first = none + when(
        selected.contains(PurgeCategory::StoppedContainers),
        PurgeAction::PruneContainers,
    );
    let second = first + when(
        all_images || selected.contains(PurgeCategory::DanglingImages),
        images,
    );
    let third = second + when(
        all_volumes || selected.contains(PurgeCategory::UnusedVolumes),
        volumes,
    );
    let fourth = third + when(
        selected.contains(PurgeCategory::CustomNetworks),
        PurgeAction::PruneNetworks,
    );
    lemma_in_order_extend(
        none,
        selected.contains(PurgeCategory::StoppedContainers),
        PurgeAction::PruneContainers,
    );
    lemma_in_order_extend(
        first,
        all_images || selected.contains(PurgeCategory::DanglingImages),
        images,
    );
    lemma_in_order_extend(
        second,
        all_volumes || selected.contains(PurgeCategory::UnusedVolumes),
        volumes,
    );
    lemma_in_order_extend(
        third,
        selected.contains(PurgeCategory::CustomNetworks),
        PurgeAction::PruneNetworks,
    );
    lemma_in_order_extend(
        fourth,
        selected.contains(PurgeCategory::BuildCache),
        PurgeAction::PruneBuildCache { all: true },
    );
    assert(first =~= when(
        selected.contains(PurgeCategory::StoppedContainers),
        PurgeAction::PruneContainers,
    ));
    assert(second =~= first + planned_images(selected));
    assert(third =~= second + planned_volumes(selected));
}

/// Nothing selected, nothing planned.
pub proof fn lemma_empty_selection()
    ensures
        planned(Set::empty()).len() == 0,
{
}

/// A plan removes images once at most: all of them where all images are
/// selected, whether or not the dangling ones are too; the dangling ones
/// where only they are selected.
pub proof fn lemma_images_once(selected: Set<PurgeCategory>)
    ensures
        planned_images(selected) == if selected.contains(PurgeCategory::AllImages) {
            seq![PurgeAction::PruneImages { all: true }]
        } else if selected.contains(PurgeCategory::DanglingImages) {
            seq![PurgeAction::PruneImages { all: false }]
        } else {
            Seq::empty()
        },
        forall|i: int|
            0 <= i < planned(selected).len() && stage(#[trigger] planned(selected)[i]) == 2
                ==> planned_images(selected) == seq![planned(selected)[i]],
{
}

/// A plan removes volumes once at most: all of them where all volumes are
/// selected, the unused ones where only they are.
pub proof fn lemma_volumes_once(selected: Set<PurgeCategory>)
    ensures
        planned_volumes(selected) == if selected.contains(PurgeCategory::AllVolumes) {
            seq![PurgeAction::RemoveVolumes]
        } else if selected.contains(PurgeCategory::UnusedVolumes) {
            seq![PurgeAction::PruneVolumes]
        } else {
            Seq::empty()
        },
        forall|i: int|
            0 <= i < planned(selected).len() && stage(#[trigger] planned(selected)[i]) == 3
                ==> planned_volumes(selected) == seq![planned(selected)[i]],
{
}

/// One line of the menu that the operator selects from.
#[derive(Debug)]
pub struct PurgeItem {
    pub label: String,
    pub category: PurgeCategory,
}

/// What was found when the menu is built: the usage snapshot, and how many
/// stopped containers, images, volumes and networks other than the
/// runtime's own were listed.
pub struct Findings {
    pub usage: DiskUsage,
    pub stopped_containers: usize,
    pub images: usize,
    pub volumes: usize,
    pub custom_networks: usize,
}

/// Whether a category is put on the menu: only where there is something of
/// it to remove.
pub open spec fn offered(found: Findings, category: PurgeCategory) -> bool {
    match category {
        PurgeCategory::StoppedContainers => found.stopped_containers > 0,
        PurgeCategory::DanglingImages => unused_of(found.usage, UsageKind::Images) > 0
            || found.usage.images_reclaimable > 0,
        PurgeCategory::AllImages => found.images > 0,
        PurgeCategory::UnusedVolumes => unused_of(found.usage, UsageKind::Volumes) > 0
            || found.usage.volumes_reclaimable > 0,
        PurgeCategory::AllVolumes => found.volumes > 0,
        PurgeCategory::CustomNetworks => found.custom_networks > 0,
        PurgeCategory::BuildCache => found.usage.build_cache_size > 0,
    }
}

/// The menu line of a category: what it is, how many, and how large.
pub open spec fn label_of(found: Findings, category: PurgeCategory) -> Seq<char> {
    match category {
        PurgeCategory::StoppedContainers => counted_text(
            "Stopped containers ("@,
            found.stopped_containers as nat,
            " containers)"@,
        ),
        PurgeCategory::DanglingImages => counted_text(
            "Dangling images ("@,
            unused_of(found.usage, UsageKind::Images),
            " images, "@,
        ) + sized_text(Seq::empty(), found.usage.images_reclaimable, ")"@),
        PurgeCategory::AllImages => counted_text(
            "ALL images ("@,
            found.images as nat,
            " images, "@,
        ) + sized_text(Seq::empty(), found.usage.images_size, ")"@),
        PurgeCategory::UnusedVolumes => counted_text(
            "Unused volumes ("@,
            unused_of(found.usage, UsageKind::Volumes),
            " volumes, "@,
        ) + sized_text(Seq::empty(), found.usage.volumes_reclaimable, ")"@),
        PurgeCategory::AllVolumes => counted_text(
            "ALL volumes ("@,
            found.volumes as nat,
            " volumes, "@,
        ) + sized_text(Seq::empty(), found.usage.volumes_size, ")"@),
        PurgeCategory::CustomNetworks => counted_text(
            "Custom networks ("@,
            found.custom_networks as nat,
            " networks)"@,
        ),
        PurgeCategory::BuildCache => sized_text(
            "Build cache ("@,
            found.usage.build_cache_size,
            ")"@,
        ),
    }
}

/// The categories in the order of the menu.
pub open spec fn menu_order() -> Seq<PurgeCategory> {
    seq![
        PurgeCategory::StoppedContainers,
        PurgeCategory::DanglingImages,
        PurgeCategory::AllImages,
        PurgeCategory::UnusedVolumes,
        PurgeCategory::AllVolumes,
        PurgeCategory::CustomNetworks,
        PurgeCategory::BuildCache,
    ]
}

/// The categories on the menu: those offered, in the order of the menu.
pub open spec fn menu_categories(found: Findings) -> Seq<PurgeCategory> {
    menu_order().filter(|category: PurgeCategory| offered(found, category))
}

/// The categories of a list of menu lines.
pub open spec fn categories_of(items: Seq<PurgeItem>) -> Seq<PurgeCategory> {
    items.map_values(|item: PurgeItem| item.category)
}

/// Whether every line carries the label of its category.
pub open spec fn labelled(items: Seq<PurgeItem>, found: Findings) -> bool {
    forall|i: int|
        0 <= i < items.len() ==> (#[trigger] items[i]).label@ == label_of(found, items[i].category)
}

/// Two pieces of text in a row.
fn joined(first: String, second: String) -> (text: String)
    ensures
        text@ == first@ + second@,
{
    let mut text = first;
    text.append(second.as_str());
    text
}

/// The menu line of a category.
pub fn menu_label(found: &Findings, category: PurgeCategory) -> (label: String)
    ensures
        label@ == label_of(*found, category),
{
    proof {
        reveal_strlit("");
        assert(""@ =~= Seq::<char>::empty());
    }
    let usage = &found.usage;
    match category {
        PurgeCategory::StoppedContainers => counted(
            "Stopped containers (",
            found.stopped_containers,
            " containers)",
        ),
        PurgeCategory::DanglingImages => joined(
            counted(
                "Dangling images (",
                usage.category(UsageKind::Images).unused_count(),
                " images, ",
            ),
            sized("", usage.images_reclaimable, ")"),
        ),
        PurgeCategory::AllImages => joined(
            counted("ALL images (", found.images, " images, "),
            sized("", usage.images_size, ")"),
        ),
        PurgeCategory::UnusedVolumes => joined(
            counted(
                "Unused volumes (",
                usage.category(UsageKind::Volumes).unused_count(),
                " volumes, ",
            ),
            sized("", usage.volumes_reclaimable, ")"),
        ),
        PurgeCategory::AllVolumes => joined(
            counted("ALL volumes (", found.volumes, " volumes, "),
            sized("", usage.volumes_size, ")"),
        ),
        PurgeCategory::CustomNetworks => counted(
            "Custom networks (",
            found.custom_networks,
            " networks)",
        ),
        PurgeCategory::BuildCache => sized("Build cache (", usage.build_cache_size, ")"),
    }
}

/// Whether a category is put on the menu.
pub fn is_offered(found: &Findings, category: PurgeCategory) -> (on_menu: bool)
    ensures
        on_menu == offered(*found, category),
{
    let usage = &found.usage;
    match category {
        PurgeCategory::StoppedContainers => found.stopped_containers > 0,
        PurgeCategory::DanglingImages => usage.category(UsageKind::Images).unused_count() > 0
            || usage.images_reclaimable > 0,
        PurgeCategory::AllImages => found.images > 0,
        PurgeCategory::UnusedVolumes => usage.category(UsageKind::Volumes).unused_count() > 0
            || usage.volumes_reclaimable > 0,
        PurgeCategory::AllVolumes => found.volumes > 0,
        PurgeCategory::CustomNetworks => found.custom_networks > 0,
        PurgeCategory::BuildCache => usage.build_cache_size > 0,
    }
}

/// Category number `at` of the menu order.
fn menu_category(at: usize) -> (category: PurgeCategory)
    requires
        at < 7,
    ensures
        category == menu_order()[at as int],
{
    if at == 0 {
        PurgeCategory::StoppedContainers
    } else if at == 1 {
        PurgeCategory::DanglingImages
    } else if at == 2 {
        PurgeCategory::AllImages
    } else if at == 3 {
        PurgeCategory::UnusedVolumes
    } else if at == 4 {
        PurgeCategory::AllVolumes
    } else if at == 5 {
        PurgeCategory::CustomNetworks
    } else {
        PurgeCategory::BuildCache
    }
}

/// The menu: one line for each category of which there is something to
/// remove, in the order of the menu. An empty menu says that there is
/// nothing to clean up.
pub fn purge_candidates(found: &Findings) -> (items: Vec<PurgeItem>)
    ensures
        categories_of(items@) == menu_categories(*found),
        labelled(items@, *found),
{
    let mut items: Vec<PurgeItem> = Vec::new();
    let mut at: usize = 0;
    proof {
        reveal(Seq::filter);
        assert(menu_order().take(0) =~= Seq::empty());
        assert(categories_of(items@) =~= Seq::empty());
    }
    while at < 7
        invariant
            at <= 7,
            menu_order().len() == 7,
            categories_of(items@) == menu_order().take(at as int).filter(
                |category: PurgeCategory| offered(*found, category),
            ),
            labelled(items@, *found),
        decreases 7 - at,
    {
        let category = menu_category(at);
        proof {
            reveal(Seq::filter);
            assert(menu_order().take(at + 1).drop_last() =~= menu_order().take(at as int));
        }
        if is_offered(found, category) {
            let ghost before = items@;
            items.push(PurgeItem { label: menu_label(found, category), category });
            assert(categories_of(items@) =~= categories_of(before).push(category));
        }
        at = at + 1;
    }
    assert(menu_order().take(7) =~= menu_order());
    items
}

/// The categories behind the lines that were selected, in the order of
/// the selection.
pub open spec fn selected_of(items: Seq<PurgeItem>, selection: Seq<usize>) -> Seq<PurgeCategory> {
    selection.map_values(|line: usize| items[line as int].category)
}

/// The categories behind the selected lines of the menu.
pub fn selected_categories(items: &Vec<PurgeItem>, selection: &Vec<usize>) -> (selected: Vec<
    PurgeCategory,
>)
    requires
        forall|i: int| 0 <= i < selection.len() ==> selection[i] < items.len(),
    ensures
        selected@ == selected_of(items@, selection@),
{
    let mut selected: Vec<PurgeCategory> = Vec::new();
    let mut i: usize = 0;
    while i < selection.len()
        invariant
            i <= selection.len(),
            forall|k: int| 0 <= k < selection.len() ==> selection[k] < items.len(),
            selected@ == selected_of(items@, selection@.take(i as int)),
        decreases selection.len() - i,
    {
        selected.push(items[selection[i]].category);
        i = i + 1;
        assert(selected@ =~= selected_of(items@, selection@.take(i as int)));
    }
    assert(selection@.take(i as int) =~= selection@);
    selected
}

/// Every line of a menu of `lines` lines, as a forced run selects them.
pub fn select_all(lines: usize) -> (selection: Vec<usize>)
    ensures
        selection@ == Seq::new(lines as nat, |i: int| i as usize),
{
    let mut selection: Vec<usize> = Vec::new();
    let mut i: usize = 0;
    while i < lines
        invariant
            i <= lines,
            selection@ == Seq::new(i as nat, |k: int| k as usize),
        decreases lines - i,
    {
        selection.push(i);
        i = i + 1;
        assert(selection@ =~= Seq::new(i as nat, |k: int| k as usize));
    }
    selection
}

/// The listed containers that are running.
pub open spec fn running_among(containers: Seq<Container>) -> Seq<Container> {
    containers.filter(|c: Container| is_running_state(c.state@))
}

/// The listed containers that are not running.
pub open spec fn stopped_among(containers: Seq<Container>) -> Seq<Container> {
    containers.filter(|c: Container| !is_running_state(c.state@))
}

/// The listed networks that are not the runtime's own.
pub open spec fn custom_among(networks: Seq<Network>) -> Seq<Network> {
    networks.filter(|n: Network| !is_default_network(n.name@))
}

/// Number of listed containers that are running.
pub fn count_running(containers: &Vec<Container>) -> (count: usize)
    ensures
        count == running_among(containers@).len(),
{
    let mut count: usize = 0;
    let mut i: usize = 0;
    proof {
        reveal(Seq::filter);
        assert(containers@.take(0) =~= Seq::empty());
    }
    while i < containers.len()
        invariant
            i <= containers.len(),
            count == running_among(containers@.take(i as int)).len(),
            count <= i,
        decreases containers.len() - i,
    {
        proof {
            reveal(Seq::filter);
            assert(containers@.take(i + 1).drop_last() =~= containers@.take(i as int));
        }
        if containers[i].is_running() {
            count = count + 1;
        }
        i = i + 1;
    }
    assert(containers@.take(i as int) =~= containers@);
    count
}

/// Number of listed containers that are not running.
pub fn count_stopped(containers: &Vec<Container>) -> (count: usize)
    ensures
        count == stopped_among(containers@).len(),
{
    let mut count: usize = 0;
    let mut i: usize = 0;
    proof {
        reveal(Seq::filter);
        assert(containers@.take(0) =~= Seq::empty());
    }
    while i < containers.len()
        invariant
            i <= containers.len(),
            count == stopped_among(containers@.take(i as int)).len(),
            count <= i,
        decreases containers.len() - i,
    {
        proof {
            reveal(Seq::filter);
            assert(containers@.take(i + 1).drop_last() =~= containers@.take(i as int));
        }
        if !containers[i].is_running() {
            count = count + 1;
        }
        i = i + 1;
    }
    assert(containers@.take(i as int) =~= containers@);
    count
}

/// Number of listed networks that are not the runtime's own.
pub fn count_custom_networks(networks: &Vec<Network>) -> (count: usize)
    ensures
        count == custom_among(networks@).len(),
{
    let mut count: usize = 0;
    let mut i: usize = 0;
    proof {
        reveal(Seq::filter);
        assert(networks@.take(0) =~= Seq::empty());
    }
    while i < networks.len()
        invariant
            i <= networks.len(),
            count == custom_among(networks@.take(i as int)).len(),
            count <= i,
        decreases networks.len() - i,
    {
        proof {
            reveal(Seq::filter);
            assert(networks@.take(i + 1).drop_last() =~= networks@.take(i as int));
        }
        if !networks[i].is_default() {
            count = count + 1;
        }
        i = i + 1;
    }
    assert(networks@.take(i as int) =~= networks@);
    count
}

/// The plan of the safe purge: what is unused goes, in the fixed order,
/// and nothing that is in use.
pub open spec fn safe_actions() -> Seq<PurgeAction> {
    seq![
        PurgeAction::PruneContainers,
        PurgeAction::PruneImages { all: false },
        PurgeAction::PruneVolumes,
        PurgeAction::PruneNetworks,
        PurgeAction::PruneBuildCache { all: false },
    ]
}

/// The plan of the safe purge.
pub fn safe_plan() -> (actions: Vec<PurgeAction>)
    ensures
        actions@ == safe_actions(),
        in_order(actions@),
{
    let mut actions: Vec<PurgeAction> = Vec::new();
    actions.push(PurgeAction::PruneContainers);
    actions.push(PurgeAction::PruneImages { all: false });
    actions.push(PurgeAction::PruneVolumes);
    actions.push(PurgeAction::PruneNetworks);
    actions.push(PurgeAction::PruneBuildCache { all: false });
    assert(actions@ =~= safe_actions());
    actions
}

/// How many containers, running containers, images, volumes and networks
/// other than the runtime's own were listed before a full reset.
#[derive(Clone, Copy, Debug)]
pub struct Inventory {
    pub containers: usize,
    pub running: usize,
    pub images: usize,
    pub volumes: usize,
    pub custom_networks: usize,
}

/// The plan of the full reset: running containers are stopped before all
/// containers are removed; then images, volumes and networks go, each
/// where any was listed; the build cache is cleared in any case.
pub open spec fn reset_actions(listed: Inventory) -> Seq<PurgeAction> {
    when(listed.running > 0, PurgeAction::StopContainers) + when(
        listed.containers > 0,
        PurgeAction::RemoveContainers,
    ) + when(listed.images > 0, PurgeAction::RemoveImages) + when(
        listed.volumes > 0,
        PurgeAction::RemoveVolumes,
    ) + when(listed.custom_networks > 0, PurgeAction::RemoveCustomNetworks)
        + seq![PurgeAction::PruneBuildCache { all: true }]
}

/// A full reset keeps the fixed order, and stops containers before it
/// removes them.
pub proof fn lemma_reset_in_order(listed: Inventory)
    ensures
        in_order(reset_actions(listed)),
{
    let none = Seq::<PurgeAction>::empty();
    let stop = none + when(listed.running > 0, PurgeAction::StopContainers);
    let containers = stop + when(listed.containers > 0, PurgeAction::RemoveContainers);
    let images = containers + when(listed.images > 0, PurgeAction::RemoveImages);
    let volumes = images + when(listed.volumes > 0, PurgeAction::RemoveVolumes);
    let networks = volumes + when(
        listed.custom_networks > 0,
        PurgeAction::RemoveCustomNetworks,
    );
    lemma_in_order_extend(none, listed.running > 0, PurgeAction::StopContainers);
    lemma_in_order_extend(stop, listed.containers > 0, PurgeAction::RemoveContainers);
    lemma_in_order_extend(containers, listed.images > 0, PurgeAction::RemoveImages);
    lemma_in_order_extend(images, listed.volumes > 0, PurgeAction::RemoveVolumes);
    lemma_in_order_extend(volumes, listed.custom_networks > 0, PurgeAction::RemoveCustomNetworks);
    lemma_in_order_extend(networks, true, PurgeAction::PruneBuildCache { all: true });
    assert(stop =~= when(listed.running > 0, PurgeAction::StopContainers));
}

/// The plan of the full reset.
pub fn nuclear_plan(listed: &Inventory) -> (actions: Vec<PurgeAction>)
    ensures
        actions@ == reset_actions(*listed),
        in_order(actions@),
{
    let mut actions: Vec<PurgeAction> = Vec::new();
    if listed.running > 0 {
        actions.push(PurgeAction::StopContainers);
    }
    let ghost stopped = actions@;
    assert(stopped =~= when(listed.running > 0, PurgeAction::StopContainers));
    if listed.containers > 0 {
        actions.push(PurgeAction::RemoveContainers);
    }
    let ghost containers = actions@;
    assert(containers =~= stopped + when(listed.containers > 0, PurgeAction::RemoveContainers));
    if listed.images > 0 {
        actions.push(PurgeAction::RemoveImages);
    }
    let ghost images = actions@;
    assert(images =~= containers + when(listed.images > 0, PurgeAction::RemoveImages));
    if listed.volumes > 0 {
        actions.push(PurgeAction::RemoveVolumes);
    }
    let ghost volumes = actions@;
    assert(volumes =~= images + when(listed.volumes > 0, PurgeAction::RemoveVolumes));
    if listed.custom_networks > 0 {
        actions.push(PurgeAction::RemoveCustomNetworks);
    }
    let ghost networks = actions@;
    assert(networks =~= volumes + when(
        listed.custom_networks > 0,
        PurgeAction::RemoveCustomNetworks,
    ));
    actions.push(PurgeAction::PruneBuildCache { all: true });
    assert(actions@ =~= networks + seq![PurgeAction::PruneBuildCache { all: true }]);
    proof {
        lemma_reset_in_order(*listed);
    }
    actions
}

/// What stands between a plan and its execution.
#[derive(Clone, Copy, Debug, PartialEq, Eq, Structural)]
pub enum Consent {
    /// A dry run: show the plan and change nothing.
    ShowOnly,
    /// Ask the operator, and go on only if the answer is yes.
    Ask,
    /// Go on without asking.
    Granted,
}

/// The consent that a run needs: a dry run never changes anything, a
/// forced run never asks, any other asks.
pub open spec fn consent_for(force: bool, dry_run: bool) -> Consent {
    if dry_run {
        Consent::ShowOnly
    } else if force {
        Consent::Granted
    } else {
        Consent::Ask
    }
}

/// The consent that a run needs.
pub fn consent(force: bool, dry_run: bool) -> (needed: Consent)
    ensures
        needed == consent_for(force, dry_run),
{
    if dry_run {
        Consent::ShowOnly
    } else if force {
        Consent::Granted
    } else {
        Consent::Ask
    }
}

} // verus!
