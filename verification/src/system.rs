//! The catalog of developer caches: where they lie, which are worth
//! listing, and how each is emptied.

use crate::display::{byte_size_text, format_bytes};
use crate::text::same_text;
use std::path::PathBuf;
use vstd::prelude::*;

verus! {

#[verifier::external_type_specification]
#[verifier::external_body]
pub struct ExPathBuf(std::path::PathBuf);

/// `Clone` for `std::path::PathBuf`: the copy is the path it was made from.
pub assume_specification[ <PathBuf as Clone>::clone ](path: &PathBuf) -> (copy: PathBuf)
    ensures
        copy == *path,
;

/// A place of the catalog: a name, where it lies from the home directory
/// and in all, and what it holds.
#[derive(Debug)]
pub struct CacheLocation {
    pub name: String,
    pub subpath: String,
    pub path: PathBuf,
    pub description: String,
}

/// A place of the catalog after it was probed.
#[derive(Debug)]
pub struct CacheInfo {
    pub name: String,
    pub path: PathBuf,
    pub size: u64,
    pub exists: bool,
    pub description: String,
}

impl Clone for CacheInfo {
    fn clone(&self) -> (copy: Self)
        ensures
            copy == *self,
    {
        CacheInfo {
            name: self.name.clone(),
            path: self.path.clone(),
            size: self.size,
            exists: self.exists,
            description: self.description.clone(),
        }
    }
}

/// Number of places in the catalog.
pub const CATALOG_LEN: usize = 15;

/// Name of the place in row `row` of the catalog.
pub open spec fn catalog_name(row: int) -> Seq<char> {
    if row == 0 {
        "Homebrew"@
    } else if row == 1 {
        "npm"@
    } else if row == 2 {
        "Yarn"@
    } else if row == 3 {
        "pnpm"@
    } else if row == 4 {
        "Cargo Registry"@
    } else if row == 5 {
        "Cargo Git"@
    } else if row == 6 {
        "pip"@
    } else if row == 7 {
        "Xcode DerivedData"@
    } else if row == 8 {
        "Xcode Archives"@
    } else if row == 9 {
        "CocoaPods"@
    } else if row == 10 {
        "Gradle"@
    } else if row == 11 {
        "Maven"@
    } else if row == 12 {
        "Go Modules"@
    } else if row == 13 {
        "Composer"@
    } else {
        "Trash"@
    }
}

/// Where the place in row `row` lies, from the home directory.
pub open spec fn catalog_subpath(row: int) -> Seq<char> {
    if row == 0 {
        "Library/Caches/Homebrew"@
    } else if row == 1 {
        ".npm/_cacache"@
    } else if row == 2 {
        "Library/Caches/Yarn"@
    } else if row == 3 {
        "Library/pnpm/store"@
    } else if row == 4 {
        ".cargo/registry"@
    } else if row == 5 {
        ".cargo/git"@
    } else if row == 6 {
        "Library/Caches/pip"@
    } else if row == 7 {
        "Library/Developer/Xcode/DerivedData"@
    } else if row == 8 {
        "Library/Developer/Xcode/Archives"@
    } else if row == 9 {
        "Library/Caches/CocoaPods"@
    } else if row == 10 {
        ".gradle/caches"@
    } else if row == 11 {
        ".m2/repository"@
    } else if row == 12 {
        "go/pkg/mod/cache"@
    } else if row == 13 {
        ".composer/cache"@
    } else {
        ".Trash"@
    }
}

/// What the place in row `row` holds.
pub open spec fn catalog_description(row: int) -> Seq<char> {
    if row == 0 {
        "Homebrew package downloads and cache"@
    } else if row == 1 {
        "Node.js npm package cache"@
    } else if row == 2 {
        "Yarn package cache"@
    } else if row == 3 {
        "pnpm package store"@
    } else if row == 4 {
        "Rust crates registry cache"@
    } else if row == 5 {
        "Rust git dependencies cache"@
    } else if row == 6 {
        "Python pip package cache"@
    } else if row == 7 {
        "Xcode build artifacts and indexes"@
    } else if row == 8 {
        "Xcode archived builds"@
    } else if row == 9 {
        "CocoaPods spec and pod cache"@
    } else if row == 10 {
        "Gradle build cache"@
    } else if row == 11 {
        "Maven local repository"@
    } else if row == 12 {
        "Go module cache"@
    } else if row == 13 {
        "PHP Composer cache"@
    } else {
        "Files in Trash"@
    }
}

/// Calls `std::path::Path::join`, which adjoins `subpath` to `home`. Nothing
/// is claimed of the result: how the two are put together is the
/// platform's.
#[verifier::external_body]
fn join_under(home: &PathBuf, subpath: &str) -> PathBuf {
    home.join(subpath)
}

/// Row `row` of the catalog: name, place under the home directory, and
/// description.
fn catalog_row(row: usize) -> (r: (&'static str, &'static str, &'static str))
    requires
        row < CATALOG_LEN,
    ensures
        r.0@ == catalog_name(row as int),
        r.1@ == catalog_subpath(row as int),
        r.2@ == catalog_description(row as int),
{
    if row == 0 {
        ("Homebrew", "Library/Caches/Homebrew", "Homebrew package downloads and cache")
    }     else if row == 1 {
        ("npm", ".npm/_cacache", "Node.js npm package cache")
    }     else if row == 2 {
        ("Yarn", "Library/Caches/Yarn", "Yarn package cache")
    }     else if row == 3 {
        ("pnpm", "Library/pnpm/store", "pnpm package store")
    }     else if row == 4 {
        ("Cargo Registry", ".cargo/registry", "Rust crates registry cache")
    }     else if row == 5 {
        ("Cargo Git", ".cargo/git", "Rust git dependencies cache")
    }     else if row == 6 {
        ("pip", "Library/Caches/pip", "Python pip package cache")
    }     else if row == 7 {
        ("Xcode DerivedData", "Library/Developer/Xcode/DerivedData", "Xcode build artifacts and indexes")
    }     else if row == 8 {
        ("Xcode Archives", "Library/Developer/Xcode/Archives", "Xcode archived builds")
    }     else if row == 9 {
        ("CocoaPods", "Library/Caches/CocoaPods", "CocoaPods spec and pod cache")
    }     else if row == 10 {
        ("Gradle", ".gradle/caches", "Gradle build cache")
    }     else if row == 11 {
        ("Maven", ".m2/repository", "Maven local repository")
    }     else if row == 12 {
        ("Go Modules", "go/pkg/mod/cache", "Go module cache")
    }     else if row == 13 {
        ("Composer", ".composer/cache", "PHP Composer cache")
    }     else {
        ("Trash", ".Trash", "Files in Trash")
    }
}

/// Whether `places` is the catalog, row by row.
pub open spec fn is_catalog(places: Seq<CacheLocation>) -> bool {
    &&& places.len() == CATALOG_LEN
    &&& forall|row: int|
        0 <= row < places.len() ==> {
            &&& (#[trigger] places[row]).name@ == catalog_name(row)
            &&& places[row].subpath@ == catalog_subpath(row)
            &&& places[row].description@ == catalog_description(row)
        }
}

/// The places to probe: the whole catalog, each place with its path under
/// the home directory, and none where the home directory is not known.
pub fn cache_locations(home: Option<&PathBuf>) -> (places: Vec<CacheLocation>)
    ensures
        home is None ==> places.len() == 0,
        home is Some ==> is_catalog(places@),
{
    let mut places: Vec<CacheLocation> = Vec::new();
    match home {
        None => {},
        Some(home) => {
            let mut row: usize = 0;
            while row < CATALOG_LEN
                invariant
                    row <= CATALOG_LEN,
                    places.len() == row,
                    forall|r: int|
                        0 <= r < row ==> {
                            &&& (#[trigger] places[r]).name@ == catalog_name(r)
                            &&& places[r].subpath@ == catalog_subpath(r)
                            &&& places[r].description@ == catalog_description(r)
                        },
                decreases CATALOG_LEN - row,
            {
                let (name, subpath, description) = catalog_row(row);
                places.push(
                    CacheLocation {
                        name: String::from_str(name),
                        subpath: String::from_str(subpath),
                        path: join_under(home, subpath),
                        description: String::from_str(description),
                    },
                );
                row = row + 1;
            }
        },
    }
    places
}

/// The size that a probe gives a place: what was measured where the place
/// exists and could be measured, zero otherwise.
pub open spec fn probed_size(exists: bool, measured: Option<u64>) -> u64 {
    match measured {
        Some(size) => if exists {
            size
        } else {
            0
        },
        None => 0,
    }
}

impl CacheInfo {
    /// A place after its probe: `exists` says whether anything is there,
    /// `measured` what it takes, `None` where it could not be measured.
    pub fn new(
        name: &str,
        path: PathBuf,
        description: &str,
        exists: bool,
        measured: Option<u64>,
    ) -> (info: CacheInfo)
        ensures
            info.name@ == name@,
            info.path == path,
            info.description@ == description@,
            info.exists == exists,
            info.size == probed_size(exists, measured),
    {
        let size = match measured {
            Some(size) => if exists {
                size
            } else {
                0
            },
            None => 0,
        };
        CacheInfo {
            name: String::from_str(name),
            path,
            size,
            exists,
            description: String::from_str(description),
        }
    }
}

/// Whether a probed place is worth listing: it exists and holds something.
pub open spec fn worth_listing(cache: CacheInfo) -> bool {
    cache.exists && cache.size > 0
}

/// `sorted` with `cache` put in behind every place that is at least as
/// large.
pub open spec fn placed(sorted: Seq<CacheInfo>, cache: CacheInfo) -> Seq<CacheInfo>
    decreases sorted.len(),
{
    if sorted.len() == 0 || sorted.last().size >= cache.size {
        sorted.push(cache)
    } else {
        placed(sorted.drop_last(), cache).push(sorted.last())
    }
}

/// The places by size, the largest first; places of one size keep the
/// order they came in.
pub open spec fn largest_first(caches: Seq<CacheInfo>) -> Seq<CacheInfo>
    decreases caches.len(),
{
    if caches.len() == 0 {
        caches
    } else {
        placed(largest_first(caches.drop_last()), caches.last())
    }
}

/// Whether no place in `caches` is larger than one before it.
pub open spec fn descending(caches: Seq<CacheInfo>) -> bool {
    forall|i: int, j: int| 0 <= i <= j < caches.len() ==> caches[i].size >= caches[j].size
}

/// Putting a place in adds one place, and no place of the result is
/// smaller than a bound that held before.
proof fn lemma_placed_bound(sorted: Seq<CacheInfo>, cache: CacheInfo, bound: u64)
    requires
        cache.size >= bound,
        forall|k: int| 0 <= k < sorted.len() ==> sorted[k].size >= bound,
    ensures
        placed(sorted, cache).len() == sorted.len() + 1,
        forall|k: int| 0 <= k < sorted.len() + 1 ==> placed(sorted, cache)[k].size >= bound,
    decreases sorted.len(),
{
    if sorted.len() == 0 || sorted.last().size >= cache.size {
    } else {
        lemma_placed_bound(sorted.drop_last(), cache, bound);
    }
}

/// Putting a place into a descending list keeps it descending and adds
/// exactly that place.
pub proof fn lemma_placed(sorted: Seq<CacheInfo>, cache: CacheInfo)
    requires
        descending(sorted),
    ensures
        descending(placed(sorted, cache)),
        placed(sorted, cache).to_multiset() == sorted.to_multiset().insert(cache),
        placed(sorted, cache).len() == sorted.len() + 1,
    decreases sorted.len(),
{
    broadcast use vstd::seq_lib::group_to_multiset_ensures;

    if sorted.len() == 0 || sorted.last().size >= cache.size {
    } else {
        let front = sorted.drop_last();
        let last = sorted.last();
        lemma_placed(front, cache);
        lemma_placed_bound(front, cache, last.size);
        assert(sorted =~= front.push(last));
    }
}

/// Sorting by size gives a descending list of the same places.
pub proof fn lemma_largest_first(caches: Seq<CacheInfo>)
    ensures
        descending(largest_first(caches)),
        largest_first(caches).to_multiset() == caches.to_multiset(),
        largest_first(caches).len() == caches.len(),
    decreases caches.len(),
{
    broadcast use vstd::seq_lib::group_to_multiset_ensures;

    if caches.len() > 0 {
        lemma_largest_first(caches.drop_last());
        lemma_placed(largest_first(caches.drop_last()), caches.last());
        assert(caches =~= caches.drop_last().push(caches.last()));
    }
}

/// The probed places that are worth listing, in the order they came in.
pub open spec fn listed(probed: Seq<CacheInfo>) -> Seq<CacheInfo> {
    probed.filter(|cache: CacheInfo| worth_listing(cache))
}

/// Putting a place in is an insertion right behind the last place that is
/// at least as large.
proof fn lemma_placed_at(sorted: Seq<CacheInfo>, cache: CacheInfo, at: int)
    requires
        0 <= at <= sorted.len(),
        at > 0 ==> sorted[at - 1].size >= cache.size,
        forall|k: int| at <= k < sorted.len() ==> sorted[k].size < cache.size,
    ensures
        placed(sorted, cache) == sorted.insert(at, cache),
    decreases sorted.len(),
{
    if at == sorted.len() {
        assert(sorted.push(cache) =~= sorted.insert(at, cache));
    } else {
        lemma_placed_at(sorted.drop_last(), cache, at);
        assert(sorted.drop_last().insert(at, cache).push(sorted.last()) =~= sorted.insert(
            at,
            cache,
        ));
    }
}

/// Putting a place worth listing among such places leaves only such places.
proof fn lemma_placed_worth_listing(sorted: Seq<CacheInfo>, cache: CacheInfo)
    requires
        worth_listing(cache),
        forall|k: int| 0 <= k < sorted.len() ==> worth_listing(#[trigger] sorted[k]),
    ensures
        placed(sorted, cache).len() == sorted.len() + 1,
        forall|k: int|
            0 <= k < sorted.len() + 1 ==> worth_listing(#[trigger] placed(sorted, cache)[k]),
    decreases sorted.len(),
{
    if sorted.len() == 0 || sorted.last().size >= cache.size {
    } else {
        lemma_placed_worth_listing(sorted.drop_last(), cache);
    }
}

/// Puts `cache` into the descending list `found`.
fn place(found: &mut Vec<CacheInfo>, cache: CacheInfo)
    ensures
        final(found)@ == placed(old(found)@, cache),
{
    let mut at = found.len();
    while at > 0 && found[at - 1].size < cache.size
        invariant
            at <= found.len(),
            found@ == old(found)@,
            forall|k: int| at <= k < found.len() ==> found[k].size < cache.size,
        decreases at,
    {
        at = at - 1;
    }
    proof {
        lemma_placed_at(found@, cache, at as int);
    }
    found.insert(at, cache);
}

/// The caches to show: of the probed places those that exist and hold
/// something, the largest first; places of one size keep the order they
/// were probed in.
pub fn discover_caches(probed: Vec<CacheInfo>) -> (found: Vec<CacheInfo>)
    ensures
        found@ == largest_first(listed(probed@)),
        descending(found@),
        found@.to_multiset() == listed(probed@).to_multiset(),
        forall|i: int| 0 <= i < found.len() ==> worth_listing(#[trigger] found[i]),
{
    let mut rest = probed;
    let mut found: Vec<CacheInfo> = Vec::new();
    let ghost mut done: int = 0;
    proof {
        reveal(Seq::filter);
        assert(probed@.take(0) =~= Seq::empty());
        assert(probed@.skip(0) =~= probed@);
    }
    while rest.len() > 0
        invariant
            0 <= done <= probed.len(),
            rest@ == probed@.skip(done),
            found@ == largest_first(listed(probed@.take(done))),
            forall|i: int| 0 <= i < found.len() ==> worth_listing(#[trigger] found[i]),
        decreases rest.len(),
    {
        let cache = rest.remove(0);
        proof {
            reveal(Seq::filter);
            assert(probed@.take(done + 1).drop_last() =~= probed@.take(done));
            assert(probed@.take(done + 1).last() == cache);
            assert(rest@ =~= probed@.skip(done + 1));
            done = done + 1;
        }
        if cache.exists && cache.size > 0 {
            let ghost before = found@;
            proof {
                lemma_largest_first(listed(probed@.take(done - 1)));
                lemma_placed_worth_listing(before, cache);
                assert(listed(probed@.take(done)).drop_last() =~= listed(
                    probed@.take(done - 1),
                ));
            }
            place(&mut found, cache);
        }
    }
    proof {
        assert(probed@.take(done) =~= probed@);
        lemma_largest_first(listed(probed@));
    }
    found
}

/// What a probe finds at a path.
#[derive(Clone, Copy, Debug, PartialEq, Eq, Structural)]
pub enum PathKind {
    Directory,
    File,
    /// Something that is neither file nor directory.
    Other,
    /// Nothing at all.
    Missing,
}

/// How a path is emptied.
#[derive(Clone, Copy, Debug, PartialEq, Eq, Structural)]
pub enum PurgeStep {
    /// Leave the file system as it is.
    Nothing,
    /// Delete the one file.
    RemoveFile,
    /// Delete the directory with all below it.
    RemoveTree,
    /// Delete what the directory holds, entry by entry, and keep the
    /// directory itself.
    RemoveContents,
    /// Delete the directory with all below it, then make it anew, empty;
    /// it is no failure if that cannot be done.
    RemoveAndRecreate,
}

/// What purging a cache comes to: the step to take, and the bytes counted
/// as freed once the step has succeeded.
#[derive(Clone, Copy, Debug, PartialEq, Eq, Structural)]
pub struct CachePurge {
    pub step: PurgeStep,
    pub freed: u64,
}

/// Whether a cache is the one whose directory must outlive its purge.
pub open spec fn is_protected_root(name: Seq<char>) -> bool {
    name == "Trash"@
}

/// What purging `cache` comes to when `found` is what lies at its path.
/// A cache that did not exist when it was probed, or of which nothing is
/// left by now, is left alone and frees nothing. Any other frees the size it
/// was measured with: a directory is emptied, a file deleted, and what is
/// neither of the two is left alone.
pub open spec fn purge_of(cache: CacheInfo, found: PathKind) -> CachePurge {
    if !cache.exists || found == PathKind::Missing {
        CachePurge { step: PurgeStep::Nothing, freed: 0 }
    } else {
        CachePurge {
            step: match found {
                PathKind::Directory => if is_protected_root(cache.name@) {
                    PurgeStep::RemoveContents
                } else {
                    PurgeStep::RemoveAndRecreate
                },
                PathKind::File => PurgeStep::RemoveFile,
                _ => PurgeStep::Nothing,
            },
            freed: cache.size,
        }
    }
}

/// Purging what is gone changes nothing and frees nothing, so that a purge
/// can be run again.
pub proof fn lemma_purge_of_missing(cache: CacheInfo, found: PathKind)
    requires
        !cache.exists || found == PathKind::Missing,
    ensures
        purge_of(cache, found) == (CachePurge { step: PurgeStep::Nothing, freed: 0 }),
{
}

/// How one entry of the protected directory is removed.
pub open spec fn entry_step_of(found: PathKind) -> PurgeStep {
    match found {
        PathKind::Directory => PurgeStep::RemoveTree,
        _ => PurgeStep::RemoveFile,
    }
}

/// What purging `cache` comes to when `found` is what lies at its path.
pub fn purge_cache(cache: &CacheInfo, found: PathKind) -> (purge: CachePurge)
    ensures
        purge == purge_of(*cache, found),
{
    if !cache.exists {
        return CachePurge { step: PurgeStep::Nothing, freed: 0 };
    }
    let step = match found {
        PathKind::Directory => if same_text(cache.name.as_str(), "Trash") {
            PurgeStep::RemoveContents
        } else {
            PurgeStep::RemoveAndRecreate
        },
        PathKind::File => PurgeStep::RemoveFile,
        PathKind::Other => PurgeStep::Nothing,
        PathKind::Missing => {
            return CachePurge { step: PurgeStep::Nothing, freed: 0 };
        },
    };
    CachePurge { step, freed: cache.size }
}

/// How one entry of the protected directory is removed.
pub fn purge_entry(found: PathKind) -> (step: PurgeStep)
    ensures
        step == entry_step_of(found),
{
    match found {
        PathKind::Directory => PurgeStep::RemoveTree,
        _ => PurgeStep::RemoveFile,
    }
}

/// What a walk found below a path.
#[derive(Debug)]
pub enum FileTree {
    /// A file and its length; `None` where the length could not be read.
    File(Option<u64>),
    /// A directory and its entries; `None` where they could not be read.
    Directory(Option<Vec<FileTree>>),
    /// Neither of the two.
    Other,
}

/// What an entry adds to the size of its directory: its own size, and
/// nothing where that could not be found out.
pub open spec fn entry_size(entry: FileTree) -> nat
    decreases entry, 1nat,
{
    match tree_size(entry) {
        Some(size) => size,
        None => 0,
    }
}

/// Sum of what the first `count` entries add.
pub open spec fn entries_size(entries: Seq<FileTree>, count: nat) -> nat
    decreases entries, count,
{
    if count == 0 || count > entries.len() {
        0
    } else {
        entries_size(entries, (count - 1) as nat) + entry_size(entries[count - 1])
    }
}

/// The size of a tree: the length of a file, the sum of what its entries
/// add for a directory, zero for anything else. `None` where the file's
/// length or the directory's entries could not be read.
pub open spec fn tree_size(tree: FileTree) -> Option<nat>
    decreases tree, 0nat,
{
    match tree {
        FileTree::File(Some(len)) => Some(len as nat),
        FileTree::File(None) => None,
        FileTree::Directory(Some(entries)) => Some(entries_size(entries@, entries@.len())),
        FileTree::Directory(None) => None,
        FileTree::Other => Some(0),
    }
}

/// The sum over fewer entries is no larger.
pub proof fn lemma_entries_size_monotonic(entries: Seq<FileTree>, fewer: nat, more: nat)
    requires
        fewer <= more <= entries.len(),
    ensures
        entries_size(entries, fewer) <= entries_size(entries, more),
    decreases more,
{
    if fewer < more {
        lemma_entries_size_monotonic(entries, fewer, (more - 1) as nat);
    }
}

/// Whether the size of a tree can be held in a `u64`.
pub open spec fn size_fits(tree: FileTree) -> bool {
    tree_size(tree) matches Some(size) ==> size <= u64::MAX
}

/// One more than the largest size that can be held.
pub const TOO_LARGE: u128 = 0x1_0000_0000_0000_0000u128;

/// The smaller of a size and the bound beyond which it cannot be held.
pub open spec fn held_size(size: nat) -> nat {
    if size <= TOO_LARGE {
        size
    } else {
        TOO_LARGE as nat
    }
}

/// The size of a tree, held at the bound.
fn bounded_size(tree: &FileTree) -> (size: Option<u128>)
    ensures
        match size {
            Some(bytes) => tree_size(*tree) is Some && bytes == held_size(tree_size(*tree)->0),
            None => tree_size(*tree) is None,
        },
    decreases tree,
{
    match tree {
        FileTree::File(Some(len)) => Some(*len as u128),
        FileTree::File(None) => None,
        FileTree::Directory(None) => None,
        FileTree::Directory(Some(entries)) => {
            let mut total: u128 = 0;
            let mut i: usize = 0;
            while i < entries.len()
                invariant
                    i <= entries.len(),
                    total == held_size(entries_size(entries@, i as nat)),
                    *tree == FileTree::Directory(Some(*entries)),
                decreases entries.len() - i,
            {
                proof {
                    assert(entries_size(entries@, (i + 1) as nat) == entries_size(
                        entries@,
                        i as nat,
                    ) + entry_size(entries@[i as int]));
                    assert(decreases_to!(*tree => tree->Directory_0));
                    assert(decreases_to!(tree->Directory_0 => tree->Directory_0->0));
                    assert(decreases_to!(*entries => entries[i as int]));
                }
                let added = match bounded_size(&entries[i]) {
                    Some(bytes) => bytes,
                    None => 0,
                };
                total = if total + added > TOO_LARGE {
                    TOO_LARGE
                } else {
                    total + added
                };
                i = i + 1;
            }
            Some(total)
        },
        FileTree::Other => Some(0),
    }
}

/// Whether the size of a tree can be held in a `u64`.
pub fn can_measure(tree: &FileTree) -> (fits: bool)
    ensures
        fits == size_fits(*tree),
{
    match bounded_size(tree) {
        Some(bytes) => bytes < TOO_LARGE,
        None => true,
    }
}

/// The size of what a walk found: the length of a file, and for a
/// directory the lengths of all files below it, where an entry that could
/// not be sized counts for nothing. `None` where the file or directory at
/// the top could not be read.
pub fn dir_size(tree: &FileTree) -> (size: Option<u64>)
    requires
        size_fits(*tree),
    ensures
        match size {
            Some(bytes) => tree_size(*tree) == Some(bytes as nat),
            None => tree_size(*tree) is None,
        },
    decreases tree,
{
    match tree {
        FileTree::File(len) => *len,
        FileTree::Directory(None) => None,
        FileTree::Directory(Some(entries)) => {
            let mut total: u64 = 0;
            let mut i: usize = 0;
            while i < entries.len()
                invariant
                    i <= entries.len(),
                    total == entries_size(entries@, i as nat),
                    entries_size(entries@, entries@.len()) <= u64::MAX,
                    *tree == FileTree::Directory(Some(*entries)),
                decreases entries.len() - i,
            {
                proof {
                    lemma_entries_size_monotonic(entries@, (i + 1) as nat, entries@.len());
                    assert(entries_size(entries@, (i + 1) as nat) == entries_size(
                        entries@,
                        i as nat,
                    ) + entry_size(entries@[i as int]));
                    assert(decreases_to!(*tree => tree->Directory_0));
                    assert(decreases_to!(tree->Directory_0 => tree->Directory_0->0));
                    assert(decreases_to!(*entries => entries[i as int]));
                }
                let added = match dir_size(&entries[i]) {
                    Some(bytes) => bytes,
                    None => 0,
                };
                total = total + added;
                i = i + 1;
            }
            Some(total)
        },
        FileTree::Other => Some(0),
    }
}

/// Calls `dirs::home_dir`, which asks the environment for the user's home
/// directory. Nothing is claimed of the result.
#[verifier::external_body]
pub fn get_home_dir() -> Option<PathBuf> {
    dirs::home_dir()
}

/// Sum of the sizes that the caches were measured with.
pub open spec fn total_size_of(caches: Seq<CacheInfo>) -> nat
    decreases caches.len(),
{
    if caches.len() == 0 {
        0
    } else {
        total_size_of(caches.drop_last()) + caches.last().size as nat
    }
}

/// The sum over the first caches is no larger than the sum over all.
pub proof fn lemma_total_size_prefix(caches: Seq<CacheInfo>, count: int)
    requires
        0 <= count <= caches.len(),
    ensures
        total_size_of(caches.take(count)) <= total_size_of(caches),
    decreases caches.len() - count,
{
    if count < caches.len() {
        lemma_total_size_prefix(caches, count + 1);
        assert(caches.take(count + 1).drop_last() =~= caches.take(count));
    } else {
        assert(caches.take(count) =~= caches);
    }
}

/// Whether the sum of the caches' sizes can be held in a `u64`.
pub fn sizes_fit(caches: &Vec<CacheInfo>) -> (fit: bool)
    ensures
        fit == (total_size_of(caches@) <= u64::MAX),
{
    let mut total: u128 = 0;
    let mut i: usize = 0;
    assert(caches@.take(0) =~= Seq::empty());
    while i < caches.len()
        invariant
            i <= caches.len(),
            total == held_size(total_size_of(caches@.take(i as int))),
        decreases caches.len() - i,
    {
        proof {
            assert(caches@.take(i + 1).drop_last() =~= caches@.take(i as int));
        }
        total = if total + caches[i].size as u128 > TOO_LARGE {
            TOO_LARGE
        } else {
            total + caches[i].size as u128
        };
        i = i + 1;
    }
    assert(caches@.take(i as int) =~= caches@);
    total < TOO_LARGE
}

/// Bytes that purging all of the caches would free.
pub fn total_cache_size(caches: &Vec<CacheInfo>) -> (total: u64)
    requires
        total_size_of(caches@) <= u64::MAX,
    ensures
        total == total_size_of(caches@),
{
    let mut total: u64 = 0;
    let mut i: usize = 0;
    assert(caches@.take(0) =~= Seq::empty());
    while i < caches.len()
        invariant
            i <= caches.len(),
            total == total_size_of(caches@.take(i as int)),
            total_size_of(caches@) <= u64::MAX,
        decreases caches.len() - i,
    {
        proof {
            lemma_total_size_prefix(caches@, i + 1);
            assert(caches@.take(i + 1).drop_last() =~= caches@.take(i as int));
        }
        total = total + caches[i].size;
        i = i + 1;
    }
    assert(caches@.take(i as int) =~= caches@);
    total
}

/// The menu line of a cache: its name, and its size in parentheses.
pub open spec fn cache_label_text(cache: CacheInfo) -> Seq<char> {
    cache.name@ + " ("@ + byte_size_text(cache.size) + ")"@
}

/// The menu line of a cache.
pub fn cache_label(cache: &CacheInfo) -> (label: String)
    ensures
        label@ == cache_label_text(*cache),
{
    let mut label = String::from_str(cache.name.as_str());
    label.append(" (");
    let size = format_bytes(cache.size);
    label.append(size.as_str());
    label.append(")");
    label
}

/// How the caches to purge are chosen.
#[derive(Clone, Copy, Debug, PartialEq, Eq, Structural)]
pub enum Choice {
    /// Every cache, without a question.
    All,
    /// Every cache, once the operator has agreed.
    AllIfConfirmed,
    /// Those that the operator picks from the menu.
    Picked,
}

/// How the caches to purge are chosen: from the menu in an interactive run
/// that is not forced; all of them otherwise, after a question unless the
/// run is forced or changes nothing anyway.
pub open spec fn choice_for(force: bool, dry_run: bool, interactive: bool) -> Choice {
    if interactive {
        if force {
            Choice::All
        } else {
            Choice::Picked
        }
    } else if !force && !dry_run {
        Choice::AllIfConfirmed
    } else {
        Choice::All
    }
}

/// How the caches to purge are chosen.
pub fn choice(force: bool, dry_run: bool, interactive: bool) -> (chosen: Choice)
    ensures
        chosen == choice_for(force, dry_run, interactive),
{
    if interactive {
        if force {
            Choice::All
        } else {
            Choice::Picked
        }
    } else if !force && !dry_run {
        Choice::AllIfConfirmed
    } else {
        Choice::All
    }
}

/// The running account of a purge of caches.
#[derive(Clone, Copy, Debug, PartialEq, Eq, Structural)]
pub struct PurgeTally {
    /// Bytes counted as freed.
    pub freed: u64,
    /// Caches that were cleared.
    pub cleared: usize,
    /// Caches that could not be cleared.
    pub failed: usize,
}

impl PurgeTally {
    /// The account after one more cache: its bytes count as freed where it
    /// was cleared; a failure is counted and frees nothing.
    pub open spec fn with(self, purge: CachePurge, succeeded: bool) -> PurgeTally {
        if succeeded {
            PurgeTally {
                freed: (self.freed + purge.freed) as u64,
                cleared: (self.cleared + 1) as usize,
                failed: self.failed,
            }
        } else {
            PurgeTally { freed: self.freed, cleared: self.cleared, failed: (self.failed + 1) as usize }
        }
    }

    /// The account before any cache was purged.
    pub fn new() -> (tally: PurgeTally)
        ensures
            tally == (PurgeTally { freed: 0, cleared: 0, failed: 0 }),
    {
        PurgeTally { freed: 0, cleared: 0, failed: 0 }
    }

    /// Whether one more cache can be taken into the account without a
    /// figure going beyond what it can hold.
    pub fn can_record(&self, purge: CachePurge) -> (fits: bool)
        ensures
            fits == (self.freed + purge.freed <= u64::MAX && self.cleared + self.failed
                < usize::MAX),
    {
        self.freed as u128 + purge.freed as u128 <= u64::MAX as u128 && self.cleared as u128
            + (self.failed as u128) < usize::MAX as u128
    }

    /// Takes one purged cache into the account.
    pub fn record(self, purge: CachePurge, succeeded: bool) -> (tally: PurgeTally)
        requires
            self.freed + purge.freed <= u64::MAX,
            self.cleared + self.failed < usize::MAX,
        ensures
            tally == self.with(purge, succeeded),
    {
        if succeeded {
            PurgeTally {
                freed: self.freed + purge.freed,
                cleared: self.cleared + 1,
                failed: self.failed,
            }
        } else {
            PurgeTally { freed: self.freed, cleared: self.cleared, failed: self.failed + 1 }
        }
    }
}

} // verus!
