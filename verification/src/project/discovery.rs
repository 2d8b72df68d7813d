//! Discovery of Xcode projects below a set of roots.
//!
//! A [`Discovery`] decides which directories are to be read and what their
//! entries mean; reading them is left to its caller. The walk goes no deeper
//! than its limit, never looks inside an Xcode package, and leaves out hidden
//! directories and common directories of generated and foreign code.
use vstd::prelude::*;

use crate::order;
use crate::order::{insert_ranked, insert_ranked_set, sort_ranked, Ranked};
use crate::path;
use crate::path::{path_before, paths_equal};
use crate::project::{ContainerView, ProjectId, XcodeContainer, XcodeProject};
use crate::text;
use crate::text::{chars_of, eq_ignore_ascii_case, same_text, text_before};

verus! {

// ---------------------------------------------------------------------------
// Names
// ---------------------------------------------------------------------------

/// The directories of generated and foreign code.
pub open spec fn skipped_name(name: Seq<char>) -> bool {
    ||| name == ".git"@
    ||| name == "DerivedData"@
    ||| name == ".build"@
    ||| name == "build"@
    ||| name == "Pods"@
    ||| name == "Carthage"@
    ||| name == "node_modules"@
}

/// Whether a directory of this name is left out.
pub fn should_skip_directory(name: &str) -> (r: bool)
    ensures
        r == skipped_name(name@),
{
    same_text(name, ".git") || same_text(name, "DerivedData") || same_text(name, ".build")
        || same_text(name, "build") || same_text(name, "Pods") || same_text(name, "Carthage")
        || same_text(name, "node_modules")
}

/// Whether a name is that of a hidden entry.
pub open spec fn hidden_name(name: Option<Seq<char>>) -> bool {
    name matches Some(n) && n.len() > 0 && n[0] == '.'
}

/// Whether a name is that of a hidden entry.
pub fn is_hidden_path_component(name: Option<&str>) -> (r: bool)
    ensures
        r == hidden_name(
            match name {
                Some(n) => Some(n@),
                None => None,
            },
        ),
{
    match name {
        Some(n) => {
            let chars = chars_of(n);
            chars.len() > 0 && chars[0] == '.'
        },
        None => false,
    }
}

/// Whether a path has an extension, when ASCII case is disregarded.
pub open spec fn has_extension(p: Seq<char>, wanted: Seq<char>) -> bool {
    path::extension_of(p) matches Some(e) && text::same_ignoring_case(e, wanted)
}

fn extension_is(p: &str, wanted: &str) -> (r: bool)
    ensures
        r == has_extension(p@, wanted@),
{
    match path::extension(p) {
        Some(e) => eq_ignore_ascii_case(e.as_str(), wanted),
        None => false,
    }
}

/// A path that ends in neither a separator nor a `.` component has an extension
/// exactly when it ends in a dot and that extension and the dot does not start the
/// file name.
pub proof fn extensions_are_endings(p: Seq<char>, wanted: Seq<char>)
    requires
        wanted.len() > 0,
        forall|j: int| 0 <= j < wanted.len() ==> wanted[j] != '.' && wanted[j] != '/',
        p.len() > 0 ==> p.last() != '/',
        p.len() > 1 && p.last() == '.' ==> p[p.len() - 2] != '/',
    ensures
        has_extension(p, wanted) <==> {
            let dot = p.len() - wanted.len() - 1;
            &&& text::ends_in(p, "."@ + wanted)
            &&& dot > 0
            &&& p[dot - 1] != '/'
        },
{
    reveal_strlit(".");
    let ending = "."@ + wanted;
    let dot = p.len() - wanted.len() - 1;
    assert(path::clean_end(p) == p);
    text::last_index_meaning(p, '/');
    let name = text::after_last(p, '/');
    text::last_index_meaning(name, '.');
    if has_extension(p, wanted) {
        let i = text::last_index(name, '.')->0;
        let e = name.skip(i + 1);
        assert(text::lowered(e) == text::lowered(wanted));
        assert(text::lowered(e).len() == e.len());
        assert(text::lowered(wanted).len() == wanted.len());
        assert(p.skip(dot) =~= name.skip(i));
        assert(p.skip(dot) =~= seq!['.'] + e);
        assert(text::lowered(p.skip(dot)) =~= text::lowered(ending)) by {
            assert forall|k: int| 0 <= k < ending.len() implies text::lowered(p.skip(dot))[k]
                == text::lowered(ending)[k] by {
                if k > 0 {
                    assert(text::lowered(e)[k - 1] == text::lowered(wanted)[k - 1]);
                }
            }
        }
        assert(p[dot - 1] == name[i - 1]);
    }
    if text::ends_in(p, ending) && dot > 0 && p[dot - 1] != '/' {
        let tail = p.skip(dot);
        assert forall|k: int| 0 <= k < ending.len() implies text::lower_char(#[trigger] tail[k])
            == text::lower_char(ending[k]) by {
            assert(text::lowered(tail)[k] == text::lowered(ending)[k]);
        }
        assert(tail[0] == '.');
        assert forall|k: int| 1 <= k < ending.len() implies tail[k] != '.' && tail[k] != '/' by {
            assert(ending[k] == wanted[k - 1]);
        }
        assert forall|k: int| dot <= k < p.len() implies p[k] == tail[k - dot] by {}
        let start = p.len() - name.len();
        assert(start < dot);
        assert forall|k: int| 0 <= k < name.len() implies name[k] == p[start + k] by {}
        assert(name.len() > 2);
        let i = dot - start;
        assert(name[i] == '.');
        assert(text::last_index(name, '.') == Some(i));
        assert(name.skip(i + 1) =~= p.skip(dot + 1));
        assert(text::lowered(name.skip(i + 1)) =~= text::lowered(wanted)) by {
            assert forall|k: int| 0 <= k < wanted.len() implies text::lowered(name.skip(i + 1))[k]
                == text::lowered(wanted)[k] by {
                assert(name.skip(i + 1)[k] == tail[k + 1]);
            }
        }
    }
}

/// Whether a path is that of an Xcode container.
pub open spec fn container_path(p: Seq<char>) -> bool {
    has_extension(p, "xcworkspace"@) || has_extension(p, "xcodeproj"@)
}

/// Whether a path is that of an Xcode container.
pub fn is_xcode_container(p: &str) -> (r: bool)
    ensures
        r == container_path(p@),
{
    extension_is(p, "xcworkspace") || extension_is(p, "xcodeproj")
}

/// The container at a path: a workspace by its extension, a project otherwise.
pub open spec fn container_at(p: Seq<char>) -> ContainerView {
    ContainerView { workspace: has_extension(p, "xcworkspace"@), path: p }
}

fn container_from_path(p: &str) -> (r: XcodeContainer)
    ensures
        r@ == container_at(p@),
{
    if extension_is(p, "xcworkspace") {
        XcodeContainer::Workspace(p.to_owned())
    } else {
        XcodeContainer::Project(p.to_owned())
    }
}

// ---------------------------------------------------------------------------
// Groups
// ---------------------------------------------------------------------------

/// The containers found in one directory.
#[derive(Debug, PartialEq, Eq)]
pub struct ContainerGroup {
    directory: String,
    containers: Vec<XcodeContainer>,
}

/// The content of a [`ContainerGroup`].
#[verifier::ext_equal]
pub struct GroupView {
    pub directory: Seq<char>,
    pub containers: Seq<ContainerView>,
}

impl View for ContainerGroup {
    type V = GroupView;

    closed spec fn view(&self) -> GroupView {
        GroupView { directory: self.directory@, containers: order::views(self.containers@) }
    }
}

impl Ranked for ContainerGroup {
    /// Groups are ordered by directory.
    open spec fn before(a: GroupView, b: GroupView) -> bool {
        path::path_lt(a.directory, b.directory)
    }

    fn is_before(&self, other: &Self) -> (r: bool) {
        path_before(self.directory.as_str(), other.directory.as_str())
    }

    proof fn asymmetric(a: GroupView, b: GroupView) {
        path::path_order_is_asymmetric(a.directory, b.directory);
    }

    proof fn transitive(a: GroupView, b: GroupView, c: GroupView) {
        path::path_order_is_weak(a.directory, b.directory, c.directory);
    }
}

/// The position of the group of a directory.
pub open spec fn group_of(groups: Seq<GroupView>, directory: Seq<char>) -> Option<int> {
    order::first_where(groups, |g: GroupView| path::same_path(g.directory, directory))
}

/// The groups with one more container in the group of its directory.
pub open spec fn with_container(groups: Seq<GroupView>, p: Seq<char>) -> Seq<GroupView> {
    match path::parent_of(p) {
        None => groups,
        Some(directory) => match group_of(groups, directory) {
            Some(i) => groups.update(
                i,
                GroupView {
                    directory: groups[i].directory,
                    containers: order::ranked_set_insert::<XcodeContainer>(
                        groups[i].containers,
                        container_at(p),
                    ),
                },
            ),
            None => order::ranked_insert::<ContainerGroup>(
                groups,
                GroupView { directory, containers: seq![container_at(p)] },
            ),
        },
    }
}

fn find_group(groups: &Vec<ContainerGroup>, directory: &str) -> (r: Option<usize>)
    ensures
        match r {
            Some(i) => i < groups@.len() && group_of(order::views(groups@), directory@) == Some(
                i as int,
            ),
            None => group_of(order::views(groups@), directory@) is None,
        },
{
    let ghost all = order::views(groups@);
    let ghost wanted = directory@;
    let ghost p = |g: GroupView| path::same_path(g.directory, wanted);
    proof {
        order::first_where_meaning(all, p);
    }
    let mut i: usize = 0;
    while i < groups.len()
        invariant
            i <= groups@.len(),
            all == order::views(groups@),
            wanted == directory@,
            p == (|g: GroupView| path::same_path(g.directory, wanted)),
            forall|j: int| 0 <= j < i ==> !p(#[trigger] all[j]),
            match order::first_where(all, p) {
                Some(k) => 0 <= k < all.len() && p(all[k]) && forall|j: int|
                    0 <= j < k ==> !p(all[j]),
                None => forall|j: int| 0 <= j < all.len() ==> !p(all[j]),
            },
        decreases groups@.len() - i,
    {
        assert(all[i as int].directory == groups@[i as int].directory@);
        if paths_equal(groups[i].directory.as_str(), directory) {
            assert(p(all[i as int]));
            return Some(i);
        }
        assert(!p(all[i as int]));
        i = i + 1;
    }
    None
}

fn add_container(groups: &mut Vec<ContainerGroup>, p: &str)
    ensures
        order::views(final(groups)@) == with_container(order::views(old(groups)@), p@),
{
    let directory = match path::parent(p) {
        Some(directory) => directory,
        None => {
            return;
        },
    };
    let ghost before = order::views(groups@);
    match find_group(groups, directory.as_str()) {
        Some(i) => {
            let mut group = groups.remove(i);
            assert(before[i as int] == group@);
            let ghost held = order::views(group.containers@);
            insert_ranked_set(&mut group.containers, container_from_path(p));
            let ghost changed = group@;
            groups.insert(i, group);
            assert(order::views(groups@) =~= before.update(i as int, changed));
        },
        None => {
            let mut containers: Vec<XcodeContainer> = Vec::new();
            containers.push(container_from_path(p));
            assert(order::views(containers@) =~= seq![container_at(p@)]);
            insert_ranked(groups, ContainerGroup { directory, containers });
        },
    }
}

// ---------------------------------------------------------------------------
// The walk
// ---------------------------------------------------------------------------

/// A root to search: its canonical path, and whether a directory is there.
#[derive(Debug, PartialEq, Eq)]
pub struct Root {
    pub path: String,
    pub is_dir: bool,
}

/// The content of a [`Root`].
#[verifier::ext_equal]
pub struct RootView {
    pub path: Seq<char>,
    pub is_dir: bool,
}

impl View for Root {
    type V = RootView;

    open spec fn view(&self) -> RootView {
        RootView { path: self.path@, is_dir: self.is_dir }
    }
}

impl Ranked for Root {
    /// Roots are ordered by path.
    open spec fn before(a: RootView, b: RootView) -> bool {
        path::path_lt(a.path, b.path)
    }

    fn is_before(&self, other: &Self) -> (r: bool) {
        path_before(self.path.as_str(), other.path.as_str())
    }

    proof fn asymmetric(a: RootView, b: RootView) {
        path::path_order_is_asymmetric(a.path, b.path);
    }

    proof fn transitive(a: RootView, b: RootView, c: RootView) {
        path::path_order_is_weak(a.path, b.path, c.path);
    }
}

/// An entry of a directory: its name, whether it is a directory itself (and not
/// a link to one), and its canonical path when it has one.
#[derive(Debug, PartialEq, Eq)]
pub struct DirectoryEntry {
    pub name: String,
    pub is_dir: bool,
    pub canonical: Option<String>,
}

/// The content of a [`DirectoryEntry`].
#[verifier::ext_equal]
pub struct DirectoryEntryView {
    pub name: Seq<char>,
    pub is_dir: bool,
    pub canonical: Option<Seq<char>>,
}

impl View for DirectoryEntry {
    type V = DirectoryEntryView;

    open spec fn view(&self) -> DirectoryEntryView {
        DirectoryEntryView {
            name: self.name@,
            is_dir: self.is_dir,
            canonical: text::opt_text(self.canonical),
        }
    }
}

impl Ranked for DirectoryEntry {
    /// Entries are ordered by name.
    open spec fn before(a: DirectoryEntryView, b: DirectoryEntryView) -> bool {
        text::text_lt(a.name, b.name)
    }

    fn is_before(&self, other: &Self) -> (r: bool) {
        text_before(self.name.as_str(), other.name.as_str())
    }

    proof fn asymmetric(a: DirectoryEntryView, b: DirectoryEntryView) {
        text::text_lt_one_way(a.name, b.name);
    }

    proof fn transitive(a: DirectoryEntryView, b: DirectoryEntryView, c: DirectoryEntryView) {
        text::text_lt_total(a.name, b.name);
        text::text_lt_total(b.name, c.name);
        if text::text_lt(a.name, b.name) && text::text_lt(b.name, c.name) {
            text::text_lt_transitive(a.name, b.name, c.name);
        }
        text::text_lt_one_way(a.name, c.name);
    }
}

/// What reading a directory gave.
#[derive(Debug, PartialEq, Eq)]
pub enum Listing {
    /// The directory has no canonical path.
    Gone,
    /// The directory is there but could not be read.
    Unreadable { canonical: String },
    /// The entries of the directory.
    Read { canonical: String, entries: Vec<DirectoryEntry> },
}

/// A directory that waits to be read.
#[derive(Debug, PartialEq, Eq)]
struct Visit {
    root: usize,
    depth: usize,
    path: String,
}

/// The content of a waiting directory: the number of the root it was reached
/// from, the number of levels below that root, and its path.
#[verifier::ext_equal]
pub struct VisitView {
    pub root: int,
    pub depth: int,
    pub path: Seq<char>,
}

impl View for Visit {
    type V = VisitView;

    closed spec fn view(&self) -> VisitView {
        VisitView { root: self.root as int, depth: self.depth as int, path: self.path@ }
    }
}

/// A walk in progress.
#[derive(Debug)]
pub struct Discovery {
    max_depth: usize,
    waiting: Vec<Visit>,
    visited: Vec<Visit>,
    groups: Vec<ContainerGroup>,
}

/// The content of a [`Discovery`].
#[verifier::ext_equal]
pub struct DiscoveryView {
    /// The deepest level that is read.
    pub max_depth: int,
    /// The directories that wait to be read; the last is the next.
    pub waiting: Seq<VisitView>,
    /// The directories that were read.
    pub visited: Seq<VisitView>,
    /// The containers that were found.
    pub groups: Seq<GroupView>,
}

impl View for Discovery {
    type V = DiscoveryView;

    closed spec fn view(&self) -> DiscoveryView {
        DiscoveryView {
            max_depth: self.max_depth as int,
            waiting: order::views(self.waiting@),
            visited: order::views(self.visited@),
            groups: order::views(self.groups@),
        }
    }
}

/// The roots in order, each path once.
pub open spec fn distinct_roots(roots: Seq<RootView>) -> Seq<RootView>
    decreases roots.len(),
{
    if roots.len() == 0 {
        Seq::empty()
    } else {
        order::ranked_set_insert::<Root>(distinct_roots(roots.drop_last()), roots.last())
    }
}

/// Whether a root is walked through: it is a directory, but neither a container
/// nor hidden.
pub open spec fn walked_root(root: RootView) -> bool {
    !container_path(root.path) && root.is_dir && !hidden_name(path::file_name_of(root.path))
}

/// The containers among the roots, grouped.
pub open spec fn root_groups(roots: Seq<RootView>) -> Seq<GroupView>
    decreases roots.len(),
{
    if roots.len() == 0 {
        Seq::empty()
    } else {
        let rest = root_groups(roots.drop_last());
        if container_path(roots.last().path) {
            with_container(rest, roots.last().path)
        } else {
            rest
        }
    }
}

/// The roots from position `from` on that are walked through, the first on top.
pub open spec fn root_visits(roots: Seq<RootView>, from: int) -> Seq<VisitView>
    decreases roots.len() - from,
{
    if from < 0 || from >= roots.len() {
        Seq::empty()
    } else if walked_root(roots[from]) {
        root_visits(roots, from + 1).push(
            VisitView { root: from, depth: 0, path: roots[from].path },
        )
    } else {
        root_visits(roots, from + 1)
    }
}

/// Whether an entry is a directory to walk through.
pub open spec fn walked_entry(
    canonical: Seq<char>,
    entry: DirectoryEntryView,
    depth: int,
    max_depth: int,
) -> bool {
    &&& !hidden_name(Some(entry.name))
    &&& !container_path(path::joined(canonical, entry.name))
    &&& entry.is_dir
    &&& !skipped_name(entry.name)
    &&& depth < max_depth
}

/// Whether an entry is a container.
pub open spec fn container_entry(canonical: Seq<char>, entry: DirectoryEntryView) -> bool {
    &&& !hidden_name(Some(entry.name))
    &&& container_path(path::joined(canonical, entry.name))
    &&& entry.canonical is Some
}

/// The groups with the containers among the entries.
pub open spec fn entry_groups(
    groups: Seq<GroupView>,
    canonical: Seq<char>,
    entries: Seq<DirectoryEntryView>,
) -> Seq<GroupView>
    decreases entries.len(),
{
    if entries.len() == 0 {
        groups
    } else {
        let rest = entry_groups(groups, canonical, entries.drop_last());
        if container_entry(canonical, entries.last()) {
            with_container(rest, entries.last().canonical->0)
        } else {
            rest
        }
    }
}

/// The entries from position `from` on that are walked through, the first on
/// top.
pub open spec fn entry_visits(
    top: VisitView,
    canonical: Seq<char>,
    entries: Seq<DirectoryEntryView>,
    from: int,
    max_depth: int,
) -> Seq<VisitView>
    decreases entries.len() - from,
{
    if from < 0 || from >= entries.len() {
        Seq::empty()
    } else {
        let rest = entry_visits(top, canonical, entries, from + 1, max_depth);
        if walked_entry(canonical, entries[from], top.depth, max_depth) {
            rest.push(
                VisitView {
                    root: top.root,
                    depth: top.depth + 1,
                    path: path::joined(canonical, entries[from].name),
                },
            )
        } else {
            rest
        }
    }
}

/// Whether a directory was already read from the same root.
pub open spec fn seen(visited: Seq<VisitView>, root: int, canonical: Seq<char>) -> bool {
    exists|i: int|
        0 <= i < visited.len() && (#[trigger] visited[i]).root == root && path::same_path(
            visited[i].path,
            canonical,
        )
}

/// The canonical path that a listing reports.
pub open spec fn listed_path(listing: Listing) -> Option<Seq<char>> {
    match listing {
        Listing::Gone => None,
        Listing::Unreadable { canonical } => Some(canonical@),
        Listing::Read { canonical, .. } => Some(canonical@),
    }
}

impl DiscoveryView {
    /// The walk at its start.
    pub open spec fn start(roots: Seq<RootView>, max_depth: int) -> DiscoveryView {
        let distinct = distinct_roots(roots);
        DiscoveryView {
            max_depth,
            waiting: root_visits(distinct, 0),
            visited: Seq::empty(),
            groups: root_groups(distinct),
        }
    }

    /// The walk after the next directory was read.
    pub open spec fn after(self, listing: Listing) -> DiscoveryView {
        if self.waiting.len() == 0 {
            self
        } else {
            let top = self.waiting.last();
            let rest = DiscoveryView { waiting: self.waiting.drop_last(), ..self };
            match listed_path(listing) {
                None => rest,
                Some(canonical) => if seen(self.visited, top.root, canonical) {
                    rest
                } else {
                    let noted = DiscoveryView {
                        visited: self.visited.push(
                            VisitView { root: top.root, depth: top.depth, path: canonical },
                        ),
                        ..rest
                    };
                    match listing {
                        Listing::Read { entries, .. } => {
                            let sorted = order::ranked_sort::<DirectoryEntry>(
                                order::views(entries@),
                            );
                            DiscoveryView {
                                groups: entry_groups(self.groups, canonical, sorted),
                                waiting: rest.waiting + entry_visits(
                                    top,
                                    canonical,
                                    sorted,
                                    0,
                                    self.max_depth,
                                ),
                                ..noted
                            }
                        },
                        _ => noted,
                    }
                },
            }
        }
    }

    /// Whether no directory that waits or was read is deeper than the limit.
    pub open spec fn bounded(self) -> bool {
        &&& forall|i: int|
            0 <= i < self.waiting.len() ==> 0 <= (#[trigger] self.waiting[i]).depth
                <= self.max_depth
        &&& forall|i: int|
            0 <= i < self.visited.len() ==> 0 <= (#[trigger] self.visited[i]).depth
                <= self.max_depth
    }
}

proof fn entry_visits_are_one_level_down(
    top: VisitView,
    canonical: Seq<char>,
    entries: Seq<DirectoryEntryView>,
    from: int,
    max_depth: int,
)
    ensures
        forall|i: int|
            0 <= i < entry_visits(top, canonical, entries, from, max_depth).len() ==> (
            #[trigger] entry_visits(top, canonical, entries, from, max_depth)[i]).depth == top.depth
                + 1 && top.depth < max_depth,
    decreases entries.len() - from,
{
    if 0 <= from < entries.len() {
        entry_visits_are_one_level_down(top, canonical, entries, from + 1, max_depth);
        let rest = entry_visits(top, canonical, entries, from + 1, max_depth);
        let all = entry_visits(top, canonical, entries, from, max_depth);
        assert forall|i: int| 0 <= i < all.len() implies (#[trigger] all[i]).depth == top.depth + 1
            && top.depth < max_depth by {
            if i < rest.len() {
                assert(all[i] == rest[i]);
            }
        }
    }
}

proof fn root_visits_are_at_level_zero(roots: Seq<RootView>, from: int)
    ensures
        forall|i: int|
            0 <= i < root_visits(roots, from).len() ==> (#[trigger] root_visits(roots, from)[i]).depth
                == 0,
    decreases roots.len() - from,
{
    if 0 <= from < roots.len() {
        root_visits_are_at_level_zero(roots, from + 1);
        let rest = root_visits(roots, from + 1);
        let all = root_visits(roots, from);
        assert forall|i: int| 0 <= i < all.len() implies (#[trigger] all[i]).depth == 0 by {
            if i < rest.len() {
                assert(all[i] == rest[i]);
            }
        }
    }
}

/// A walk starts within its depth limit and never leaves it.
pub proof fn walks_are_bounded(
    roots: Seq<RootView>,
    max_depth: int,
    walk: DiscoveryView,
    listing: Listing,
)
    requires
        max_depth >= 0,
        walk.bounded(),
    ensures
        DiscoveryView::start(roots, max_depth).bounded(),
        walk.after(listing).bounded(),
{
    root_visits_are_at_level_zero(distinct_roots(roots), 0);
    if walk.waiting.len() > 0 {
        let top = walk.waiting.last();
        let next = walk.after(listing);
        if let Listing::Read { canonical, entries } = listing {
            let sorted = order::ranked_sort::<DirectoryEntry>(order::views(entries@));
            entry_visits_are_one_level_down(top, canonical@, sorted, 0, walk.max_depth);
            let rest = walk.waiting.drop_last();
            let more = entry_visits(top, canonical@, sorted, 0, walk.max_depth);
            assert forall|i: int| 0 <= i < next.waiting.len() implies 0 <= (
            #[trigger] next.waiting[i]).depth <= next.max_depth by {
                if i < rest.len() {
                    assert(next.waiting[i] == walk.waiting[i]);
                } else if next.waiting.len() > rest.len() {
                    assert(next.waiting[i] == more[i - rest.len()]);
                }
            }
        } else {
            assert forall|i: int| 0 <= i < next.waiting.len() implies 0 <= (
            #[trigger] next.waiting[i]).depth <= next.max_depth by {
                assert(next.waiting[i] == walk.waiting[i]);
            }
        }
        assert forall|i: int| 0 <= i < next.visited.len() implies 0 <= (
        #[trigger] next.visited[i]).depth <= next.max_depth by {
            if i < walk.visited.len() {
                assert(next.visited[i] == walk.visited[i]);
            }
        }
    }
}

/// Whether a container stands in a directory, and is what its extension says.
pub open spec fn stands_in(directory: Seq<char>, c: ContainerView) -> bool {
    &&& c == container_at(c.path)
    &&& path::parent_of(c.path) matches Some(parent) && path::same_path(parent, directory)
}

/// Whether a group holds containers of its directory, workspaces first.
pub open spec fn sound_group(group: GroupView) -> bool {
    &&& group.containers.len() > 0
    &&& order::in_order::<XcodeContainer>(group.containers)
    &&& forall|i: int|
        0 <= i < group.containers.len() ==> stands_in(
            group.directory,
            #[trigger] group.containers[i],
        )
}

/// Whether groups are ordered by directory, each directory once, and each holds
/// containers of its directory, workspaces first.
pub open spec fn well_grouped(groups: Seq<GroupView>) -> bool {
    &&& order::strictly_in_order::<ContainerGroup>(groups)
    &&& forall|i: int| 0 <= i < groups.len() ==> sound_group(#[trigger] groups[i])
}

proof fn adding_keeps_groups(groups: Seq<GroupView>, p: Seq<char>)
    requires
        well_grouped(groups),
    ensures
        well_grouped(with_container(groups, p)),
{
    if let Some(directory) = path::parent_of(p) {
        let after = with_container(groups, p);
        let wanted = |g: GroupView| path::same_path(g.directory, directory);
        order::first_where_meaning(groups, wanted);
        match group_of(groups, directory) {
            Some(k) => {
                let held = groups[k].containers;
                assert(wanted(groups[k]));
                assert(sound_group(groups[k]));
                order::insert_keeps_order::<XcodeContainer>(held, container_at(p));
                let changed = after[k].containers;
                assert forall|i: int| 0 <= i < changed.len() implies stands_in(
                    groups[k].directory,
                    #[trigger] changed[i],
                ) by {
                    if changed == held {
                        assert(stands_in(groups[k].directory, held[i]));
                    } else if changed[i] != container_at(p) {
                        assert(held.contains(changed[i]));
                        let j = choose|j: int| 0 <= j < held.len() && held[j] == changed[i];
                        assert(stands_in(groups[k].directory, held[j]));
                    }
                }
                assert(sound_group(after[k]));
                assert forall|i: int| 0 <= i < after.len() implies sound_group(
                    #[trigger] after[i],
                ) by {
                    if i != k {
                        assert(after[i] == groups[i]);
                    }
                }
                assert forall|i: int, j: int| 0 <= i < j < after.len() implies <
                    ContainerGroup as Ranked
                >::before(#[trigger] after[i], #[trigger] after[j]) by {
                    assert(<ContainerGroup as Ranked>::before(groups[i], groups[j]));
                }
            },
            None => {
                let group = GroupView { directory, containers: seq![container_at(p)] };
                assert forall|i: int| 0 <= i < groups.len() implies <
                    ContainerGroup as Ranked
                >::before(#[trigger] groups[i], group) || <ContainerGroup as Ranked>::before(
                    group,
                    groups[i],
                ) by {
                    assert(!wanted(groups[i]));
                    path::path_order_decides_sameness(groups[i].directory, directory);
                }
                order::insert_keeps_strict_order::<ContainerGroup>(groups, group);
                order::strict_order_is_order::<ContainerGroup>(groups);
                order::insert_keeps_order::<ContainerGroup>(groups, group);
                assert(sound_group(group));
                assert forall|i: int| 0 <= i < after.len() implies sound_group(
                    #[trigger] after[i],
                ) by {
                    assert(after[i] == group || groups.contains(after[i]));
                }
            },
        }
    }
}

proof fn root_groups_are_well_grouped(roots: Seq<RootView>)
    ensures
        well_grouped(root_groups(roots)),
    decreases roots.len(),
{
    if roots.len() > 0 {
        root_groups_are_well_grouped(roots.drop_last());
        adding_keeps_groups(root_groups(roots.drop_last()), roots.last().path);
    }
}

proof fn entry_groups_are_well_grouped(
    groups: Seq<GroupView>,
    canonical: Seq<char>,
    entries: Seq<DirectoryEntryView>,
)
    requires
        well_grouped(groups),
    ensures
        well_grouped(entry_groups(groups, canonical, entries)),
    decreases entries.len(),
{
    if entries.len() > 0 {
        entry_groups_are_well_grouped(groups, canonical, entries.drop_last());
        if container_entry(canonical, entries.last()) {
            adding_keeps_groups(
                entry_groups(groups, canonical, entries.drop_last()),
                entries.last().canonical->0,
            );
        }
    }
}

/// Whatever a walk meets, its groups are ordered by directory, no directory has two
/// groups, and each group holds containers of its directory, workspaces first.
pub proof fn walks_are_well_grouped(
    roots: Seq<RootView>,
    max_depth: int,
    walk: DiscoveryView,
    listing: Listing,
)
    requires
        well_grouped(walk.groups),
    ensures
        well_grouped(DiscoveryView::start(roots, max_depth).groups),
        well_grouped(walk.after(listing).groups),
        forall|i: int, j: int|
            0 <= i < j < walk.groups.len() ==> !path::same_path(
                (#[trigger] walk.groups[i]).directory,
                (#[trigger] walk.groups[j]).directory,
            ),
{
    assert forall|i: int, j: int| 0 <= i < j < walk.groups.len() implies !path::same_path(
        (#[trigger] walk.groups[i]).directory,
        (#[trigger] walk.groups[j]).directory,
    ) by {
        assert(<ContainerGroup as Ranked>::before(walk.groups[i], walk.groups[j]));
        path::path_order_decides_sameness(walk.groups[i].directory, walk.groups[j].directory);
    }
    root_groups_are_well_grouped(distinct_roots(roots));
    if let Listing::Read { canonical, entries } = listing {
        entry_groups_are_well_grouped(
            walk.groups,
            canonical@,
            order::ranked_sort::<DirectoryEntry>(order::views(entries@)),
        );
    }
}

/// Whether a waiting directory is one to walk through: not a package; at the top, a
/// root that is not hidden; below, an entry of a directory that was read on the way
/// from the same root, under a name that is neither hidden nor skipped.
pub open spec fn reached_plainly(visited: Seq<VisitView>, visit: VisitView) -> bool {
    &&& !container_path(visit.path)
    &&& if visit.depth == 0 {
        !hidden_name(path::file_name_of(visit.path))
    } else {
        exists|i: int, name: Seq<char>|
            {
                &&& 0 <= i < visited.len()
                &&& (#[trigger] visited[i]).root == visit.root
                &&& visited[i].depth + 1 == visit.depth
                &&& visit.path == #[trigger] path::joined(visited[i].path, name)
                &&& !hidden_name(Some(name))
                &&& !skipped_name(name)
            }
    }
}

impl DiscoveryView {
    /// Whether every waiting directory is one to walk through.
    pub open spec fn plain(self) -> bool {
        forall|i: int|
            0 <= i < self.waiting.len() ==> (#[trigger] self.waiting[i]).depth >= 0
                && reached_plainly(self.visited, self.waiting[i])
    }
}

proof fn root_visits_are_plain(roots: Seq<RootView>, from: int)
    ensures
        forall|i: int|
            0 <= i < root_visits(roots, from).len() ==> (#[trigger] root_visits(
                roots,
                from,
            )[i]).depth >= 0 && reached_plainly(Seq::empty(), root_visits(roots, from)[i]),
    decreases roots.len() - from,
{
    if 0 <= from < roots.len() {
        root_visits_are_plain(roots, from + 1);
        let rest = root_visits(roots, from + 1);
        let all = root_visits(roots, from);
        assert forall|i: int| 0 <= i < all.len() implies (#[trigger] all[i]).depth >= 0
            && reached_plainly(Seq::empty(), all[i]) by {
            if i < rest.len() {
                assert(all[i] == rest[i]);
            }
        }
    }
}

proof fn entry_visits_are_plain(
    visited: Seq<VisitView>,
    top: VisitView,
    canonical: Seq<char>,
    entries: Seq<DirectoryEntryView>,
    from: int,
    max_depth: int,
)
    requires
        top.depth >= 0,
        visited.len() > 0,
        visited.last() == (VisitView { root: top.root, depth: top.depth, path: canonical }),
    ensures
        forall|i: int|
            0 <= i < entry_visits(top, canonical, entries, from, max_depth).len() ==> (
            #[trigger] entry_visits(top, canonical, entries, from, max_depth)[i]).depth >= 0
                && reached_plainly(
                visited,
                entry_visits(top, canonical, entries, from, max_depth)[i],
            ),
    decreases entries.len() - from,
{
    if 0 <= from < entries.len() {
        entry_visits_are_plain(visited, top, canonical, entries, from + 1, max_depth);
        let rest = entry_visits(top, canonical, entries, from + 1, max_depth);
        let all = entry_visits(top, canonical, entries, from, max_depth);
        assert forall|i: int| 0 <= i < all.len() implies (#[trigger] all[i]).depth >= 0
            && reached_plainly(visited, all[i]) by {
            if i < rest.len() {
                assert(all[i] == rest[i]);
            } else {
                let last = visited.len() - 1;
                assert(visited[last].root == all[i].root);
                assert(all[i].path == path::joined(visited[last].path, entries[from].name));
            }
        }
    }
}

proof fn plain_visits_stay_plain(before: Seq<VisitView>, more: VisitView, visit: VisitView)
    requires
        reached_plainly(before, visit),
    ensures
        reached_plainly(before.push(more), visit),
{
    if visit.depth != 0 {
        let (i, name) = choose|i: int, name: Seq<char>|
            {
                &&& 0 <= i < before.len()
                &&& (#[trigger] before[i]).root == visit.root
                &&& before[i].depth + 1 == visit.depth
                &&& visit.path == #[trigger] path::joined(before[i].path, name)
                &&& !hidden_name(Some(name))
                &&& !skipped_name(name)
            };
        assert(before.push(more)[i] == before[i]);
        assert(visit.path == path::joined(before.push(more)[i].path, name));
    }
}

/// A walk goes only through plain directories: never into a package, and never
/// through a hidden or skipped name.
pub proof fn walks_pass_by_hidden_and_skipped_names(
    roots: Seq<RootView>,
    max_depth: int,
    walk: DiscoveryView,
    listing: Listing,
)
    requires
        walk.plain(),
    ensures
        DiscoveryView::start(roots, max_depth).plain(),
        walk.after(listing).plain(),
{
    root_visits_are_plain(distinct_roots(roots), 0);
    if walk.waiting.len() > 0 {
        let top = walk.waiting.last();
        assert(walk.waiting[walk.waiting.len() - 1] == top);
        let next = walk.after(listing);
        let rest = walk.waiting.drop_last();
        if next.visited.len() > walk.visited.len() {
            let added = VisitView {
                root: top.root,
                depth: top.depth,
                path: listed_path(listing)->0,
            };
            assert(next.visited == walk.visited.push(added));
            assert forall|i: int| 0 <= i < rest.len() implies (#[trigger] rest[i]).depth >= 0
                && reached_plainly(next.visited, rest[i]) by {
                assert(rest[i] == walk.waiting[i]);
                plain_visits_stay_plain(walk.visited, added, rest[i]);
            }
            if let Listing::Read { canonical, entries } = listing {
                let sorted = order::ranked_sort::<DirectoryEntry>(order::views(entries@));
                entry_visits_are_plain(
                    next.visited,
                    top,
                    canonical@,
                    sorted,
                    0,
                    walk.max_depth,
                );
                let more = entry_visits(top, canonical@, sorted, 0, walk.max_depth);
                assert forall|i: int| 0 <= i < next.waiting.len() implies (
                #[trigger] next.waiting[i]).depth >= 0 && reached_plainly(
                    next.visited,
                    next.waiting[i],
                ) by {
                    if i < rest.len() {
                        assert(next.waiting[i] == rest[i]);
                    } else {
                        assert(next.waiting[i] == more[i - rest.len()]);
                    }
                }
            }
        } else {
            assert forall|i: int| 0 <= i < next.waiting.len() implies (
            #[trigger] next.waiting[i]).depth >= 0 && reached_plainly(
                next.visited,
                next.waiting[i],
            ) by {
                assert(next.waiting[i] == walk.waiting[i]);
            }
        }
    }
}

/// The path reached from `base` through `names`, one after the other.
pub open spec fn below(base: Seq<char>, names: Seq<Seq<char>>) -> Seq<char>
    decreases names.len(),
{
    if names.len() == 0 {
        base
    } else {
        path::joined(below(base, names.drop_last()), names.last())
    }
}

/// Whether none of these names is that of a hidden directory or of one of generated or
/// foreign code.
pub open spec fn plain_names(names: Seq<Seq<char>>) -> bool {
    forall|k: int|
        0 <= k < names.len() ==> {
            let name = #[trigger] names[k];
            &&& name.len() > 0 ==> name[0] != '.'
            &&& name != ".git"@
            &&& name != "DerivedData"@
            &&& name != ".build"@
            &&& name != "build"@
            &&& name != "Pods"@
            &&& name != "Carthage"@
            &&& name != "node_modules"@
        }
}

/// Whether a directory lies as many levels below its root as it says, and no name on
/// the way to it from there is one to pass by.
pub open spec fn lies_plainly(roots: Seq<RootView>, visit: VisitView) -> bool {
    &&& 0 <= visit.root < roots.len()
    &&& exists|names: Seq<Seq<char>>|
        names.len() == visit.depth && plain_names(names) && visit.path == #[trigger] below(
            roots[visit.root].path,
            names,
        )
}

impl DiscoveryView {
    /// Whether every directory that waits or was read lies plainly below its root.
    pub open spec fn stays_outside(self, roots: Seq<RootView>) -> bool {
        &&& forall|i: int|
            0 <= i < self.waiting.len() ==> lies_plainly(roots, #[trigger] self.waiting[i])
        &&& forall|i: int|
            0 <= i < self.visited.len() ==> lies_plainly(roots, #[trigger] self.visited[i])
    }
}

/// The walk through `roots` after the directories that it asked for were read, with
/// these listings.
pub open spec fn walked(
    roots: Seq<RootView>,
    max_depth: int,
    listings: Seq<Listing>,
) -> DiscoveryView
    decreases listings.len(),
{
    if listings.len() == 0 {
        DiscoveryView::start(roots, max_depth)
    } else {
        walked(roots, max_depth, listings.drop_last()).after(listings.last())
    }
}

proof fn root_visits_lie_plainly(roots: Seq<RootView>, from: int)
    ensures
        forall|i: int|
            0 <= i < root_visits(roots, from).len() ==> lies_plainly(
                roots,
                #[trigger] root_visits(roots, from)[i],
            ),
    decreases roots.len() - from,
{
    if 0 <= from < roots.len() {
        root_visits_lie_plainly(roots, from + 1);
        let rest = root_visits(roots, from + 1);
        let all = root_visits(roots, from);
        assert forall|i: int| 0 <= i < all.len() implies lies_plainly(roots, #[trigger] all[i]) by {
            if i < rest.len() {
                assert(all[i] == rest[i]);
            } else {
                let names = Seq::<Seq<char>>::empty();
                assert(all[i].path == below(roots[from].path, names));
            }
        }
    }
}

proof fn entries_lie_plainly(
    roots: Seq<RootView>,
    top: VisitView,
    entries: Seq<DirectoryEntryView>,
    from: int,
    max_depth: int,
)
    requires
        lies_plainly(roots, top),
    ensures
        forall|i: int|
            0 <= i < entry_visits(top, top.path, entries, from, max_depth).len() ==> lies_plainly(
                roots,
                #[trigger] entry_visits(top, top.path, entries, from, max_depth)[i],
            ),
    decreases entries.len() - from,
{
    if 0 <= from < entries.len() {
        entries_lie_plainly(roots, top, entries, from + 1, max_depth);
        let rest = entry_visits(top, top.path, entries, from + 1, max_depth);
        let all = entry_visits(top, top.path, entries, from, max_depth);
        assert forall|i: int| 0 <= i < all.len() implies lies_plainly(roots, #[trigger] all[i]) by {
            if i < rest.len() {
                assert(all[i] == rest[i]);
            } else {
                let name = entries[from].name;
                let above = choose|names: Seq<Seq<char>>|
                    names.len() == top.depth && plain_names(names) && top.path
                        == #[trigger] below(roots[top.root].path, names);
                let names = above.push(name);
                assert(names.drop_last() =~= above);
                assert(forall|k: int| 0 <= k < above.len() ==> #[trigger] names[k] == above[k]);
                assert(plain_names(names));
                assert(all[i].path == below(roots[top.root].path, names));
            }
        }
    }
}

/// A walk never enters a hidden directory, and it never enters one that is called
/// DerivedData, build, Carthage, node_modules, Pods, .git or .build: whatever the
/// listings hold, no directory that waits or was read lies below such a name on its way
/// from the root. The listings are those of the directories that were asked for.
pub proof fn walks_stay_outside_generated_directories(
    roots: Seq<RootView>,
    max_depth: int,
    listings: Seq<Listing>,
)
    requires
        forall|n: int|
            0 <= n < listings.len() ==> {
                let walk = #[trigger] walked(roots, max_depth, listings.take(n));
                walk.waiting.len() > 0 && listed_path(listings[n]) is Some ==> listed_path(
                    listings[n],
                ) == Some(walk.waiting.last().path)
            },
    ensures
        walked(roots, max_depth, listings).stays_outside(distinct_roots(roots)),
    decreases listings.len(),
{
    let distinct = distinct_roots(roots);
    if listings.len() == 0 {
        root_visits_lie_plainly(distinct, 0);
    } else {
        let before = listings.drop_last();
        let last = listings.len() - 1;
        assert forall|n: int| 0 <= n < before.len() implies {
            let walk = #[trigger] walked(roots, max_depth, before.take(n));
            walk.waiting.len() > 0 && listed_path(before[n]) is Some ==> listed_path(before[n])
                == Some(walk.waiting.last().path)
        } by {
            assert(before.take(n) =~= listings.take(n));
            assert(before[n] == listings[n]);
            assert(walked(roots, max_depth, listings.take(n)) == walked(
                roots,
                max_depth,
                before.take(n),
            ));
        }
        walks_stay_outside_generated_directories(roots, max_depth, before);
        let walk = walked(roots, max_depth, before);
        assert(listings.take(last) =~= before);
        assert(walked(roots, max_depth, listings.take(last)) == walk);
        let listing = listings[last];
        let next = walk.after(listing);
        if walk.waiting.len() > 0 {
            let top = walk.waiting.last();
            let rest = walk.waiting.drop_last();
            assert(lies_plainly(distinct, walk.waiting[walk.waiting.len() - 1]));
            let added = VisitView { root: top.root, depth: top.depth, path: top.path };
            assert(added == top);
            assert forall|i: int| 0 <= i < next.visited.len() implies lies_plainly(
                distinct,
                #[trigger] next.visited[i],
            ) by {
                if i < walk.visited.len() {
                    assert(next.visited[i] == walk.visited[i]);
                } else {
                    assert(next.visited[i] == top);
                }
            }
            if let Listing::Read { canonical, entries } = listing {
                let sorted = order::ranked_sort::<DirectoryEntry>(order::views(entries@));
                entries_lie_plainly(distinct, top, sorted, 0, walk.max_depth);
                let more = entry_visits(top, top.path, sorted, 0, walk.max_depth);
                assert forall|i: int| 0 <= i < next.waiting.len() implies lies_plainly(
                    distinct,
                    #[trigger] next.waiting[i],
                ) by {
                    if i < rest.len() {
                        assert(next.waiting[i] == walk.waiting[i]);
                    } else {
                        assert(next.waiting[i] == more[i - rest.len()]);
                    }
                }
            } else {
                assert forall|i: int| 0 <= i < next.waiting.len() implies lies_plainly(
                    distinct,
                    #[trigger] next.waiting[i],
                ) by {
                    assert(next.waiting[i] == walk.waiting[i]);
                }
            }
        }
    }
}

proof fn entry_names_end_their_paths(canonical: Seq<char>, name: Seq<char>, wanted: Seq<char>)
    requires
        name.len() > 0,
        name[0] != '.',
        forall|j: int| 0 <= j < name.len() ==> name[j] != '/',
        wanted.len() > 0,
        forall|j: int| 0 <= j < wanted.len() ==> wanted[j] != '.' && wanted[j] != '/',
    ensures
        has_extension(path::joined(canonical, name), wanted) <==> text::ends_in(
            name,
            "."@ + wanted,
        ),
{
    reveal_strlit("/");
    reveal_strlit(".");
    let p = path::joined(canonical, name);
    let start = p.len() - name.len();
    assert forall|j: int| 0 <= j < name.len() implies p[start + j] == name[j] by {}
    extensions_are_endings(p, wanted);
    let ending = "."@ + wanted;
    let dot = p.len() - ending.len();
    if text::ends_in(name, ending) {
        assert(p.skip(dot) =~= name.skip(name.len() - ending.len()));
        assert(text::lowered(p.skip(dot))[0] == text::lowered(ending)[0]);
        assert(p[dot] == '.');
        assert(dot > start);
        assert(p[dot - 1] == name[dot - 1 - start]);
    }
    if text::ends_in(p, ending) && dot > 0 && p[dot - 1] != '/' {
        if name.len() < ending.len() {
            let at = start - 1 - dot;
            assert(p[start - 1] == '/');
            assert(p.skip(dot)[at] == '/');
            assert(text::lowered(p.skip(dot))[at] == text::lowered(ending)[at]);
            assert(at > 0);
            assert(ending[at] == wanted[at - 1]);
        }
        assert(p.skip(dot) =~= name.skip(name.len() - ending.len()));
    }
}

proof fn walked_entries_wait(
    top: VisitView,
    canonical: Seq<char>,
    entries: Seq<DirectoryEntryView>,
    from: int,
    max_depth: int,
    k: int,
)
    requires
        0 <= from <= k < entries.len(),
        walked_entry(canonical, entries[k], top.depth, max_depth),
    ensures
        entry_visits(top, canonical, entries, from, max_depth).contains(
            (VisitView {
                root: top.root,
                depth: top.depth + 1,
                path: path::joined(canonical, entries[k].name),
            }),
        ),
    decreases entries.len() - from,
{
    let rest = entry_visits(top, canonical, entries, from + 1, max_depth);
    let all = entry_visits(top, canonical, entries, from, max_depth);
    let visit = VisitView {
        root: top.root,
        depth: top.depth + 1,
        path: path::joined(canonical, entries[k].name),
    };
    if from == k {
        assert(all.last() == visit);
    } else {
        walked_entries_wait(top, canonical, entries, from + 1, max_depth, k);
        let i = choose|i: int| 0 <= i < rest.len() && rest[i] == visit;
        assert(all[i] == visit);
    }
}

/// Every other directory is entered: when a directory is read for the first time, and
/// the depth limit allows, those of its entries wait that are directories, that are not
/// hidden, that are not packages and that have none of the names to pass by.
pub proof fn walks_enter_all_other_directories(
    walk: DiscoveryView,
    canonical: String,
    entries: Vec<DirectoryEntry>,
    k: int,
)
    requires
        walk.waiting.len() > 0,
        walk.waiting.last().depth < walk.max_depth,
        !seen(walk.visited, walk.waiting.last().root, canonical@),
        0 <= k < entries@.len(),
        entries@[k].is_dir,
        entries@[k].name@.len() > 0,
        forall|j: int| 0 <= j < entries@[k].name@.len() ==> entries@[k].name@[j] != '/',
        plain_names(seq![entries@[k].name@]),
        !text::ends_in(entries@[k].name@, ".xcworkspace"@),
        !text::ends_in(entries@[k].name@, ".xcodeproj"@),
    ensures
        walk.after(Listing::Read { canonical, entries }).waiting.contains(
            (VisitView {
                root: walk.waiting.last().root,
                depth: walk.waiting.last().depth + 1,
                path: path::joined(canonical@, entries@[k].name@),
            }),
        ),
{
    let top = walk.waiting.last();
    let all = order::views(entries@);
    let sorted = order::ranked_sort::<DirectoryEntry>(all);
    let name = entries@[k].name@;
    assert(seq![name][0] == name);
    package_endings();
    entry_names_end_their_paths(canonical@, name, "xcworkspace"@);
    entry_names_end_their_paths(canonical@, name, "xcodeproj"@);
    entries_are_kept_by_sorting(entries@, k);
    let n = choose|n: int| 0 <= n < sorted.len() && sorted[n] == entries@[k]@;
    walked_entries_wait(top, canonical@, sorted, 0, walk.max_depth, n);
    let more = entry_visits(top, canonical@, sorted, 0, walk.max_depth);
    let visit = VisitView {
        root: top.root,
        depth: top.depth + 1,
        path: path::joined(canonical@, name),
    };
    let i = choose|i: int| 0 <= i < more.len() && more[i] == visit;
    let next = walk.after(Listing::Read { canonical, entries });
    assert(next.waiting[walk.waiting.len() - 1 + i] == visit);
}

proof fn package_endings()
    ensures
        "."@ + "xcworkspace"@ == ".xcworkspace"@,
        "."@ + "xcodeproj"@ == ".xcodeproj"@,
        "xcworkspace"@.len() == 11,
        "xcodeproj"@.len() == 9,
        forall|j: int| 0 <= j < 11 ==> "xcworkspace"@[j] != '.' && "xcworkspace"@[j] != '/',
        forall|j: int| 0 <= j < 9 ==> "xcodeproj"@[j] != '.' && "xcodeproj"@[j] != '/',
{
    reveal_strlit(".");
    reveal_strlit("xcworkspace");
    reveal_strlit("xcodeproj");
    reveal_strlit(".xcworkspace");
    reveal_strlit(".xcodeproj");
    assert("."@ + "xcworkspace"@ =~= ".xcworkspace"@);
    assert("."@ + "xcodeproj"@ =~= ".xcodeproj"@);
}

proof fn entries_are_kept_by_sorting(entries: Seq<DirectoryEntry>, k: int)
    requires
        0 <= k < entries.len(),
    ensures
        order::ranked_sort::<DirectoryEntry>(order::views(entries)).contains(entries[k]@),
{
    broadcast use vstd::seq_lib::group_to_multiset_ensures;

    let all = order::views(entries);
    let sorted = order::ranked_sort::<DirectoryEntry>(all);
    order::sorting_orders_and_keeps::<DirectoryEntry>(all);
    assert(all[k] == entries[k]@);
    assert(all.to_multiset().contains(all[k]));
    assert(sorted.to_multiset().contains(all[k]));
}

/// Whether a container was found.
pub open spec fn found(groups: Seq<GroupView>, c: ContainerView) -> bool {
    exists|i: int| 0 <= i < groups.len() && (#[trigger] groups[i]).containers.contains(c)
}

proof fn adding_finds_one(groups: Seq<GroupView>, p: Seq<char>, c: ContainerView)
    requires
        well_grouped(groups),
        found(with_container(groups, p), c),
    ensures
        found(groups, c) || c == container_at(p),
{
    if let Some(directory) = path::parent_of(p) {
        let after = with_container(groups, p);
        order::first_where_meaning(
            groups,
            |g: GroupView| path::same_path(g.directory, directory),
        );
        let i = choose|i: int| 0 <= i < after.len() && (#[trigger] after[i]).containers.contains(c);
        match group_of(groups, directory) {
            Some(k) => {
                assert(sound_group(groups[k]));
                order::insert_keeps_order::<XcodeContainer>(
                    groups[k].containers,
                    container_at(p),
                );
                if i != k {
                    assert(after[i] == groups[i]);
                } else {
                    let changed = after[k].containers;
                    let j = choose|j: int| 0 <= j < changed.len() && changed[j] == c;
                    if changed != groups[k].containers && c != container_at(p) {
                        assert(changed[j] == container_at(p) || groups[k].containers.contains(
                            changed[j],
                        ));
                    }
                    assert(c == container_at(p) || groups[k].containers.contains(c));
                }
            },
            None => {
                let group = GroupView { directory, containers: seq![container_at(p)] };
                order::strict_order_is_order::<ContainerGroup>(groups);
                order::insert_keeps_order::<ContainerGroup>(groups, group);
                assert(after[i] == group || groups.contains(after[i]));
            },
        }
    }
}

proof fn entries_are_found(
    groups: Seq<GroupView>,
    canonical: Seq<char>,
    entries: Seq<DirectoryEntryView>,
    c: ContainerView,
)
    requires
        well_grouped(groups),
        found(entry_groups(groups, canonical, entries), c),
    ensures
        found(groups, c) || exists|i: int|
            0 <= i < entries.len() && container_entry(canonical, #[trigger] entries[i]) && c
                == container_at(entries[i].canonical->0),
    decreases entries.len(),
{
    if entries.len() > 0 {
        let before = entry_groups(groups, canonical, entries.drop_last());
        entry_groups_are_well_grouped(groups, canonical, entries.drop_last());
        if container_entry(canonical, entries.last()) {
            adding_finds_one(before, entries.last().canonical->0, c);
        }
        if found(before, c) {
            entries_are_found(groups, canonical, entries.drop_last(), c);
            if !found(groups, c) {
                let i = choose|i: int|
                    0 <= i < entries.drop_last().len() && container_entry(
                        canonical,
                        #[trigger] entries.drop_last()[i],
                    ) && c == container_at(entries.drop_last()[i].canonical->0);
                assert(entries[i] == entries.drop_last()[i]);
            }
        } else {
            assert(entries[entries.len() - 1] == entries.last());
        }
    }
}

/// What a step of a walk finds are the containers among the entries of the directory
/// that was read, those with hidden names left out.
pub proof fn walks_find_entries_of_directories(
    walk: DiscoveryView,
    listing: Listing,
    c: ContainerView,
)
    requires
        well_grouped(walk.groups),
        found(walk.after(listing).groups, c),
        !found(walk.groups, c),
    ensures
        listing matches Listing::Read { canonical, entries } && exists|i: int|
            0 <= i < entries@.len() && container_entry(canonical@, (#[trigger] entries@[i])@) && c
                == container_at(entries@[i]@.canonical->0),
{
    if let Listing::Read { canonical, entries } = listing {
        let all = order::views(entries@);
        let sorted = order::ranked_sort::<DirectoryEntry>(all);
        entries_are_found(walk.groups, canonical@, sorted, c);
        let i = choose|i: int|
            0 <= i < sorted.len() && container_entry(canonical@, #[trigger] sorted[i]) && c
                == container_at(sorted[i].canonical->0);
        order::sorting_orders_and_keeps::<DirectoryEntry>(all);
        broadcast use vstd::seq_lib::group_to_multiset_ensures;

        assert(sorted.to_multiset().contains(sorted[i]));
        assert(all.contains(sorted[i]));
        let k = choose|k: int| 0 <= k < all.len() && all[k] == sorted[i];
        assert(entries@[k]@ == all[k]);
    }
}

/// Whether a container of this kind and path was found.
pub open spec fn found_at(groups: Seq<GroupView>, workspace: bool, p: Seq<char>) -> bool {
    exists|c: ContainerView|
        #[trigger] found(groups, c) && c.workspace == workspace && path::same_path(c.path, p)
}

proof fn adding_keeps_what_was_found(groups: Seq<GroupView>, p: Seq<char>, c: ContainerView)
    requires
        well_grouped(groups),
        found(groups, c),
    ensures
        found(with_container(groups, p), c),
{
    broadcast use vstd::seq_lib::group_to_multiset_ensures;

    if let Some(directory) = path::parent_of(p) {
        let after = with_container(groups, p);
        order::first_where_meaning(
            groups,
            |g: GroupView| path::same_path(g.directory, directory),
        );
        let i = choose|i: int|
            0 <= i < groups.len() && (#[trigger] groups[i]).containers.contains(c);
        match group_of(groups, directory) {
            Some(k) => {
                if i != k {
                    assert(after[i] == groups[i]);
                } else {
                    let held = groups[k].containers;
                    assert(sound_group(groups[k]));
                    order::insert_keeps_order::<XcodeContainer>(held, container_at(p));
                    assert(held.to_multiset().contains(c));
                    assert(after[k].containers.contains(c)) by {
                        if after[k].containers != held {
                            assert(after[k].containers.to_multiset().contains(c));
                        }
                    }
                }
            },
            None => {
                let group = GroupView { directory, containers: seq![container_at(p)] };
                order::strict_order_is_order::<ContainerGroup>(groups);
                order::insert_keeps_order::<ContainerGroup>(groups, group);
                assert(groups.to_multiset().contains(groups[i]));
                assert(after.to_multiset().contains(groups[i]));
                assert(after.contains(groups[i]));
            },
        }
    }
}

proof fn adding_finds(groups: Seq<GroupView>, p: Seq<char>)
    requires
        well_grouped(groups),
        path::parent_of(p) is Some,
    ensures
        found_at(with_container(groups, p), container_at(p).workspace, p),
{
    broadcast use vstd::seq_lib::group_to_multiset_ensures;

    let directory = path::parent_of(p)->0;
    let after = with_container(groups, p);
    let c = container_at(p);
    order::first_where_meaning(groups, |g: GroupView| path::same_path(g.directory, directory));
    match group_of(groups, directory) {
        Some(k) => {
            let held = groups[k].containers;
            assert(sound_group(groups[k]));
            order::insert_keeps_order::<XcodeContainer>(held, c);
            if order::ranked_present::<XcodeContainer>(held, c) {
                let j = choose|j: int|
                    0 <= j < held.len() && !<XcodeContainer as Ranked>::before(
                        #[trigger] held[j],
                        c,
                    ) && !<XcodeContainer as Ranked>::before(c, held[j]);
                path::path_order_decides_sameness(held[j].path, p);
                assert(after[k].containers.contains(held[j]));
                assert(found(after, held[j]));
            } else {
                assert(after[k].containers.to_multiset().contains(c));
                assert(after[k].containers.contains(c));
                assert(found(after, c));
                assert(path::same_path(c.path, p));
            }
        },
        None => {
            let group = GroupView { directory, containers: seq![c] };
            order::strict_order_is_order::<ContainerGroup>(groups);
            order::insert_keeps_order::<ContainerGroup>(groups, group);
            assert(after.to_multiset().contains(group));
            assert(after.contains(group));
            assert(group.containers[0] == c);
            assert(group.containers.contains(c));
            assert(found(after, c));
            assert(path::same_path(c.path, p));
        },
    }
}

proof fn entries_keep_what_was_found(
    groups: Seq<GroupView>,
    canonical: Seq<char>,
    entries: Seq<DirectoryEntryView>,
    c: ContainerView,
)
    requires
        well_grouped(groups),
        found(groups, c),
    ensures
        found(entry_groups(groups, canonical, entries), c),
    decreases entries.len(),
{
    if entries.len() > 0 {
        entries_keep_what_was_found(groups, canonical, entries.drop_last(), c);
        entry_groups_are_well_grouped(groups, canonical, entries.drop_last());
        if container_entry(canonical, entries.last()) {
            adding_keeps_what_was_found(
                entry_groups(groups, canonical, entries.drop_last()),
                entries.last().canonical->0,
                c,
            );
        }
    }
}

proof fn container_entries_are_found(
    groups: Seq<GroupView>,
    canonical: Seq<char>,
    entries: Seq<DirectoryEntryView>,
    k: int,
)
    requires
        well_grouped(groups),
        0 <= k < entries.len(),
        container_entry(canonical, entries[k]),
        path::parent_of(entries[k].canonical->0) is Some,
    ensures
        found_at(
            entry_groups(groups, canonical, entries),
            container_at(entries[k].canonical->0).workspace,
            entries[k].canonical->0,
        ),
    decreases entries.len(),
{
    let before = entry_groups(groups, canonical, entries.drop_last());
    let p = entries[k].canonical->0;
    entry_groups_are_well_grouped(groups, canonical, entries.drop_last());
    if k == entries.len() - 1 {
        adding_finds(before, p);
    } else {
        container_entries_are_found(groups, canonical, entries.drop_last(), k);
        let c = choose|c: ContainerView|
            #[trigger] found(before, c) && c.workspace == container_at(p).workspace
                && path::same_path(c.path, p);
        if container_entry(canonical, entries.last()) {
            adding_keeps_what_was_found(before, entries.last().canonical->0, c);
        }
        assert(found(entry_groups(groups, canonical, entries), c));
    }
}

/// Nothing that was found is lost again. When a directory is read for the first time,
/// each of its entries that is not hidden and whose name ends in `.xcworkspace` or
/// `.xcodeproj` is found: a workspace by the first ending, a project by the second.
pub proof fn walks_find_every_package(
    walk: DiscoveryView,
    canonical: String,
    entries: Vec<DirectoryEntry>,
    k: int,
    c: ContainerView,
)
    requires
        well_grouped(walk.groups),
        walk.waiting.len() > 0,
        !seen(walk.visited, walk.waiting.last().root, canonical@),
        0 <= k < entries@.len(),
        entries@[k].name@.len() > 0,
        entries@[k].name@[0] != '.',
        forall|j: int| 0 <= j < entries@[k].name@.len() ==> entries@[k].name@[j] != '/',
        text::opt_text(entries@[k].canonical) == Some(
            path::joined(canonical@, entries@[k].name@),
        ),
        found(walk.groups, c),
    ensures
        found(walk.after(Listing::Read { canonical, entries }).groups, c),
        text::ends_in(entries@[k].name@, ".xcworkspace"@) ==> found_at(
            walk.after(Listing::Read { canonical, entries }).groups,
            true,
            path::joined(canonical@, entries@[k].name@),
        ),
        text::ends_in(entries@[k].name@, ".xcodeproj"@) ==> found_at(
            walk.after(Listing::Read { canonical, entries }).groups,
            false,
            path::joined(canonical@, entries@[k].name@),
        ),
{
    let name = entries@[k].name@;
    let p = path::joined(canonical@, name);
    let all = order::views(entries@);
    let sorted = order::ranked_sort::<DirectoryEntry>(all);
    let next = walk.after(Listing::Read { canonical, entries });
    entries_keep_what_was_found(walk.groups, canonical@, sorted, c);
    package_endings();
    entry_names_end_their_paths(canonical@, name, "xcworkspace"@);
    entry_names_end_their_paths(canonical@, name, "xcodeproj"@);
    if text::ends_in(name, ".xcworkspace"@) || text::ends_in(name, ".xcodeproj"@) {
        entries_are_kept_by_sorting(entries@, k);
        let n = choose|n: int| 0 <= n < sorted.len() && sorted[n] == entries@[k]@;
        let start = p.len() - name.len();
        assert(p[start] == name[0]);
        assert(p.last() == name.last());
        assert(name.last() != '.') by {
            let ending = if text::ends_in(name, ".xcworkspace"@) {
                ".xcworkspace"@
            } else {
                ".xcodeproj"@
            };
            reveal_strlit(".xcworkspace");
            reveal_strlit(".xcodeproj");
            let tail = name.skip(name.len() - ending.len());
            assert(text::lowered(tail).last() == text::lowered(ending).last());
            assert(tail.last() == name.last());
        }
        assert(path::clean_end(p) == p);
        assert(path::parent_of(p) is Some);
        container_entries_are_found(walk.groups, canonical@, sorted, n);
        assert(next.groups == entry_groups(walk.groups, canonical@, sorted));
        endings_tell_packages_apart(name);
    }
}

proof fn endings_tell_packages_apart(name: Seq<char>)
    ensures
        !(text::ends_in(name, ".xcworkspace"@) && text::ends_in(name, ".xcodeproj"@)),
{
    reveal_strlit(".xcworkspace");
    reveal_strlit(".xcodeproj");
    if text::ends_in(name, ".xcworkspace"@) && text::ends_in(name, ".xcodeproj"@) {
        let a = name.skip(name.len() - 12);
        let b = name.skip(name.len() - 10);
        assert(text::lowered(a).last() == text::lowered(".xcworkspace"@).last());
        assert(text::lowered(b).last() == text::lowered(".xcodeproj"@).last());
        assert(a.last() == b.last());
        assert(text::lower_char(a.last()) == 'e');
        assert(text::lower_char(b.last()) == 'j');
    }
}

/// A project with a workspace prefers a workspace.
pub proof fn workspaces_are_preferred(project: XcodeProject, groups: Seq<GroupView>, i: int)
    requires
        well_grouped(groups),
        0 <= i < groups.len(),
        project_of(project, groups[i]),
        exists|j: int| 0 <= j < project.containers@.len() && project.containers@[j] is Workspace,
    ensures
        project.preferred_container is Workspace,
{
    let containers = groups[i].containers;
    assert(sound_group(groups[i]));
    let j = choose|j: int|
        0 <= j < project.containers@.len() && project.containers@[j] is Workspace;
    assert(containers[j] == project.containers@[j]@);
    if j > 0 {
        assert(!<XcodeContainer as Ranked>::before(containers[j], containers[0]));
    }
}

impl Discovery {
    /// Starts a walk through roots that exist, down to `max_depth` levels below
    /// each of them.
    pub fn new(roots: Vec<Root>, max_depth: usize) -> (r: Self)
        ensures
            r@ == DiscoveryView::start(order::views(roots@), max_depth as int),
    {
        let ghost all = order::views(roots@);
        let mut distinct: Vec<Root> = Vec::new();
        let mut i: usize = 0;
        assert(all.take(0) =~= Seq::empty());
        assert(order::views(distinct@) =~= Seq::empty());
        while i < roots.len()
            invariant
                i <= roots@.len(),
                all == order::views(roots@),
                order::views(distinct@) == distinct_roots(all.take(i as int)),
            decreases roots@.len() - i,
        {
            assert(all.take(i + 1).drop_last() =~= all.take(i as int));
            assert(all.take(i + 1).last() == roots@[i as int]@);
            insert_ranked_set(
                &mut distinct,
                Root { path: roots[i].path.clone(), is_dir: roots[i].is_dir },
            );
            i = i + 1;
        }
        assert(all.take(i as int) =~= all);
        let ghost set = order::views(distinct@);
        let mut groups: Vec<ContainerGroup> = Vec::new();
        let mut k: usize = 0;
        assert(set.take(0) =~= Seq::empty());
        assert(order::views(groups@) =~= Seq::empty());
        while k < distinct.len()
            invariant
                k <= distinct@.len(),
                set == order::views(distinct@),
                order::views(groups@) == root_groups(set.take(k as int)),
            decreases distinct@.len() - k,
        {
            assert(set.take(k + 1).drop_last() =~= set.take(k as int));
            assert(set.take(k + 1).last() == distinct@[k as int]@);
            if is_xcode_container(distinct[k].path.as_str()) {
                add_container(&mut groups, distinct[k].path.as_str());
            }
            k = k + 1;
        }
        assert(set.take(k as int) =~= set);
        let mut waiting: Vec<Visit> = Vec::new();
        let mut n: usize = distinct.len();
        assert(order::views(waiting@) =~= Seq::empty());
        while n > 0
            invariant
                n <= distinct@.len(),
                set == order::views(distinct@),
                order::views(waiting@) == root_visits(set, n as int),
            decreases n,
        {
            n = n - 1;
            let root = &distinct[n];
            assert(set[n as int] == root@);
            let name = path::file_name(root.path.as_str());
            let hidden = match &name {
                Some(name) => is_hidden_path_component(Some(name.as_str())),
                None => false,
            };
            if !is_xcode_container(root.path.as_str()) && root.is_dir && !hidden {
                let ghost before = waiting@;
                let visit = Visit { root: n, depth: 0, path: root.path.clone() };
                waiting.push(visit);
                assert(order::views(waiting@) =~= order::views(before).push(visit@));
            }
        }
        let visited: Vec<Visit> = Vec::new();
        assert(order::views(visited@) =~= Seq::empty());
        Discovery { max_depth, waiting, visited, groups }
    }

    /// The directory to read next; nothing when the walk is over.
    pub fn next_directory(&self) -> (r: Option<&str>)
        ensures
            match r {
                Some(p) => self@.waiting.len() > 0 && p@ == self@.waiting.last().path,
                None => self@.waiting.len() == 0,
            },
    {
        if self.waiting.len() == 0 {
            None
        } else {
            let last: usize = self.waiting.len() - 1;
            assert(order::views(self.waiting@)[last as int] == self.waiting@[last as int]@);
            Some(self.waiting[last].path.as_str())
        }
    }

    /// Takes in what reading the next directory gave.
    pub fn directory_read(&mut self, listing: Listing)
        ensures
            final(self)@ == old(self)@.after(listing),
    {
        let ghost before = self@;
        let ghost all_waiting = self.waiting@;
        let top = match self.waiting.pop() {
            Some(top) => top,
            None => {
                assert(self@ =~= before);
                return;
            },
        };
        assert(order::views(self.waiting@) =~= before.waiting.drop_last());
        assert(before.waiting.last() == all_waiting[all_waiting.len() - 1]@);
        assert(top@ == before.waiting.last());
        let ghost rest = self@;
        let (canonical, entries) = match listing {
            Listing::Gone => {
                return;
            },
            Listing::Unreadable { canonical } => (canonical, None),
            Listing::Read { canonical, entries } => (canonical, Some(entries)),
        };
        if self.was_visited(top.root, canonical.as_str()) {
            return;
        }
        let visit = Visit { root: top.root, depth: top.depth, path: canonical.clone() };
        let ghost old_visited = self.visited@;
        self.visited.push(visit);
        assert(order::views(self.visited@) =~= order::views(old_visited).push(visit@));
        let entries = match entries {
            Some(entries) => sort_ranked(entries),
            None => {
                return;
            },
        };
        let ghost sorted = order::views(entries@);
        let ghost old_groups = before.groups;
        let mut i: usize = 0;
        assert(sorted.take(0) =~= Seq::empty());
        while i < entries.len()
            invariant
                i <= entries@.len(),
                sorted == order::views(entries@),
                order::views(self.groups@) == entry_groups(
                    old_groups,
                    canonical@,
                    sorted.take(i as int),
                ),
                self@.max_depth == before.max_depth,
                self@.waiting == before.waiting.drop_last(),
                self@.visited == before.visited.push(
                    VisitView { root: top.root as int, depth: top.depth as int, path: canonical@ },
                ),
            decreases entries@.len() - i,
        {
            assert(sorted.take(i + 1).drop_last() =~= sorted.take(i as int));
            assert(sorted.take(i + 1).last() == entries@[i as int]@);
            let entry = &entries[i];
            let full = path::join(canonical.as_str(), entry.name.as_str());
            if !is_hidden_path_component(Some(entry.name.as_str())) && is_xcode_container(
                full.as_str(),
            ) {
                if let Some(found) = &entry.canonical {
                    add_container(&mut self.groups, found.as_str());
                }
            }
            i = i + 1;
        }
        assert(sorted.take(i as int) =~= sorted);
        let mut more: Vec<Visit> = Vec::new();
        let mut n: usize = entries.len();
        assert(order::views(more@) =~= Seq::empty());
        while n > 0
            invariant
                n <= entries@.len(),
                sorted == order::views(entries@),
                self@.max_depth == before.max_depth,
                self@.waiting == before.waiting.drop_last(),
                self@.visited == before.visited.push(
                    VisitView { root: top.root as int, depth: top.depth as int, path: canonical@ },
                ),
                self@.groups == entry_groups(old_groups, canonical@, sorted),
                order::views(more@) == entry_visits(
                    top@,
                    canonical@,
                    sorted,
                    n as int,
                    self.max_depth as int,
                ),
            decreases n,
        {
            n = n - 1;
            let entry = &entries[n];
            assert(sorted[n as int] == entry@);
            let full = path::join(canonical.as_str(), entry.name.as_str());
            if !is_hidden_path_component(Some(entry.name.as_str())) && !is_xcode_container(
                full.as_str(),
            ) && entry.is_dir && !should_skip_directory(entry.name.as_str()) && top.depth
                < self.max_depth {
                let ghost held = more@;
                let visit = Visit { root: top.root, depth: top.depth + 1, path: full };
                more.push(visit);
                assert(order::views(more@) =~= order::views(held).push(visit@));
            }
        }
        let ghost held = self.waiting@;
        let ghost added = more@;
        self.waiting.append(&mut more);
        assert(order::views(self.waiting@) =~= order::views(held) + order::views(added));
        assert(self@ =~= before.after(listing));
    }

    fn was_visited(&self, root: usize, canonical: &str) -> (r: bool)
        ensures
            r == seen(self@.visited, root as int, canonical@),
    {
        let ghost all = order::views(self.visited@);
        let mut i: usize = 0;
        while i < self.visited.len()
            invariant
                i <= self.visited@.len(),
                all == order::views(self.visited@),
                self@.visited == all,
                forall|j: int|
                    0 <= j < i ==> !((#[trigger] all[j]).root == root && path::same_path(
                        all[j].path,
                        canonical@,
                    )),
            decreases self.visited@.len() - i,
        {
            assert(all[i as int] == self.visited@[i as int]@);
            if self.visited[i].root == root && paths_equal(
                self.visited[i].path.as_str(),
                canonical,
            ) {
                return true;
            }
            i = i + 1;
        }
        false
    }
}

// ---------------------------------------------------------------------------
// Projects
// ---------------------------------------------------------------------------

/// The display name of a project: the preferred container's file name without
/// its extension, else the directory's name, else the directory.
pub open spec fn project_name(directory: Seq<char>, preferred: Seq<char>) -> Seq<char> {
    let stem = path::file_stem_of(preferred);
    if stem matches Some(s) && s.len() > 0 {
        stem->0
    } else {
        match path::file_name_of(directory) {
            Some(name) => name,
            None => directory,
        }
    }
}

/// Whether a project is the one of a group.
pub open spec fn project_of(project: XcodeProject, group: GroupView) -> bool {
    &&& group.containers.len() > 0
    &&& project.id.0@ == group.directory
    &&& project.directory@ == group.directory
    &&& order::views(project.containers@) == group.containers
    &&& project.preferred_container@ == group.containers[0]
    &&& project.name@ == project_name(group.directory, group.containers[0].path)
}

/// The groups that hold a container.
pub open spec fn inhabited(groups: Seq<GroupView>) -> Seq<GroupView> {
    groups.filter(|g: GroupView| g.containers.len() > 0)
}

fn project_from_group(group: &ContainerGroup) -> (r: Option<XcodeProject>)
    ensures
        match r {
            Some(project) => project_of(project, group@),
            None => group@.containers.len() == 0,
        },
{
    assert(group@.containers.len() == group.containers@.len());
    if group.containers.len() == 0 {
        return None;
    }
    let preferred = group.containers[0].clone();
    assert(group@.containers[0] == preferred@);
    let fallback = match path::file_name(group.directory.as_str()) {
        Some(name) => name,
        None => group.directory.clone(),
    };
    let name = match path::file_stem(preferred.path()) {
        Some(stem) => if stem.as_str().is_empty() {
            fallback
        } else {
            stem
        },
        None => fallback,
    };
    Some(
        XcodeProject {
            id: ProjectId(group.directory.clone()),
            name,
            directory: group.directory.clone(),
            containers: group.containers.clone(),
            preferred_container: preferred,
        },
    )
}

impl Discovery {
    /// The projects found so far, ordered by directory.
    pub fn projects(&self) -> (r: Vec<XcodeProject>)
        ensures
            r@.len() == inhabited(self@.groups).len(),
            forall|i: int|
                0 <= i < r@.len() ==> project_of(#[trigger] r@[i], inhabited(self@.groups)[i]),
    {
        let ghost all = order::views(self.groups@);
        let ghost p = |g: GroupView| g.containers.len() > 0;
        let mut out: Vec<XcodeProject> = Vec::new();
        let mut i: usize = 0;
        assert(all.take(0).filter(p) =~= Seq::empty()) by {
            reveal(Seq::filter);
        }
        while i < self.groups.len()
            invariant
                i <= self.groups@.len(),
                all == order::views(self.groups@),
                p == (|g: GroupView| g.containers.len() > 0),
                out@.len() == all.take(i as int).filter(p).len(),
                forall|j: int|
                    0 <= j < out@.len() ==> project_of(
                        #[trigger] out@[j],
                        all.take(i as int).filter(p)[j],
                    ),
            decreases self.groups@.len() - i,
        {
            assert(all.take(i + 1).drop_last() =~= all.take(i as int));
            assert(all.take(i + 1).last() == self.groups@[i as int]@);
            proof {
                reveal(Seq::filter);
            }
            if let Some(project) = project_from_group(&self.groups[i]) {
                let ghost before = out@;
                out.push(project);
                assert(all.take(i + 1).filter(p) =~= all.take(i as int).filter(p).push(
                    self.groups@[i as int]@,
                ));
                assert forall|j: int| 0 <= j < out@.len() implies project_of(
                    #[trigger] out@[j],
                    all.take(i + 1).filter(p)[j],
                ) by {
                    if j < before.len() {
                        assert(out@[j] == before[j]);
                    }
                }
            }
            i = i + 1;
        }
        assert(all.take(i as int) =~= all);
        out
    }
}

/// A project is called by the file name of its preferred container, without the extension.
pub proof fn projects_are_called_by_their_container(
    directory: Seq<char>,
    above: Seq<char>,
    stem: Seq<char>,
)
    requires
        above.len() > 0,
        path::clean_end(above) == above,
        above.last() != '/',
        stem.len() > 0,
        forall|i: int| 0 <= i < stem.len() ==> stem[i] != '/',
    ensures
        project_name(directory, above + "/"@ + (stem + ".xcodeproj"@)) == stem,
        project_name(directory, above + "/"@ + (stem + ".xcworkspace"@)) == stem,
{
    package_endings();
    reveal_strlit(".");
    reveal_strlit(".xcodeproj");
    reveal_strlit(".xcworkspace");
    let a = stem + ".xcodeproj"@;
    let b = stem + ".xcworkspace"@;
    assert(a =~= stem + "."@ + "xcodeproj"@);
    assert(b =~= stem + "."@ + "xcworkspace"@);
    assert(a.len() > 2 && b.len() > 2);
    assert(seq!['.'].len() == 1 && seq!['.', '.'].len() == 2);
    path::names_stand_below_their_directories(above, a);
    path::names_stand_below_their_directories(above, b);
    path::names_consist_of_stem_and_extension(stem, "xcodeproj"@);
    path::names_consist_of_stem_and_extension(stem, "xcworkspace"@);
}

proof fn walked_roots_wait(roots: Seq<RootView>, from: int, k: int)
    requires
        0 <= from <= k < roots.len(),
    ensures
        root_visits(roots, from).contains((VisitView { root: k, depth: 0, path: roots[k].path }))
            <==> walked_root(roots[k]),
        forall|i: int|
            0 <= i < root_visits(roots, from).len() ==> (#[trigger] root_visits(roots, from)[i]).root
                >= from,
    decreases roots.len() - from,
{
    let rest = root_visits(roots, from + 1);
    let all = root_visits(roots, from);
    let visit = VisitView { root: k, depth: 0, path: roots[k].path };
    if from + 1 < roots.len() {
        walked_roots_wait(roots, from + 1, if from < k {
            k
        } else {
            from + 1
        });
    } else {
        assert(rest =~= Seq::empty());
    }
    assert forall|i: int| 0 <= i < all.len() implies (#[trigger] all[i]).root >= from by {
        if i < rest.len() {
            assert(all[i] == rest[i]);
        }
    }
    if from < k {
        if rest.contains(visit) {
            let i = choose|i: int| 0 <= i < rest.len() && rest[i] == visit;
            assert(all[i] == visit);
        }
        if all.contains(visit) {
            let i = choose|i: int| 0 <= i < all.len() && all[i] == visit;
            assert(all[i].root == k);
            assert(i < rest.len());
            assert(rest[i] == visit);
        }
    } else {
        if walked_root(roots[k]) {
            assert(all[all.len() - 1] == visit);
        } else if all.contains(visit) {
            let i = choose|i: int| 0 <= i < all.len() && all[i] == visit;
            assert(rest[i].root >= from + 1);
        }
    }
}

/// A walk starts with the roots that are directories, neither packages nor hidden: these
/// wait to be read, and no others do.
pub proof fn walks_start_with_plain_roots(
    roots: Seq<RootView>,
    max_depth: int,
    k: int,
    above: Seq<char>,
    name: Seq<char>,
)
    requires
        0 <= k < distinct_roots(roots).len(),
        distinct_roots(roots)[k].path == above + "/"@ + name,
        above.len() > 0,
        path::clean_end(above) == above,
        above.last() != '/',
        name.len() > 0,
        name != seq!['.'],
        name != seq!['.', '.'],
        forall|i: int| 0 <= i < name.len() ==> name[i] != '/',
    ensures
        DiscoveryView::start(roots, max_depth).waiting.contains(
            (VisitView { root: k, depth: 0, path: above + "/"@ + name }),
        ) <==> {
            &&& distinct_roots(roots)[k].is_dir
            &&& name[0] != '.'
            &&& !text::ends_in(name, ".xcworkspace"@)
            &&& !text::ends_in(name, ".xcodeproj"@)
        },
        DiscoveryView::start(roots, max_depth).visited.len() == 0,
{
    let distinct = distinct_roots(roots);
    walked_roots_wait(distinct, 0, k);
    path::names_stand_below_their_directories(above, name);
    if name[0] != '.' {
        package_endings();
        entry_names_end_their_paths(above, name, "xcworkspace"@);
        entry_names_end_their_paths(above, name, "xcodeproj"@);
    }
}

/// A directory is read once from each root: one that was read from the same root already,
/// under whatever path, adds nothing when it is met again, and neither does one that is
/// gone.
pub proof fn directories_are_read_once(walk: DiscoveryView, listing: Listing, i: int)
    requires
        walk.waiting.len() > 0,
        listing is Gone || (0 <= i < walk.visited.len() && walk.visited[i].root
            == walk.waiting.last().root && (listed_path(listing) matches Some(p)
            && path::same_path(walk.visited[i].path, p))),
    ensures
        walk.after(listing).waiting == walk.waiting.drop_last(),
        walk.after(listing).visited == walk.visited,
        walk.after(listing).groups == walk.groups,
{
}

/// A directory that could not be read is noted as read and adds nothing else.
pub proof fn unreadable_directories_add_nothing(walk: DiscoveryView, canonical: String)
    requires
        walk.waiting.len() > 0,
        !seen(walk.visited, walk.waiting.last().root, canonical@),
    ensures
        ({
            let after = walk.after(Listing::Unreadable { canonical });
            &&& after.waiting == walk.waiting.drop_last()
            &&& after.groups == walk.groups
            &&& after.visited.len() == walk.visited.len() + 1
            &&& after.visited.last().path == canonical@
        }),
{
}

proof fn entry_visits_are_directories(
    top: VisitView,
    canonical: Seq<char>,
    entries: Seq<DirectoryEntryView>,
    from: int,
    max_depth: int,
    i: int,
)
    requires
        0 <= from,
        0 <= i < entry_visits(top, canonical, entries, from, max_depth).len(),
    ensures
        exists|k: int|
            0 <= k < entries.len() && (#[trigger] entries[k]).is_dir && entry_visits(
                top,
                canonical,
                entries,
                from,
                max_depth,
            )[i].path == path::joined(canonical, entries[k].name),
    decreases entries.len() - from,
{
    if from < entries.len() {
        let rest = entry_visits(top, canonical, entries, from + 1, max_depth);
        let all = entry_visits(top, canonical, entries, from, max_depth);
        if i < rest.len() {
            entry_visits_are_directories(top, canonical, entries, from + 1, max_depth, i);
            assert(all[i] == rest[i]);
        } else {
            assert(entries[from].is_dir);
        }
    }
}

/// What a step of a walk makes wait are directories among the entries that were read, and
/// nothing else: no file, and no link to a directory.
pub proof fn walks_enter_directories_only(
    walk: DiscoveryView,
    canonical: String,
    entries: Vec<DirectoryEntry>,
    i: int,
)
    requires
        walk.waiting.len() > 0,
        walk.waiting.len() - 1 <= i < walk.after(
            Listing::Read { canonical, entries },
        ).waiting.len(),
    ensures
        exists|k: int|
            0 <= k < entries@.len() && (#[trigger] entries@[k]).is_dir && walk.after(
                Listing::Read { canonical, entries },
            ).waiting[i].path == path::joined(canonical@, entries@[k].name@),
{
    broadcast use vstd::seq_lib::group_to_multiset_ensures;

    let top = walk.waiting.last();
    let all = order::views(entries@);
    let sorted = order::ranked_sort::<DirectoryEntry>(all);
    let more = entry_visits(top, canonical@, sorted, 0, walk.max_depth);
    let next = walk.after(Listing::Read { canonical, entries });
    let at = i - (walk.waiting.len() - 1);
    assert(next.waiting[i] == more[at]);
    entry_visits_are_directories(top, canonical@, sorted, 0, walk.max_depth, at);
    let n = choose|n: int|
        0 <= n < sorted.len() && (#[trigger] sorted[n]).is_dir && more[at].path == path::joined(
            canonical@,
            sorted[n].name,
        );
    order::sorting_orders_and_keeps::<DirectoryEntry>(all);
    assert(sorted.to_multiset().contains(sorted[n]));
    assert(all.contains(sorted[n]));
    let k = choose|k: int| 0 <= k < all.len() && all[k] == sorted[n];
    assert(entries@[k]@ == all[k]);
    assert(entries@[k].is_dir);
}

} // verus!
