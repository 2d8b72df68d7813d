//! Persisted project configuration.
//!
//! The stored form is small and stable: a schema version, project roots, and the
//! last selection for each discovered project. Saving goes through a sibling
//! temporary file, so an interrupted save leaves no partial configuration
//! behind.
use vstd::prelude::*;

use crate::error;
use crate::error::{ErrorCode, SimtopError};
use crate::order;
use crate::path;
use crate::path::paths_equal;
use crate::project::ProjectId;
use crate::text;
use crate::text::{cat2, cat4, decimal_text, same_text, text_before};

pub mod document;
pub mod saving;

verus! {

/// Version of the persisted configuration format.
pub const CONFIG_SCHEMA: u32 = 1;

/// Saved choices for one project.
#[derive(Debug, PartialEq, Eq)]
pub struct SavedProjectSelection {
    /// Path of the chosen workspace or project.
    pub container: String,
    /// Chosen scheme.
    pub scheme: String,
    /// Chosen build configuration.
    pub configuration: String,
    /// UDID of the chosen simulator.
    pub simulator_udid: String,
}

/// The content of a [`SavedProjectSelection`].
#[verifier::ext_equal]
pub struct SavedView {
    pub container: Seq<char>,
    pub scheme: Seq<char>,
    pub configuration: Seq<char>,
    pub simulator_udid: Seq<char>,
}

impl View for SavedProjectSelection {
    type V = SavedView;

    open spec fn view(&self) -> SavedView {
        SavedView {
            container: self.container@,
            scheme: self.scheme@,
            configuration: self.configuration@,
            simulator_udid: self.simulator_udid@,
        }
    }
}

impl Clone for SavedProjectSelection {
    fn clone(&self) -> (r: Self)
        ensures
            r == *self,
    {
        SavedProjectSelection {
            container: self.container.clone(),
            scheme: self.scheme.clone(),
            configuration: self.configuration.clone(),
            simulator_udid: self.simulator_udid.clone(),
        }
    }
}

// ---------------------------------------------------------------------------
// Selections by project
// ---------------------------------------------------------------------------

/// A selection and the project it belongs to.
#[derive(Debug, PartialEq, Eq)]
pub struct SelectionEntry {
    pub project: String,
    pub selection: SavedProjectSelection,
}

impl Clone for SelectionEntry {
    fn clone(&self) -> (r: Self)
        ensures
            r == *self,
    {
        SelectionEntry { project: self.project.clone(), selection: self.selection.clone() }
    }
}

/// The projects of a run of entries.
pub open spec fn projects_of(entries: Seq<SelectionEntry>) -> Seq<Seq<char>> {
    entries.map_values(|e: SelectionEntry| e.project@)
}

/// Whether the `i`th entry is that of a project.
pub open spec fn stands_at(entries: Seq<SelectionEntry>, project: Seq<char>, i: int) -> bool {
    0 <= i < entries.len() && entries[i].project@ == project
}

/// Whether a project has an entry.
pub open spec fn has_entry(entries: Seq<SelectionEntry>, project: Seq<char>) -> bool {
    exists|i: int| stands_at(entries, project, i)
}

/// The position of a project's entry.
pub open spec fn entry_at(entries: Seq<SelectionEntry>, project: Seq<char>) -> int {
    choose|i: int| stands_at(entries, project, i)
}

/// What a run of entries says about each project.
pub open spec fn table_of(entries: Seq<SelectionEntry>) -> Map<Seq<char>, SavedView> {
    Map::new(
        |project: Seq<char>| has_entry(entries, project),
        |project: Seq<char>| entries[entry_at(entries, project)].selection@,
    )
}

/// The last selection of each project. Entries are kept in ascending order of
/// the project.
#[derive(Debug, PartialEq, Eq)]
pub struct Selections {
    entries: Vec<SelectionEntry>,
}

impl View for Selections {
    type V = Map<Seq<char>, SavedView>;

    closed spec fn view(&self) -> Map<Seq<char>, SavedView> {
        table_of(self.entries@)
    }
}

impl Clone for Selections {
    fn clone(&self) -> (r: Self)
        ensures
            r@ == self@,
    {
        proof {
            use_type_invariant(self);
        }
        let entries = self.entries.clone();
        assert(entries@ =~= self.entries@);
        Selections { entries }
    }
}

/// In a run of entries that ascends, each project has one position.
pub proof fn position_is_unique(entries: Seq<SelectionEntry>, i: int)
    requires
        order::ascending(projects_of(entries)),
        0 <= i < entries.len(),
    ensures
        has_entry(entries, entries[i].project@),
        entry_at(entries, entries[i].project@) == i,
{
    let name = entries[i].project@;
    assert(stands_at(entries, name, i));
    let k = entry_at(entries, name);
    assert(stands_at(entries, name, k));
    text::text_lt_irreflexive(name);
    if k < i {
        assert(text::text_lt(projects_of(entries)[k], projects_of(entries)[i]));
    } else if i < k {
        assert(text::text_lt(projects_of(entries)[i], projects_of(entries)[k]));
    }
}

impl Selections {
    #[verifier::type_invariant]
    spec fn sorted(&self) -> bool {
        order::ascending(projects_of(self.entries@))
    }

    /// No selections.
    pub fn new() -> (r: Self)
        ensures
            r@ == Map::<Seq<char>, SavedView>::empty(),
    {
        let r = Selections { entries: Vec::new() };
        assert(r@ =~= Map::<Seq<char>, SavedView>::empty());
        r
    }

    /// The entries, in ascending order of the project.
    pub closed spec fn listed(&self) -> Seq<SelectionEntry> {
        self.entries@
    }

    /// The entries, in ascending order of the project.
    pub fn entries(&self) -> (r: &Vec<SelectionEntry>)
        ensures
            r@ == self.listed(),
            order::ascending(projects_of(r@)),
            self@ == table_of(r@),
    {
        proof {
            use_type_invariant(self);
        }
        &self.entries
    }

    /// Where a project stands, or would stand, and whether it is there.
    fn locate(&self, project: &str) -> (r: (usize, bool))
        ensures
            r.0 <= self.entries@.len(),
            r.1 ==> r.0 < self.entries@.len() && self.entries@[r.0 as int].project@ == project@,
            forall|j: int|
                0 <= j < r.0 ==> text::text_lt(
                    (#[trigger] self.entries@[j]).project@,
                    project@,
                ),
            !r.1 ==> forall|j: int|
                r.0 <= j < self.entries@.len() ==> text::text_lt(
                    project@,
                    (#[trigger] self.entries@[j]).project@,
                ),
    {
        proof {
            use_type_invariant(self);
        }
        let ghost names = projects_of(self.entries@);
        let mut at: usize = 0;
        while at < self.entries.len() && text_before(self.entries[at].project.as_str(), project)
            invariant
                at <= self.entries@.len(),
                forall|j: int|
                    0 <= j < at ==> text::text_lt((#[trigger] self.entries@[j]).project@, project@),
            decreases self.entries@.len() - at,
        {
            at = at + 1;
        }
        if at < self.entries.len() && same_text(self.entries[at].project.as_str(), project) {
            return (at, true);
        }
        proof {
            assert forall|j: int| at <= j < self.entries@.len() implies text::text_lt(
                project@,
                (#[trigger] self.entries@[j]).project@,
            ) by {
                text::text_lt_total(self.entries@[at as int].project@, project@);
                if j > at {
                    assert(text::text_lt(names[at as int], names[j]));
                    text::text_lt_transitive(project@, names[at as int], names[j]);
                }
            }
        }
        (at, false)
    }

    proof fn not_found_is_absent(&self, project: Seq<char>, at: int)
        requires
            forall|j: int|
                0 <= j < at ==> text::text_lt((#[trigger] self.entries@[j]).project@, project),
            forall|j: int|
                at <= j < self.entries@.len() ==> text::text_lt(
                    project,
                    (#[trigger] self.entries@[j]).project@,
                ),
        ensures
            !has_entry(self.entries@, project),
    {
        text::text_lt_irreflexive(project);
        if has_entry(self.entries@, project) {
            let i = entry_at(self.entries@, project);
            assert(stands_at(self.entries@, project, i));
            if i < at {
                assert(text::text_lt(self.entries@[i].project@, project));
            } else {
                assert(text::text_lt(project, self.entries@[i].project@));
            }
        }
    }

    /// The selection of a project.
    pub fn get(&self, project: &str) -> (r: Option<&SavedProjectSelection>)
        ensures
            match r {
                Some(selection) => self@.contains_key(project@) && self@[project@] == selection@,
                None => !self@.contains_key(project@),
            },
    {
        proof {
            use_type_invariant(self);
        }
        let (at, found) = self.locate(project);
        if found {
            proof {
                position_is_unique(self.entries@, at as int);
            }
            Some(&self.entries[at].selection)
        } else {
            proof {
                self.not_found_is_absent(project@, at as int);
            }
            None
        }
    }

    /// Sets the selection of a project and gives back the one it had.
    pub fn insert(&mut self, project: &str, selection: SavedProjectSelection) -> (r: Option<
        SavedProjectSelection,
    >)
        ensures
            final(self)@ == old(self)@.insert(project@, selection@),
            match r {
                Some(replaced) => old(self)@.contains_key(project@) && old(self)@[project@]
                    == replaced@,
                None => !old(self)@.contains_key(project@),
            },
    {
        proof {
            use_type_invariant(&*self);
        }
        let (at, found) = self.locate(project);
        let ghost before = self.entries@;
        proof {
            if found {
                position_is_unique(before, at as int);
            } else {
                self.not_found_is_absent(project@, at as int);
            }
        }
        let mut entries: Vec<SelectionEntry> = Vec::new();
        std::mem::swap(&mut entries, &mut self.entries);
        let replaced = if found {
            let old_entry = entries.remove(at);
            Some(old_entry.selection)
        } else {
            None
        };
        entries.insert(at, SelectionEntry { project: project.to_owned(), selection });
        let ghost after = entries@;
        proof {
            let shift: int = if found {
                0
            } else {
                1
            };
            assert(after.len() == before.len() + shift);
            assert(forall|i: int| 0 <= i < at ==> after[i] == before[i]);
            assert(forall|i: int| at < i < after.len() ==> after[i] == before[i - shift]);
            assert forall|i: int, j: int| 0 <= i < j < after.len() implies text::text_lt(
                #[trigger] projects_of(after)[i],
                #[trigger] projects_of(after)[j],
            ) by {
                let a = if i <= at {
                    i
                } else {
                    i - shift
                };
                let b = if j <= at {
                    j
                } else {
                    j - shift
                };
                if i != at && j != at {
                    assert(text::text_lt(projects_of(before)[a], projects_of(before)[b]));
                } else if j == at {
                    assert(text::text_lt(before[i].project@, project@));
                } else if found {
                    assert(text::text_lt(projects_of(before)[a], projects_of(before)[b]));
                } else {
                    assert(text::text_lt(project@, before[b].project@));
                }
            }
            assert(order::ascending(projects_of(after)));
            replaced_table(before, after, at as int, shift, project@, selection@);
        }
        self.entries = entries;
        replaced
    }

    /// Removes the selection of a project and gives it back.
    pub fn remove(&mut self, project: &str) -> (r: Option<SavedProjectSelection>)
        ensures
            final(self)@ == old(self)@.remove(project@),
            match r {
                Some(removed) => old(self)@.contains_key(project@) && old(self)@[project@]
                    == removed@,
                None => !old(self)@.contains_key(project@),
            },
    {
        proof {
            use_type_invariant(&*self);
        }
        let (at, found) = self.locate(project);
        let ghost before = self.entries@;
        if !found {
            proof {
                self.not_found_is_absent(project@, at as int);
                assert(self@ =~= self@.remove(project@));
            }
            return None;
        }
        proof {
            position_is_unique(before, at as int);
        }
        let mut entries: Vec<SelectionEntry> = Vec::new();
        std::mem::swap(&mut entries, &mut self.entries);
        let removed = entries.remove(at);
        let ghost after = entries@;
        proof {
            assert forall|i: int, j: int| 0 <= i < j < after.len() implies text::text_lt(
                #[trigger] projects_of(after)[i],
                #[trigger] projects_of(after)[j],
            ) by {
                let a = if i < at {
                    i
                } else {
                    i + 1
                };
                let b = if j < at {
                    j
                } else {
                    j + 1
                };
                assert(text::text_lt(projects_of(before)[a], projects_of(before)[b]));
            }
            removed_table(before, after, at as int, project@);
        }
        self.entries = entries;
        Some(removed.selection)
    }
}

proof fn replaced_table(
    before: Seq<SelectionEntry>,
    after: Seq<SelectionEntry>,
    at: int,
    shift: int,
    project: Seq<char>,
    selection: SavedView,
)
    requires
        order::ascending(projects_of(before)),
        order::ascending(projects_of(after)),
        0 <= at < after.len(),
        after.len() == before.len() + shift,
        shift == 0 || shift == 1,
        after[at].project@ == project,
        after[at].selection@ == selection,
        shift == 0 ==> before[at].project@ == project,
        forall|i: int| 0 <= i < at ==> after[i] == before[i],
        forall|i: int| at < i < after.len() ==> after[i] == before[i - shift],
    ensures
        table_of(after) == table_of(before).insert(project, selection),
{
    let old_table = table_of(before);
    let new_table = table_of(after);
    position_is_unique(after, at);
    assert forall|k: Seq<char>| k != project implies #[trigger] has_entry(after, k) == has_entry(
        before,
        k,
    ) && (has_entry(after, k) ==> new_table[k] == old_table[k]) by {
        if has_entry(before, k) {
            let i = entry_at(before, k);
            assert(stands_at(before, k, i));
            let j = if i < at {
                i
            } else {
                i + shift
            };
            assert(after[j] == before[i]);
            position_is_unique(after, j);
        }
        if has_entry(after, k) {
            let j = entry_at(after, k);
            assert(stands_at(after, k, j));
            let i = if j < at {
                j
            } else {
                j - shift
            };
            assert(after[j] == before[i]);
            position_is_unique(before, i);
        }
    }
    assert(new_table.dom() =~= old_table.insert(project, selection).dom());
    assert(new_table =~= old_table.insert(project, selection));
}

proof fn removed_table(
    before: Seq<SelectionEntry>,
    after: Seq<SelectionEntry>,
    at: int,
    project: Seq<char>,
)
    requires
        order::ascending(projects_of(before)),
        order::ascending(projects_of(after)),
        0 <= at < before.len(),
        after == before.remove(at),
        before[at].project@ == project,
    ensures
        table_of(after) == table_of(before).remove(project),
{
    let old_table = table_of(before);
    let new_table = table_of(after);
    assert forall|k: Seq<char>| #[trigger] has_entry(after, k) == (k != project && has_entry(
        before,
        k,
    )) && (has_entry(after, k) ==> new_table[k] == old_table[k]) by {
        if has_entry(before, k) && k != project {
            let i = entry_at(before, k);
            assert(stands_at(before, k, i));
            let j = if i < at {
                i
            } else {
                i - 1
            };
            assert(after[j] == before[i]);
            position_is_unique(after, j);
        }
        if has_entry(after, k) {
            let j = entry_at(after, k);
            assert(stands_at(after, k, j));
            let i = if j < at {
                j
            } else {
                j + 1
            };
            assert(after[j] == before[i]);
            position_is_unique(before, i);
            position_is_unique(before, at);
        }
    }
    assert(new_table.dom() =~= old_table.remove(project).dom());
    assert(new_table =~= old_table.remove(project));
}

// ---------------------------------------------------------------------------
// Paths
// ---------------------------------------------------------------------------

/// `base` with `parts` put behind it, one after the other.
pub open spec fn pushed(base: Seq<char>, parts: Seq<Seq<char>>) -> Seq<char>
    decreases parts.len(),
{
    if parts.len() == 0 {
        base
    } else {
        path::joined(pushed(base, parts.drop_last()), parts.last())
    }
}

/// Where the configuration stands below a home directory.
pub open spec fn path_below(home: Seq<char>) -> Seq<char> {
    path::joined(
        path::joined(
            path::joined(path::joined(home, "Library"@), "Application Support"@),
            "simtop"@,
        ),
        "config.json"@,
    )
}

/// A usable home directory.
pub open spec fn home_of(home: Option<Seq<char>>) -> Option<Seq<char>> {
    match home {
        Some(h) => if h.len() > 0 {
            Some(h)
        } else {
            None
        },
        None => None,
    }
}

/// The text of an optional borrowed text.
pub open spec fn opt_str(o: Option<&str>) -> Option<Seq<char>> {
    match o {
        Some(s) => Some(s@),
        None => None,
    }
}

/// The default configuration path, below the home directory `home`. Without one
/// there is no path: nothing is ever written to the current directory instead.
pub fn default_path(home: Option<&str>) -> (r: Result<String, SimtopError>)
    ensures
        error::outcome(r) == match home_of(opt_str(home)) {
            Some(h) => Ok(path_below(h)),
            None => Err(
                error::failure(
                    ErrorCode::IoError,
                    "HOME is unavailable; cannot determine the simtop configuration path"@,
                ),
            ),
        },
{
    if let Some(h) = home {
        if !h.is_empty() {
            let library = path::join(h, "Library");
            let support = path::join(library.as_str(), "Application Support");
            let directory = path::join(support.as_str(), "simtop");
            return Ok(path::join(directory.as_str(), "config.json"));
        }
    }
    Err(
        SimtopError::new(
            ErrorCode::IoError,
            "HOME is unavailable; cannot determine the simtop configuration path",
        ),
    )
}

/// Whether a path begins with the component `~`.
pub open spec fn starts_at_home(p: Seq<char>) -> bool {
    let parts = path::components_of(p);
    parts.len() > 0 && parts[0] == "~"@
}

/// A path with a leading `~` replaced by the home directory.
pub open spec fn expanded(p: Seq<char>, home: Option<Seq<char>>) -> Result<
    Seq<char>,
    error::Failure,
> {
    if !starts_at_home(p) {
        Ok(p)
    } else {
        match home_of(home) {
            Some(h) => Ok(pushed(h, path::components_of(p).skip(1))),
            None => Err(
                error::failure(
                    ErrorCode::IoError,
                    "HOME is unavailable; cannot expand a project path"@,
                ),
            ),
        }
    }
}

/// Expands a leading `~` or `~/` to the home directory `home`. Other paths,
/// `~other-user` among them, stay as they are.
pub fn expand_leading_tilde(p: &str, home: Option<&str>) -> (r: Result<String, SimtopError>)
    ensures
        error::outcome(r) == expanded(p@, opt_str(home)),
{
    let parts = path::components(p);
    if parts.len() > 0 {
        assert(text::texts(parts@)[0] == parts@[0]@);
    }
    if parts.len() == 0 || !same_text(parts[0].as_str(), "~") {
        return Ok(p.to_owned());
    }
    if let Some(h) = home {
        if !h.is_empty() {
            let ghost rest = text::texts(parts@).skip(1);
            let mut out = h.to_owned();
            let mut i: usize = 1;
            assert(rest.take(0) =~= Seq::empty());
            while i < parts.len()
                invariant
                    1 <= i <= parts@.len(),
                    rest == text::texts(parts@).skip(1),
                    out@ == pushed(h@, rest.take(i - 1)),
                decreases parts@.len() - i,
            {
                assert(rest.take(i as int).drop_last() =~= rest.take(i - 1));
                assert(rest.take(i as int).last() == parts@[i as int]@);
                out = path::join(out.as_str(), parts[i].as_str());
                i = i + 1;
            }
            assert(rest.take(i - 1) =~= rest);
            return Ok(out);
        }
    }
    Err(SimtopError::new(ErrorCode::IoError, "HOME is unavailable; cannot expand a project path"))
}

/// The canonical form of a project root: what `canonical` reports for the
/// expanded path.
pub open spec fn canonical_root(
    p: Seq<char>,
    home: Option<Seq<char>>,
    canonical: Result<Seq<char>, Seq<char>>,
) -> Result<Seq<char>, error::Failure> {
    match expanded(p, home) {
        Err(e) => Err(e),
        Ok(full) => match canonical {
            Ok(found) => Ok(found),
            Err(error) => Err(
                error::failure_from(
                    ErrorCode::IoError,
                    "failed to canonicalize project root "@ + full,
                    error,
                ),
            ),
        },
    }
}

/// The texts of a result.
pub open spec fn text_result(r: Result<String, String>) -> Result<Seq<char>, Seq<char>> {
    match r {
        Ok(s) => Ok(s@),
        Err(e) => Err(e@),
    }
}

/// The canonical form of an existing project root. `canonical` is what
/// canonicalising the expanded path gave: the path, or the error.
pub fn canonical_project_root(
    p: &str,
    home: Option<&str>,
    canonical: Result<String, String>,
) -> (r: Result<String, SimtopError>)
    ensures
        error::outcome(r) == canonical_root(p@, opt_str(home), text_result(canonical)),
{
    match expand_leading_tilde(p, home) {
        Err(e) => Err(e),
        Ok(full) => match canonical {
            Ok(found) => Ok(found),
            Err(error) => Err(
                SimtopError::with_source(
                    ErrorCode::IoError,
                    cat2("failed to canonicalize project root ", full.as_str()).as_str(),
                    error.as_str(),
                ),
            ),
        },
    }
}

/// The normal form of a project root: the canonical path, or the expanded one
/// when nothing is there.
pub open spec fn normal_root(
    p: Seq<char>,
    home: Option<Seq<char>>,
    canonical: Option<Seq<char>>,
) -> Result<Seq<char>, error::Failure> {
    match expanded(p, home) {
        Err(e) => Err(e),
        Ok(full) => match canonical {
            Some(found) => Ok(found),
            None => Ok(full),
        },
    }
}

/// The normal form of a project root; `canonical` is the canonical path of the
/// expanded root, when it has one.
pub fn normalize_project_root(p: &str, home: Option<&str>, canonical: Option<&str>) -> (r: Result<
    String,
    SimtopError,
>)
    ensures
        error::outcome(r) == normal_root(p@, opt_str(home), opt_str(canonical)),
{
    match expand_leading_tilde(p, home) {
        Err(e) => Err(e),
        Ok(full) => match canonical {
            Some(found) => Ok(found.to_owned()),
            None => Ok(full),
        },
    }
}

/// What a list of optional texts says at a position; nothing beyond its end.
pub open spec fn listed_at(list: Seq<Option<String>>, i: int) -> Option<Seq<char>> {
    if 0 <= i < list.len() {
        text::opt_text(list[i])
    } else {
        None
    }
}

/// The normal forms of the first `n` roots; the first root without one gives
/// the error.
pub open spec fn normal_roots(
    roots: Seq<Seq<char>>,
    home: Option<Seq<char>>,
    canonical: Seq<Option<String>>,
    n: int,
) -> Result<Seq<Seq<char>>, error::Failure>
    decreases n,
{
    if n <= 0 {
        Ok(Seq::empty())
    } else {
        match normal_roots(roots, home, canonical, n - 1) {
            Err(e) => Err(e),
            Ok(rest) => match normal_root(roots[n - 1], home, listed_at(canonical, n - 1)) {
                Err(e) => Err(e),
                Ok(root) => Ok(rest.push(root)),
            },
        }
    }
}

/// Whether a path is among others.
pub open spec fn has_path(paths: Seq<Seq<char>>, p: Seq<char>) -> bool {
    exists|i: int| 0 <= i < paths.len() && path::same_path(#[trigger] paths[i], p)
}

/// The first occurrence of each path.
pub open spec fn first_occurrences(paths: Seq<Seq<char>>) -> Seq<Seq<char>>
    decreases paths.len(),
{
    if paths.len() == 0 {
        Seq::empty()
    } else {
        let rest = first_occurrences(paths.drop_last());
        if has_path(rest, paths.last()) {
            rest
        } else {
            rest.push(paths.last())
        }
    }
}

/// The paths with `p`, unless it is among them.
pub open spec fn with_path(paths: Seq<Seq<char>>, p: Seq<char>) -> Seq<Seq<char>> {
    if has_path(paths, p) {
        paths
    } else {
        paths.push(p)
    }
}

/// The paths other than `p`.
pub open spec fn without_path(paths: Seq<Seq<char>>, p: Seq<char>) -> Seq<Seq<char>>
    decreases paths.len(),
{
    if paths.len() == 0 {
        Seq::empty()
    } else {
        let rest = without_path(paths.drop_last(), p);
        if path::same_path(paths.last(), p) {
            rest
        } else {
            rest.push(paths.last())
        }
    }
}

/// Whether no path occurs twice.
pub open spec fn paths_distinct(paths: Seq<Seq<char>>) -> bool {
    forall|i: int, j: int|
        0 <= i < j < paths.len() ==> !path::same_path(#[trigger] paths[i], #[trigger] paths[j])
}

fn contains_path(paths: &Vec<String>, p: &str) -> (r: bool)
    ensures
        r == has_path(text::texts(paths@), p@),
{
    let ghost all = text::texts(paths@);
    let mut i: usize = 0;
    while i < paths.len()
        invariant
            i <= paths@.len(),
            all == text::texts(paths@),
            forall|j: int| 0 <= j < i ==> !path::same_path(#[trigger] all[j], p@),
        decreases paths@.len() - i,
    {
        assert(all[i as int] == paths@[i as int]@);
        if paths_equal(paths[i].as_str(), p) {
            return true;
        }
        i = i + 1;
    }
    false
}

proof fn first_occurrences_grow(paths: Seq<Seq<char>>, p: Seq<char>)
    ensures
        first_occurrences(paths.push(p)) == if has_path(first_occurrences(paths), p) {
            first_occurrences(paths)
        } else {
            first_occurrences(paths).push(p)
        },
{
    assert(paths.push(p).drop_last() =~= paths);
}

// ---------------------------------------------------------------------------
// The configuration
// ---------------------------------------------------------------------------

/// Project roots and project selections.
#[derive(Debug, PartialEq, Eq)]
pub struct Config {
    /// Version of the persisted form.
    pub schema: u32,
    /// Directories in which Xcode projects are discovered.
    pub project_roots: Vec<String>,
    /// The last selection of each project, by its identity.
    pub project_selections: Selections,
}

/// The content of a [`Config`].
#[verifier::ext_equal]
pub struct ConfigView {
    pub schema: u32,
    pub project_roots: Seq<Seq<char>>,
    pub project_selections: Map<Seq<char>, SavedView>,
}

impl View for Config {
    type V = ConfigView;

    open spec fn view(&self) -> ConfigView {
        ConfigView {
            schema: self.schema,
            project_roots: text::texts(self.project_roots@),
            project_selections: self.project_selections@,
        }
    }
}

impl Clone for Config {
    fn clone(&self) -> (r: Self)
        ensures
            r@ == self@,
    {
        Config {
            schema: self.schema,
            project_roots: self.project_roots.clone(),
            project_selections: self.project_selections.clone(),
        }
    }
}

/// The configuration of a first run.
pub open spec fn initial() -> ConfigView {
    ConfigView {
        schema: CONFIG_SCHEMA,
        project_roots: Seq::empty(),
        project_selections: Map::empty(),
    }
}

impl Default for Config {
    fn default() -> (r: Self)
        ensures
            r@ == initial(),
    {
        let r = Config {
            schema: CONFIG_SCHEMA,
            project_roots: Vec::new(),
            project_selections: Selections::new(),
        };
        assert(r@ =~= initial());
        r
    }
}

/// What reading a configuration file gave.
#[derive(Debug, PartialEq, Eq)]
pub enum ConfigFile {
    /// There is no file.
    Missing,
    /// The file could not be read.
    Unreadable { error: String },
    /// The file holds no configuration.
    Malformed { error: String },
    /// What the file holds.
    Parsed(Config),
}

/// The error about a schema other than [`CONFIG_SCHEMA`].
pub open spec fn bad_schema(schema: u32) -> error::Failure {
    error::failure(
        ErrorCode::ParseError,
        "unsupported configuration schema "@ + text::decimal(schema as nat) + "; expected "@
            + text::decimal(CONFIG_SCHEMA as nat),
    )
}

/// What reading the configuration at a path gives.
pub open spec fn loaded(path: Seq<char>, file: ConfigFile) -> Result<ConfigView, error::Failure> {
    match file {
        ConfigFile::Missing => Ok(initial()),
        ConfigFile::Unreadable { error } => Err(
            error::failure_from(
                ErrorCode::IoError,
                "failed to read configuration "@ + path,
                error@,
            ),
        ),
        ConfigFile::Malformed { error } => Err(error::failure(ErrorCode::ParseError, error@)),
        ConfigFile::Parsed(config) => if config.schema == CONFIG_SCHEMA {
            Ok(config@)
        } else {
            Err(bad_schema(config.schema))
        },
    }
}

impl Config {
    /// The default configuration path, below the home directory `home`.
    pub fn default_path(home: Option<&str>) -> (r: Result<String, SimtopError>)
        ensures
            error::outcome(r) == match home_of(opt_str(home)) {
                Some(h) => Ok(path_below(h)),
                None => Err(
                    error::failure(
                        ErrorCode::IoError,
                        "HOME is unavailable; cannot determine the simtop configuration path"@,
                    ),
                ),
            },
    {
        default_path(home)
    }

    /// Checks that the persisted form is the one this library knows.
    pub fn validate_schema(&self) -> (r: Result<(), SimtopError>)
        ensures
            match r {
                Ok(_) => self.schema == CONFIG_SCHEMA,
                Err(e) => self.schema != CONFIG_SCHEMA && e@ == bad_schema(self.schema),
            },
    {
        if self.schema != CONFIG_SCHEMA {
            return Err(
                SimtopError::new(
                    ErrorCode::ParseError,
                    cat4(
                        "unsupported configuration schema ",
                        decimal_text(self.schema as u64).as_str(),
                        "; expected ",
                        decimal_text(CONFIG_SCHEMA as u64).as_str(),
                    ).as_str(),
                ),
            );
        }
        Ok(())
    }

    /// The configuration in the file at `path`. Without a file it is that of a
    /// first run; a file has to hold a configuration with the known schema.
    pub fn load(path: &str, file: ConfigFile) -> (r: Result<Self, SimtopError>)
        ensures
            error::outcome(r) == loaded(path@, file),
            match file {
                ConfigFile::Missing => r matches Ok(config) && config@ == initial(),
                ConfigFile::Unreadable { error } => r matches Err(e) && e@ == error::failure_from(
                    ErrorCode::IoError,
                    "failed to read configuration "@ + path@,
                    error@,
                ),
                ConfigFile::Malformed { error } => r matches Err(e) && e@ == error::failure(
                    ErrorCode::ParseError,
                    error@,
                ),
                ConfigFile::Parsed(config) => if config.schema == CONFIG_SCHEMA {
                    r == Ok::<Config, SimtopError>(config)
                } else {
                    r matches Err(e) && e@ == bad_schema(config.schema)
                },
            },
    {
        match file {
            ConfigFile::Missing => Ok(Config::default()),
            ConfigFile::Unreadable { error } => Err(
                SimtopError::with_source(
                    ErrorCode::IoError,
                    cat2("failed to read configuration ", path).as_str(),
                    error.as_str(),
                ),
            ),
            ConfigFile::Malformed { error } => Err(SimtopError::from_json(error.as_str())),
            ConfigFile::Parsed(config) => match config.validate_schema() {
                Ok(_) => Ok(config),
                Err(e) => Err(e),
            },
        }
    }

    /// The last selection of a discovered project.
    pub fn selection(&self, project_id: &ProjectId) -> (r: Option<&SavedProjectSelection>)
        ensures
            match r {
                Some(selection) => self@.project_selections.contains_key(project_id.0@)
                    && self@.project_selections[project_id.0@] == selection@,
                None => !self@.project_selections.contains_key(project_id.0@),
            },
    {
        self.project_selections.get(project_id.as_str())
    }

    /// The last selection of a discovered project.
    pub fn lookup_selection(&self, project_id: &ProjectId) -> (r: Option<&SavedProjectSelection>)
        ensures
            match r {
                Some(selection) => self@.project_selections.contains_key(project_id.0@)
                    && self@.project_selections[project_id.0@] == selection@,
                None => !self@.project_selections.contains_key(project_id.0@),
            },
    {
        self.selection(project_id)
    }

    /// Replaces the selection of a project and gives back the one it had.
    pub fn update_selection(
        &mut self,
        project_id: &ProjectId,
        selection: SavedProjectSelection,
    ) -> (r: Option<SavedProjectSelection>)
        ensures
            final(self)@ == (ConfigView {
                project_selections: old(self)@.project_selections.insert(
                    project_id.0@,
                    selection@,
                ),
                ..old(self)@
            }),
            match r {
                Some(replaced) => old(self)@.project_selections.contains_key(project_id.0@)
                    && old(self)@.project_selections[project_id.0@] == replaced@,
                None => !old(self)@.project_selections.contains_key(project_id.0@),
            },
    {
        self.project_selections.insert(project_id.as_str(), selection)
    }

    /// Removes the selection of a project and gives it back.
    pub fn remove_selection(&mut self, project_id: &ProjectId) -> (r: Option<
        SavedProjectSelection,
    >)
        ensures
            final(self)@ == (ConfigView {
                project_selections: old(self)@.project_selections.remove(project_id.0@),
                ..old(self)@
            }),
            match r {
                Some(removed) => old(self)@.project_selections.contains_key(project_id.0@)
                    && old(self)@.project_selections[project_id.0@] == removed@,
                None => !old(self)@.project_selections.contains_key(project_id.0@),
            },
    {
        self.project_selections.remove(project_id.as_str())
    }

    /// Brings the project roots into normal form and keeps the first occurrence
    /// of each. `canonical` gives, root by root, the canonical path of the
    /// expanded root, when it has one; a root that is not there stays in its
    /// expanded form, so that it can still be shown and removed. When a root has
    /// no normal form, the configuration is left without roots.
    pub fn deduplicate_project_roots(
        &mut self,
        home: Option<&str>,
        canonical: &Vec<Option<String>>,
    ) -> (r: Result<(), SimtopError>)
        ensures
            match normal_roots(
                old(self)@.project_roots,
                opt_str(home),
                canonical@,
                old(self)@.project_roots.len() as int,
            ) {
                Ok(roots) => r is Ok && final(self)@ == (ConfigView {
                    project_roots: first_occurrences(roots),
                    ..old(self)@
                }),
                Err(error) => r matches Err(e) && e@ == error && final(self)@ == (ConfigView {
                    project_roots: Seq::empty(),
                    ..old(self)@
                }),
            },
    {
        let ghost all = self@.project_roots;
        let mut roots: Vec<String> = Vec::new();
        std::mem::swap(&mut roots, &mut self.project_roots);
        assert(text::texts(self.project_roots@) =~= Seq::empty());
        let ghost mut normal: Seq<Seq<char>> = Seq::empty();
        let mut kept: Vec<String> = Vec::new();
        assert(text::texts(kept@) =~= first_occurrences(normal));
        let mut i: usize = 0;
        while i < roots.len()
            invariant
                i <= roots@.len(),
                all == text::texts(roots@),
                all == old(self)@.project_roots,
                normal_roots(all, opt_str(home), canonical@, i as int) == Ok::<
                    Seq<Seq<char>>,
                    error::Failure,
                >(normal),
                text::texts(kept@) == first_occurrences(normal),
                self@ == (ConfigView { project_roots: Seq::empty(), ..old(self)@ }),
            decreases roots@.len() - i,
        {
            assert(all[i as int] == roots@[i as int]@);
            let found = if i < canonical.len() {
                match &canonical[i] {
                    Some(p) => Some(p.as_str()),
                    None => None,
                }
            } else {
                None
            };
            assert(opt_str(found) == listed_at(canonical@, i as int));
            match normalize_project_root(roots[i].as_str(), home, found) {
                Err(e) => {
                    proof {
                        errors_stay(all, opt_str(home), canonical@, i + 1, all.len() as int);
                    }
                    return Err(e);
                },
                Ok(root) => {
                    proof {
                        first_occurrences_grow(normal, root@);
                        normal = normal.push(root@);
                    }
                    if !contains_path(&kept, root.as_str()) {
                        let ghost before = kept@;
                        kept.push(root);
                        assert(text::texts(kept@) =~= text::texts(before).push(root@));
                    }
                },
            }
            i = i + 1;
        }
        self.project_roots = kept;
        Ok(())
    }

    /// Adds a project root, as [`Config::add_project_root`] does.
    pub fn add_root(
        &mut self,
        root: &str,
        canonical: Result<String, String>,
        home: Option<&str>,
        canonical_roots: &Vec<Option<String>>,
    ) -> (r: Result<bool, SimtopError>)
        ensures
            match normal_roots(
                old(self)@.project_roots,
                opt_str(home),
                canonical_roots@,
                old(self)@.project_roots.len() as int,
            ) {
                Err(error) => r matches Err(e) && e@ == error && final(self)@ == (ConfigView {
                    project_roots: Seq::empty(),
                    ..old(self)@
                }),
                Ok(roots) => match canonical_root(root@, opt_str(home), text_result(canonical)) {
                    Err(error) => r matches Err(e) && e@ == error && final(self)@ == (ConfigView {
                        project_roots: first_occurrences(roots),
                        ..old(self)@
                    }),
                    Ok(found) => {
                        let known = has_path(first_occurrences(roots), found);
                        &&& r matches Ok(added) && added == !known
                        &&& final(self)@ == (ConfigView {
                            project_roots: with_path(first_occurrences(roots), found),
                            ..old(self)@
                        })
                    },
                },
            },
    {
        self.add_project_root(root, canonical, home, canonical_roots)
    }

    /// Removes a project root, as [`Config::remove_project_root`] does.
    pub fn remove_root(
        &mut self,
        root: &str,
        canonical: Option<&str>,
        home: Option<&str>,
        canonical_roots: &Vec<Option<String>>,
    ) -> (r: Result<bool, SimtopError>)
        ensures
            match normal_roots(
                old(self)@.project_roots,
                opt_str(home),
                canonical_roots@,
                old(self)@.project_roots.len() as int,
            ) {
                Err(error) => r matches Err(e) && e@ == error && final(self)@ == (ConfigView {
                    project_roots: Seq::empty(),
                    ..old(self)@
                }),
                Ok(roots) => match normal_root(root@, opt_str(home), opt_str(canonical)) {
                    Err(error) => r matches Err(e) && e@ == error && final(self)@ == (ConfigView {
                        project_roots: first_occurrences(roots),
                        ..old(self)@
                    }),
                    Ok(found) => {
                        &&& r matches Ok(removed) && removed == has_path(
                            first_occurrences(roots),
                            found,
                        )
                        &&& final(self)@ == (ConfigView {
                            project_roots: without_path(first_occurrences(roots), found),
                            ..old(self)@
                        })
                    },
                },
            },
    {
        self.remove_project_root(root, canonical, home, canonical_roots)
    }

    /// Adds a project root in canonical form, unless it is there. `canonical` is
    /// what canonicalising the expanded root gave; `canonical_roots` is as in
    /// [`Config::deduplicate_project_roots`], which comes first.
    pub fn add_project_root(
        &mut self,
        root: &str,
        canonical: Result<String, String>,
        home: Option<&str>,
        canonical_roots: &Vec<Option<String>>,
    ) -> (r: Result<bool, SimtopError>)
        ensures
            match normal_roots(
                old(self)@.project_roots,
                opt_str(home),
                canonical_roots@,
                old(self)@.project_roots.len() as int,
            ) {
                Err(error) => r matches Err(e) && e@ == error && final(self)@ == (ConfigView {
                    project_roots: Seq::empty(),
                    ..old(self)@
                }),
                Ok(roots) => match canonical_root(root@, opt_str(home), text_result(canonical)) {
                    Err(error) => r matches Err(e) && e@ == error && final(self)@ == (ConfigView {
                        project_roots: first_occurrences(roots),
                        ..old(self)@
                    }),
                    Ok(found) => {
                        let known = has_path(first_occurrences(roots), found);
                        &&& r matches Ok(added) && added == !known
                        &&& final(self)@ == (ConfigView {
                            project_roots: with_path(first_occurrences(roots), found),
                            ..old(self)@
                        })
                    },
                },
            },
    {
        match self.deduplicate_project_roots(home, canonical_roots) {
            Err(e) => {
                return Err(e);
            },
            Ok(_) => {},
        }
        match canonical_project_root(root, home, canonical) {
            Err(e) => Err(e),
            Ok(found) => {
                if contains_path(&self.project_roots, found.as_str()) {
                    return Ok(false);
                }
                let ghost before = self.project_roots@;
                self.project_roots.push(found);
                assert(text::texts(self.project_roots@) =~= text::texts(before).push(found@));
                Ok(true)
            },
        }
    }

    /// Removes a project root, after bringing it and the saved ones into normal
    /// form. A root that is not there any more can be removed too.
    pub fn remove_project_root(
        &mut self,
        root: &str,
        canonical: Option<&str>,
        home: Option<&str>,
        canonical_roots: &Vec<Option<String>>,
    ) -> (r: Result<bool, SimtopError>)
        ensures
            match normal_roots(
                old(self)@.project_roots,
                opt_str(home),
                canonical_roots@,
                old(self)@.project_roots.len() as int,
            ) {
                Err(error) => r matches Err(e) && e@ == error && final(self)@ == (ConfigView {
                    project_roots: Seq::empty(),
                    ..old(self)@
                }),
                Ok(roots) => match normal_root(root@, opt_str(home), opt_str(canonical)) {
                    Err(error) => r matches Err(e) && e@ == error && final(self)@ == (ConfigView {
                        project_roots: first_occurrences(roots),
                        ..old(self)@
                    }),
                    Ok(found) => {
                        &&& r matches Ok(removed) && removed == has_path(
                            first_occurrences(roots),
                            found,
                        )
                        &&& final(self)@ == (ConfigView {
                            project_roots: without_path(first_occurrences(roots), found),
                            ..old(self)@
                        })
                    },
                },
            },
    {
        match self.deduplicate_project_roots(home, canonical_roots) {
            Err(e) => {
                return Err(e);
            },
            Ok(_) => {},
        }
        let found = match normalize_project_root(root, home, canonical) {
            Err(e) => {
                return Err(e);
            },
            Ok(found) => found,
        };
        let ghost all = self@.project_roots;
        let mut roots: Vec<String> = Vec::new();
        std::mem::swap(&mut roots, &mut self.project_roots);
        let mut kept: Vec<String> = Vec::new();
        let mut removed = false;
        let mut i: usize = 0;
        assert(all.take(0) =~= Seq::empty());
        assert(text::texts(kept@) =~= Seq::empty());
        while i < roots.len()
            invariant
                i <= roots@.len(),
                all == text::texts(roots@),
                text::texts(kept@) == without_path(all.take(i as int), found@),
                removed == exists|j: int|
                    0 <= j < i && path::same_path(#[trigger] all[j], found@),
                self.schema == old(self).schema,
                self.project_selections@ == old(self).project_selections@,
            decreases roots@.len() - i,
        {
            assert(all.take(i + 1).drop_last() =~= all.take(i as int));
            assert(all.take(i + 1).last() == roots@[i as int]@);
            assert(all[i as int] == roots@[i as int]@);
            if paths_equal(roots[i].as_str(), found.as_str()) {
                removed = true;
            } else {
                let ghost before = kept@;
                kept.push(roots[i].clone());
                assert(text::texts(kept@) =~= text::texts(before).push(all[i as int]));
            }
            i = i + 1;
        }
        assert(all.take(i as int) =~= all);
        self.project_roots = kept;
        Ok(removed)
    }
}

proof fn errors_stay(
    roots: Seq<Seq<char>>,
    home: Option<Seq<char>>,
    canonical: Seq<Option<String>>,
    i: int,
    n: int,
)
    requires
        i <= n,
        normal_roots(roots, home, canonical, i) is Err,
    ensures
        normal_roots(roots, home, canonical, n) == normal_roots(roots, home, canonical, i),
    decreases n - i,
{
    if i < n && n > 0 {
        errors_stay(roots, home, canonical, i, n - 1);
    }
}

proof fn first_occurrences_are_distinct(paths: Seq<Seq<char>>)
    ensures
        paths_distinct(first_occurrences(paths)),
    decreases paths.len(),
{
    if paths.len() > 0 {
        let rest = first_occurrences(paths.drop_last());
        let all = first_occurrences(paths);
        first_occurrences_are_distinct(paths.drop_last());
        assert forall|i: int, j: int| 0 <= i < j < all.len() implies !path::same_path(
            #[trigger] all[i],
            #[trigger] all[j],
        ) by {
            assert(all[i] == rest[i]);
            if j < rest.len() {
                assert(all[j] == rest[j]);
            }
        }
    }
}

proof fn first_occurrences_of_distinct(paths: Seq<Seq<char>>)
    requires
        paths_distinct(paths),
    ensures
        first_occurrences(paths) == paths,
    decreases paths.len(),
{
    if paths.len() > 0 {
        let rest = paths.drop_last();
        assert forall|i: int, j: int| 0 <= i < j < rest.len() implies !path::same_path(
            #[trigger] rest[i],
            #[trigger] rest[j],
        ) by {
            assert(!path::same_path(paths[i], paths[j]));
        }
        first_occurrences_of_distinct(rest);
        if has_path(rest, paths.last()) {
            let i = choose|i: int|
                0 <= i < rest.len() && path::same_path(#[trigger] rest[i], paths.last());
            assert(!path::same_path(paths[i], paths[paths.len() - 1]));
        }
        assert(paths =~= rest.push(paths.last()));
    }
}

proof fn first_occurrences_keep_all(paths: Seq<Seq<char>>, p: Seq<char>)
    ensures
        has_path(first_occurrences(paths), p) == has_path(paths, p),
    decreases paths.len(),
{
    if paths.len() > 0 {
        let rest = paths.drop_last();
        let before = first_occurrences(rest);
        let after = first_occurrences(paths);
        first_occurrences_keep_all(rest, p);
        if has_path(paths, p) {
            let i = choose|i: int| 0 <= i < paths.len() && path::same_path(#[trigger] paths[i], p);
            if i < rest.len() {
                assert(path::same_path(rest[i], p));
                let k = choose|k: int|
                    0 <= k < before.len() && path::same_path(#[trigger] before[k], p);
                assert(after[k] == before[k]);
            } else if has_path(before, paths.last()) {
                let k = choose|k: int|
                    0 <= k < before.len() && path::same_path(#[trigger] before[k], paths.last());
                assert(path::same_path(after[k], p));
            } else {
                assert(after[before.len() as int] == paths.last());
            }
        }
        if has_path(after, p) {
            let k = choose|k: int| 0 <= k < after.len() && path::same_path(#[trigger] after[k], p);
            if k < before.len() {
                assert(path::same_path(before[k], p));
                let i = choose|i: int|
                    0 <= i < rest.len() && path::same_path(#[trigger] rest[i], p);
                assert(paths[i] == rest[i]);
            } else {
                assert(paths[paths.len() - 1] == after[k]);
            }
        }
    }
}

/// Keeping first occurrences leaves no path twice, loses none, and changes
/// nothing when done again.
pub proof fn roots_are_duplicate_free(roots: Seq<Seq<char>>, p: Seq<char>)
    ensures
        paths_distinct(first_occurrences(roots)),
        has_path(first_occurrences(roots), p) == has_path(roots, p),
        first_occurrences(first_occurrences(roots)) == first_occurrences(roots),
{
    first_occurrences_are_distinct(roots);
    first_occurrences_keep_all(roots, p);
    first_occurrences_of_distinct(first_occurrences(roots));
}

/// A root that was added is there and the roots stay free of duplicates.
pub proof fn added_roots_are_present(roots: Seq<Seq<char>>, p: Seq<char>)
    requires
        paths_distinct(roots),
        !has_path(roots, p),
    ensures
        has_path(roots.push(p), p),
        paths_distinct(roots.push(p)),
{
    let after = roots.push(p);
    assert(path::same_path(after[roots.len() as int], p));
    assert forall|i: int, j: int| 0 <= i < j < after.len() implies !path::same_path(
        #[trigger] after[i],
        #[trigger] after[j],
    ) by {
        assert(after[i] == roots[i]);
        if j < roots.len() {
            assert(after[j] == roots[j]);
        }
    }
}

/// The roots after a root was added: those that were there are brought into normal
/// form first.
pub open spec fn roots_with(
    roots: Seq<Seq<char>>,
    home: Option<Seq<char>>,
    canonical: Seq<Option<String>>,
    found: Seq<char>,
) -> Option<Seq<Seq<char>>> {
    match normal_roots(roots, home, canonical, roots.len() as int) {
        Ok(normal) => Some(with_path(first_occurrences(normal), found)),
        Err(_) => None,
    }
}

/// The roots after a root was removed.
pub open spec fn roots_without(
    roots: Seq<Seq<char>>,
    home: Option<Seq<char>>,
    canonical: Seq<Option<String>>,
    found: Seq<char>,
) -> Option<Seq<Seq<char>>> {
    match normal_roots(roots, home, canonical, roots.len() as int) {
        Ok(normal) => Some(without_path(first_occurrences(normal), found)),
        Err(_) => None,
    }
}

/// Whether roots are in normal form, with what is found on disk.
pub open spec fn in_normal_form(
    roots: Seq<Seq<char>>,
    home: Option<Seq<char>>,
    canonical: Seq<Option<String>>,
) -> bool {
    normal_roots(roots, home, canonical, roots.len() as int) == Ok::<
        Seq<Seq<char>>,
        error::Failure,
    >(roots)
}

proof fn without_a_missing_path(roots: Seq<Seq<char>>, p: Seq<char>)
    requires
        !has_path(roots, p),
    ensures
        without_path(roots, p) == roots,
    decreases roots.len(),
{
    if roots.len() > 0 {
        let rest = roots.drop_last();
        assert forall|i: int| 0 <= i < rest.len() implies !path::same_path(
            #[trigger] rest[i],
            p,
        ) by {
            assert(rest[i] == roots[i]);
        }
        without_a_missing_path(rest, p);
        assert(!path::same_path(roots[roots.len() - 1], p));
        assert(roots =~= rest.push(roots.last()));
    }
}

/// Adding a root twice adds it once, and adding a new root and removing it again
/// leaves the roots as they were in normal form. In between, the roots on disk stay
/// as they are.
pub proof fn roots_are_added_once_and_taken_back(
    roots: Seq<Seq<char>>,
    home: Option<Seq<char>>,
    canonical: Seq<Option<String>>,
    later: Seq<Option<String>>,
    found: Seq<char>,
)
    requires
        roots_with(roots, home, canonical, found) matches Some(after) && in_normal_form(
            after,
            home,
            later,
        ),
    ensures
        ({
            let after = roots_with(roots, home, canonical, found)->0;
            let before = first_occurrences(
                normal_roots(roots, home, canonical, roots.len() as int)->Ok_0,
            );
            &&& roots_with(after, home, later, found) == Some(after)
            &&& has_path(after, found)
            &&& !has_path(before, found) ==> roots_without(after, home, later, found) == Some(
                before,
            )
        }),
{
    let normal = normal_roots(roots, home, canonical, roots.len() as int)->Ok_0;
    let before = first_occurrences(normal);
    let after = with_path(before, found);
    first_occurrences_are_distinct(normal);
    if !has_path(before, found) {
        added_roots_are_present(before, found);
        without_a_missing_path(before, found);
        assert(after.drop_last() =~= before);
        assert(path::same_path(found, found));
    }
    first_occurrences_of_distinct(after);
}

/// A root that was removed is not there any more, and every other root is.
pub proof fn removed_roots_are_absent(roots: Seq<Seq<char>>, p: Seq<char>, q: Seq<char>)
    ensures
        !has_path(without_path(roots, p), p),
        !path::same_path(q, p) ==> has_path(without_path(roots, p), q) == has_path(roots, q),
    decreases roots.len(),
{
    if roots.len() > 0 {
        let rest = roots.drop_last();
        let before = without_path(rest, p);
        let after = without_path(roots, p);
        removed_roots_are_absent(rest, p, q);
        if has_path(after, p) {
            let k = choose|k: int| 0 <= k < after.len() && path::same_path(#[trigger] after[k], p);
            if k < before.len() {
                assert(path::same_path(before[k], p));
            }
        }
        if !path::same_path(q, p) {
            if has_path(roots, q) {
                let i = choose|i: int|
                    0 <= i < roots.len() && path::same_path(#[trigger] roots[i], q);
                if i < rest.len() {
                    assert(path::same_path(rest[i], q));
                    let k = choose|k: int|
                        0 <= k < before.len() && path::same_path(#[trigger] before[k], q);
                    assert(after[k] == before[k]);
                } else {
                    assert(after[before.len() as int] == roots.last());
                }
            }
            if has_path(after, q) {
                let k = choose|k: int|
                    0 <= k < after.len() && path::same_path(#[trigger] after[k], q);
                if k < before.len() {
                    assert(path::same_path(before[k], q));
                    let i = choose|i: int|
                        0 <= i < rest.len() && path::same_path(#[trigger] rest[i], q);
                    assert(roots[i] == rest[i]);
                } else {
                    assert(roots[roots.len() - 1] == after[k]);
                }
            }
        }
    }
}

/// A saved selection is found until it is replaced or removed, and the
/// selections of other projects are left alone.
pub proof fn selections_are_kept_by_project(
    table: Map<Seq<char>, SavedView>,
    project: Seq<char>,
    selection: SavedView,
    other: Seq<char>,
)
    requires
        other != project,
    ensures
        table.insert(project, selection).contains_key(project),
        table.insert(project, selection)[project] == selection,
        !table.remove(project).contains_key(project),
        table.insert(project, selection).contains_key(other) == table.contains_key(other),
        table.contains_key(other) ==> table.insert(project, selection)[other] == table[other],
        table.remove(project).contains_key(other) == table.contains_key(other),
        table.contains_key(other) ==> table.remove(project)[other] == table[other],
        table.insert(project, selection).remove(project) == table.remove(project),
{
    assert(table.insert(project, selection).remove(project) =~= table.remove(project));
}

/// The configuration stands at a fixed place below the home directory.
pub proof fn configurations_stand_below_home(home: Seq<char>)
    requires
        home.len() > 0,
        home.last() != '/',
    ensures
        path_below(home) == home + "/Library/Application Support/simtop/config.json"@,
{
    reveal_strlit("/");
    reveal_strlit("Library");
    reveal_strlit("Application Support");
    reveal_strlit("simtop");
    reveal_strlit("config.json");
    reveal_strlit("/Library/Application Support/simtop/config.json");
    let a = path::joined(home, "Library"@);
    let b = path::joined(a, "Application Support"@);
    let c = path::joined(b, "simtop"@);
    assert(a =~= home + "/"@ + "Library"@);
    assert(a.last() == 'y');
    assert(b =~= a + "/"@ + "Application Support"@);
    assert(b.last() == 't');
    assert(c =~= b + "/"@ + "simtop"@);
    assert(c.last() == 'p');
    assert(path_below(home) =~= c + "/"@ + "config.json"@);
    assert(path_below(home) =~= home + "/Library/Application Support/simtop/config.json"@);
}

proof fn first_pieces_are_kept(pieces: Seq<Seq<char>>)
    requires
        pieces.len() > 0,
        pieces[0].len() > 0,
    ensures
        path::kept_pieces(pieces).len() > 0,
        path::kept_pieces(pieces)[0] == pieces[0],
    decreases pieces.len(),
{
    if pieces.len() > 1 {
        first_pieces_are_kept(pieces.drop_last());
    } else {
        assert(path::kept_pieces(pieces.drop_last()) =~= Seq::empty());
    }
}

proof fn names_are_single_components(name: Seq<char>)
    requires
        forall|i: int| 0 <= i < name.len() ==> name[i] != '/',
    ensures
        text::pieces(name, '/') == seq![name],
{
    text::first_index_meaning(name, '/');
}

/// A path is expanded only when a tilde is its whole first part: one that begins
/// otherwise, or with the name of a user behind the tilde, is taken as it is, with or
/// without a home.
pub proof fn only_tildes_are_expanded(p: Seq<char>, home: Option<Seq<char>>)
    requires
        p.len() == 0 || p[0] != '~' || (p.len() > 1 && p[1] != '/'),
    ensures
        expanded(p, home) == Ok::<Seq<char>, error::Failure>(p),
{
    reveal_strlit("~");
    let parts = path::components_of(p);
    let pieces = text::pieces(p, '/');
    text::first_index_meaning(p, '/');
    if p.len() == 0 {
        assert(pieces =~= seq![p]);
        assert(path::kept_pieces(seq![p].drop_last()) =~= Seq::empty());
        assert(path::kept_pieces(pieces) =~= Seq::empty());
    } else if p[0] == '/' {
        assert(parts[0] =~= seq!['/']);
        assert(seq!['/'][0] != "~"@[0]);
    } else {
        assert(pieces[0].len() > 0);
        first_pieces_are_kept(pieces);
        assert(parts[0] == pieces[0]);
        if p[0] == '~' {
            assert(pieces[0].len() > 1);
        } else {
            assert(pieces[0][0] == p[0]);
        }
    }
}

/// A name behind a tilde and a separator stands below the home directory, and the tilde
/// alone is the home directory; without a home neither can be expanded.
pub proof fn tildes_stand_for_home(name: Seq<char>, home: Seq<char>)
    requires
        home.len() > 0,
        home.last() != '/',
        name.len() > 0,
        name != seq!['.'],
        forall|i: int| 0 <= i < name.len() ==> name[i] != '/',
    ensures
        expanded("~/"@ + name, Some(home)) == Ok::<Seq<char>, error::Failure>(
            home + "/"@ + name,
        ),
        expanded("~"@, Some(home)) == Ok::<Seq<char>, error::Failure>(home),
        expanded("~/"@ + name, None) matches Err(e) && e.code == ErrorCode::IoError,
{
    reveal_strlit("~");
    reveal_strlit("~/");
    reveal_strlit("/");
    let p = "~/"@ + name;
    text::first_index_meaning(p, '/');
    assert(p[1] == '/');
    assert(text::first_index(p, '/') == Some(1int));
    assert(p.take(1) =~= "~"@);
    assert(p.skip(2) =~= name);
    names_are_single_components(name);
    assert(text::pieces(p, '/') =~= seq!["~"@, name]);
    let pieces = seq!["~"@, name];
    assert(pieces.drop_last() =~= seq!["~"@]);
    assert(seq!["~"@].drop_last() =~= Seq::empty());
    assert(path::kept_pieces(Seq::<Seq<char>>::empty()) =~= Seq::empty());
    assert(path::kept_pieces(seq!["~"@]) =~= seq!["~"@]);
    assert(path::kept_pieces(pieces) =~= pieces);
    assert(path::components_of(p) =~= pieces);
    assert(pieces.skip(1) =~= seq![name]);
    assert(seq![name].drop_last() =~= Seq::empty());
    assert(pushed(home, Seq::<Seq<char>>::empty()) == home);
    assert(pushed(home, seq![name]) == path::joined(home, name));
    names_are_single_components("~"@);
    assert(path::components_of("~"@) =~= seq!["~"@]);
    assert(seq!["~"@].skip(1) =~= Seq::empty());
}

/// A root is taken at its canonical path where it has one; where it has none it stays as
/// it was written when it is listed, and is refused when it is to be added.
pub proof fn roots_are_taken_where_they_really_are(
    p: Seq<char>,
    home: Option<Seq<char>>,
    found: Seq<char>,
    error: Seq<char>,
)
    requires
        p.len() == 0 || p[0] != '~',
    ensures
        canonical_root(p, home, Ok(found)) == Ok::<Seq<char>, error::Failure>(found),
        canonical_root(p, home, Err(error)) matches Err(e) && e.code == ErrorCode::IoError,
        normal_root(p, home, Some(found)) == Ok::<Seq<char>, error::Failure>(found),
        normal_root(p, home, None) == Ok::<Seq<char>, error::Failure>(p),
{
    only_tildes_are_expanded(p, home);
}

/// The roots are kept in their order: the first of several that are the same path stays
/// where it is, and removing one changes nothing about the others.
pub proof fn roots_keep_their_order(before: Seq<Seq<char>>, p: Seq<char>, after: Seq<Seq<char>>)
    ensures
        !has_path(before, p) ==> first_occurrences(before.push(p)) == first_occurrences(
            before,
        ).push(p),
        has_path(before, p) ==> first_occurrences(before.push(p)) == first_occurrences(before),
        without_path(before + after, p) == without_path(before, p) + without_path(after, p),
        without_path(seq![p], p) == Seq::<Seq<char>>::empty(),
    decreases after.len(),
{
    assert(before.push(p).drop_last() =~= before);
    roots_are_duplicate_free(before, p);
    assert(seq![p].drop_last() =~= Seq::empty());
    assert(without_path(Seq::<Seq<char>>::empty(), p) =~= Seq::empty());
    if after.len() == 0 {
        assert(before + after =~= before);
        assert(without_path(before, p) + without_path(after, p) =~= without_path(before, p));
    } else {
        roots_keep_their_order(before, p, after.drop_last());
        assert((before + after).drop_last() =~= before + after.drop_last());
        assert((before + after).last() == after.last());
        assert(without_path(before + after, p) =~= without_path(before, p) + without_path(
            after,
            p,
        ));
    }
}

/// A configuration that is not there is an empty one, and one of another schema than the
/// first is refused, as is one that cannot be read.
pub proof fn only_known_configurations_are_loaded(path: Seq<char>, file: ConfigFile)
    ensures
        file is Missing ==> (loaded(path, file) matches Ok(c) && c.schema == 1
            && c.project_roots.len() == 0 && c.project_selections == Map::<
            Seq<char>,
            SavedView,
        >::empty()),
        file matches ConfigFile::Parsed(config) ==> config.schema == 1 ==> loaded(path, file) == Ok::<
            ConfigView,
            error::Failure,
        >(config@),
        file matches ConfigFile::Parsed(config) ==> config.schema != 1 ==> (loaded(
            path,
            file,
        ) matches Err(e) && e.code == ErrorCode::ParseError && text::has_part(
            e.message,
            text::decimal(config.schema as nat),
        )),
        file is Malformed ==> (loaded(path, file) matches Err(e) && e.code == ErrorCode::ParseError),
        file is Unreadable ==> (loaded(path, file) matches Err(e) && e.code == ErrorCode::IoError),
{
    if let ConfigFile::Parsed(config) = file {
        let head = "unsupported configuration schema "@;
        let number = text::decimal(config.schema as nat);
        let message = bad_schema(config.schema).message;
        let at = head.len() as int;
        assert(message.subrange(at, at + number.len()) =~= number);
        assert(text::occurs_at(message, number, at));
    }
}

} // verus!
