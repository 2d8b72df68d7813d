//! Xcode projects: discovery, metadata, and the choice of what to build.
//!
//! Discovery is deterministic and bounded, and treats a workspace and a project
//! in one directory as one project.
use vstd::prelude::*;

use crate::config::{SavedProjectSelection, SavedView};
use crate::model::SimDevice;
use crate::order;
use crate::order::Ranked;
use crate::path;
use crate::path::{path_before, paths_equal};
use crate::text;
use crate::text::{blank, same_text, trim};

pub mod discovery;
pub mod metadata;

verus! {

/// Stable identity of a discovered project: the path of its directory.
#[derive(Debug, PartialEq, Eq, Hash)]
pub struct ProjectId(pub String);

impl ProjectId {
    /// The identity as text.
    pub fn as_str(&self) -> (r: &str)
        ensures
            r@ == self.0@,
    {
        self.0.as_str()
    }

    /// The identity as text.
    pub fn to_string(&self) -> (r: String)
        ensures
            r@ == self.0@,
    {
        self.0.clone()
    }
}

impl Clone for ProjectId {
    fn clone(&self) -> (r: Self)
        ensures
            r == *self,
    {
        ProjectId(self.0.clone())
    }
}

/// An Xcode container that can be handed to `xcodebuild`.
#[derive(Debug, PartialEq, Eq, Hash)]
pub enum XcodeContainer {
    /// An `.xcworkspace` bundle.
    Workspace(String),
    /// An `.xcodeproj` bundle.
    Project(String),
}

impl XcodeContainer {
    /// The path of the container.
    pub open spec fn location(self) -> Seq<char> {
        match self {
            XcodeContainer::Workspace(path) => path@,
            XcodeContainer::Project(path) => path@,
        }
    }

    /// The path of the container.
    pub fn path(&self) -> (r: &str)
        ensures
            r@ == self.location(),
    {
        match self {
            XcodeContainer::Workspace(path) => path.as_str(),
            XcodeContainer::Project(path) => path.as_str(),
        }
    }

    /// Whether the container is a workspace.
    pub fn is_workspace(&self) -> (r: bool)
        ensures
            r == (self is Workspace),
    {
        matches!(self, XcodeContainer::Workspace(_))
    }
}

/// The content of an [`XcodeContainer`].
#[verifier::ext_equal]
pub struct ContainerView {
    pub workspace: bool,
    pub path: Seq<char>,
}

impl View for XcodeContainer {
    type V = ContainerView;

    open spec fn view(&self) -> ContainerView {
        ContainerView { workspace: self is Workspace, path: self.location() }
    }
}

impl Ranked for XcodeContainer {
    /// Workspaces come before projects; containers of one kind are ordered by
    /// path.
    open spec fn before(a: ContainerView, b: ContainerView) -> bool {
        if a.workspace != b.workspace {
            a.workspace
        } else {
            path::path_lt(a.path, b.path)
        }
    }

    fn is_before(&self, other: &Self) -> (r: bool) {
        if self.is_workspace() != other.is_workspace() {
            self.is_workspace()
        } else {
            path_before(self.path(), other.path())
        }
    }

    proof fn asymmetric(a: ContainerView, b: ContainerView) {
        path::path_order_is_asymmetric(a.path, b.path);
    }

    proof fn transitive(a: ContainerView, b: ContainerView, c: ContainerView) {
        if a.workspace == b.workspace && b.workspace == c.workspace {
            path::path_order_is_weak(a.path, b.path, c.path);
        }
    }
}

impl Clone for XcodeContainer {
    fn clone(&self) -> (r: Self)
        ensures
            r == *self,
    {
        match self {
            XcodeContainer::Workspace(path) => XcodeContainer::Workspace(path.clone()),
            XcodeContainer::Project(path) => XcodeContainer::Project(path.clone()),
        }
    }
}

/// A discovered project.
#[derive(Debug, PartialEq, Eq)]
pub struct XcodeProject {
    /// Stable identity, derived from the directory.
    pub id: ProjectId,
    /// Display name, derived from the preferred container's file name.
    pub name: String,
    /// Directory of the containers.
    pub directory: String,
    /// All containers of the directory, the preferred one first.
    pub containers: Vec<XcodeContainer>,
    /// A workspace when there is one, otherwise a project.
    pub preferred_container: XcodeContainer,
}

/// The content of an [`XcodeProject`].
#[verifier::ext_equal]
pub struct ProjectView {
    pub id: Seq<char>,
    pub name: Seq<char>,
    pub directory: Seq<char>,
    pub containers: Seq<ContainerView>,
    pub preferred_container: ContainerView,
}

impl View for XcodeProject {
    type V = ProjectView;

    open spec fn view(&self) -> ProjectView {
        ProjectView {
            id: self.id.0@,
            name: self.name@,
            directory: self.directory@,
            containers: order::views(self.containers@),
            preferred_container: self.preferred_container@,
        }
    }
}

impl Clone for XcodeProject {
    fn clone(&self) -> (r: Self)
        ensures
            r@ == self@,
            r.id == self.id,
            r.name == self.name,
            r.directory == self.directory,
            r.containers@ == self.containers@,
            r.preferred_container == self.preferred_container,
    {
        XcodeProject {
            id: self.id.clone(),
            name: self.name.clone(),
            directory: self.directory.clone(),
            containers: self.containers.clone(),
            preferred_container: self.preferred_container.clone(),
        }
    }
}

/// What `xcodebuild -list -json` reports.
#[derive(Debug, PartialEq, Eq)]
pub struct ProjectMetadata {
    pub schemes: Vec<String>,
    pub configurations: Vec<String>,
}

/// The content of a [`ProjectMetadata`].
#[verifier::ext_equal]
pub struct MetadataView {
    pub schemes: Seq<Seq<char>>,
    pub configurations: Seq<Seq<char>>,
}

impl View for ProjectMetadata {
    type V = MetadataView;

    open spec fn view(&self) -> MetadataView {
        MetadataView {
            schemes: text::texts(self.schemes@),
            configurations: text::texts(self.configurations@),
        }
    }
}

impl Default for ProjectMetadata {
    fn default() -> (r: Self)
        ensures
            r.schemes@ == Seq::<String>::empty(),
            r.configurations@ == Seq::<String>::empty(),
    {
        ProjectMetadata { schemes: Vec::new(), configurations: Vec::new() }
    }
}

impl Clone for ProjectMetadata {
    fn clone(&self) -> (r: Self)
        ensures
            r@ == self@,
            r.schemes@ == self.schemes@,
            r.configurations@ == self.configurations@,
    {
        ProjectMetadata {
            schemes: self.schemes.clone(),
            configurations: self.configurations.clone(),
        }
    }
}

// ---------------------------------------------------------------------------
// Selection
// ---------------------------------------------------------------------------

/// The choices for a project once saved values were checked against what there
/// is now.
#[derive(Debug, PartialEq, Eq)]
pub struct ResolvedProjectSelection {
    pub container: XcodeContainer,
    pub scheme: String,
    pub configuration: String,
    pub simulator_udid: String,
}

/// The content of a [`ResolvedProjectSelection`].
#[verifier::ext_equal]
pub struct SelectionView {
    pub container: XcodeContainer,
    pub scheme: Seq<char>,
    pub configuration: Seq<char>,
    pub simulator_udid: Seq<char>,
}

impl View for ResolvedProjectSelection {
    type V = SelectionView;

    open spec fn view(&self) -> SelectionView {
        SelectionView {
            container: self.container,
            scheme: self.scheme@,
            configuration: self.configuration@,
            simulator_udid: self.simulator_udid@,
        }
    }
}

impl ResolvedProjectSelection {
    /// The choices in the shape in which they are saved.
    pub fn into_saved(self) -> (r: SavedProjectSelection)
        ensures
            r@ == saved_of(self@),
    {
        SavedProjectSelection {
            container: self.container.path().to_owned(),
            scheme: self.scheme,
            configuration: self.configuration,
            simulator_udid: self.simulator_udid,
        }
    }
}

/// Whether the saved container is the `i`th container of a project: it has the
/// same path, or the two lead to the same place on disk.
pub open spec fn saved_container(
    containers: Seq<XcodeContainer>,
    saved: Seq<char>,
    same_on_disk: Seq<bool>,
    i: int,
) -> bool {
    path::same_path(containers[i].location(), saved) || (i < same_on_disk.len() && same_on_disk[i])
}

/// The position of the container to use: the saved one, else the preferred one,
/// else the first.
pub open spec fn container_choice(
    project: XcodeProject,
    saved: Option<Seq<char>>,
    same_on_disk: Seq<bool>,
) -> Option<int> {
    let all = project.containers@;
    let indices = Seq::new(all.len(), |i: int| i);
    let by_saved = match saved {
        Some(s) => order::first_where(
            indices,
            |i: int| saved_container(all, s, same_on_disk, i),
        ),
        None => None,
    };
    if by_saved is Some {
        by_saved
    } else {
        let by_preference = order::first_where(
            all,
            |c: XcodeContainer|
                path::same_path(c.location(), project.preferred_container.location()),
        );
        if by_preference is Some {
            by_preference
        } else if all.len() > 0 {
            Some(0)
        } else {
            None
        }
    }
}

/// The first text that is not blank.
pub open spec fn first_usable(values: Seq<Seq<char>>) -> Option<Seq<char>> {
    match order::first_where(values, |v: Seq<char>| !text::is_blank(v)) {
        Some(i) => Some(values[i]),
        None => None,
    }
}

/// The saved text when it is still among the values and not blank.
pub open spec fn still_valid(values: Seq<Seq<char>>, saved: Option<Seq<char>>) -> bool {
    saved matches Some(s) && !text::is_blank(s) && values.contains(s)
}

/// The scheme to use: the saved one when it is still valid, else the first.
pub open spec fn scheme_choice(values: Seq<Seq<char>>, saved: Option<Seq<char>>) -> Option<
    Seq<char>,
> {
    if still_valid(values, saved) {
        saved
    } else {
        first_usable(values)
    }
}

/// The configuration to use: the saved one when it is still valid, else
/// `Debug`, else the first.
pub open spec fn configuration_choice(
    values: Seq<Seq<char>>,
    saved: Option<Seq<char>>,
) -> Option<Seq<char>> {
    if still_valid(values, saved) {
        saved
    } else {
        match order::first_where(values, |v: Seq<char>| text::trimmed(v) == "Debug"@) {
            Some(i) => Some(values[i]),
            None => first_usable(values),
        }
    }
}

/// Whether a device can be built for.
pub open spec fn usable_device(d: SimDevice) -> bool {
    d.is_available && !text::is_blank(d.udid@)
}

/// The simulator to use: the saved one when it is usable, else the first usable
/// one, else the first with a UDID.
pub open spec fn simulator_choice(devices: Seq<SimDevice>, saved: Option<Seq<char>>) -> Option<
    Seq<char>,
> {
    if saved matches Some(s) && exists|j: int|
        0 <= j < devices.len() && usable_with(#[trigger] devices[j], s) {
        saved
    } else {
        match order::first_where(devices, |d: SimDevice| usable_device(d)) {
            Some(i) => Some(devices[i].udid@),
            None => match order::first_where(devices, |d: SimDevice| !text::is_blank(d.udid@)) {
                Some(i) => Some(devices[i].udid@),
                None => None,
            },
        }
    }
}

/// The choices for a project. Each is checked on its own; there is no result
/// when one of them has no value.
pub open spec fn resolution(
    project: XcodeProject,
    schemes: Seq<Seq<char>>,
    configurations: Seq<Seq<char>>,
    simulators: Seq<SimDevice>,
    saved: Option<SavedView>,
    same_on_disk: Seq<bool>,
) -> Option<SelectionView> {
    let container = container_choice(
        project,
        match saved {
            Some(s) => Some(s.container),
            None => None,
        },
        same_on_disk,
    );
    let scheme = scheme_choice(
        schemes,
        match saved {
            Some(s) => Some(s.scheme),
            None => None,
        },
    );
    let configuration = configuration_choice(
        configurations,
        match saved {
            Some(s) => Some(s.configuration),
            None => None,
        },
    );
    let simulator = simulator_choice(
        simulators,
        match saved {
            Some(s) => Some(s.simulator_udid),
            None => None,
        },
    );
    if container is Some && scheme is Some && configuration is Some && simulator is Some {
        Some(
            SelectionView {
                container: project.containers@[container->0],
                scheme: scheme->0,
                configuration: configuration->0,
                simulator_udid: simulator->0,
            },
        )
    } else {
        None
    }
}

fn choose_container(
    project: &XcodeProject,
    saved: Option<&str>,
    same_on_disk: &Vec<bool>,
) -> (r: Option<usize>)
    ensures
        match r {
            Some(i) => i < project.containers@.len() && container_choice(
                *project,
                match saved {
                    Some(s) => Some(s@),
                    None => None,
                },
                same_on_disk@,
            ) == Some(i as int),
            None => container_choice(
                *project,
                match saved {
                    Some(s) => Some(s@),
                    None => None,
                },
                same_on_disk@,
            ) is None,
        },
{
    let ghost all = project.containers@;
    let ghost indices = Seq::new(all.len(), |i: int| i);
    if let Some(s) = saved {
        let ghost wanted = |i: int| saved_container(all, s@, same_on_disk@, i);
        proof {
            order::first_where_meaning(indices, wanted);
        }
        let mut i: usize = 0;
        while i < project.containers.len()
            invariant
                i <= all.len(),
                all == project.containers@,
                saved == Some(s),
                forall|j: int| 0 <= j < i ==> !saved_container(all, s@, same_on_disk@, j),
                indices == Seq::new(all.len(), |i: int| i),
                wanted == (|i: int| saved_container(all, s@, same_on_disk@, i)),
                match order::first_where(indices, wanted) {
                    Some(k) => 0 <= k < indices.len() && wanted(indices[k]) && forall|j: int|
                        0 <= j < k ==> !wanted(indices[j]),
                    None => forall|j: int| 0 <= j < indices.len() ==> !wanted(indices[j]),
                },
            decreases all.len() - i,
        {
            let here = paths_equal(project.containers[i].path(), s) || (i < same_on_disk.len()
                && same_on_disk[i]);
            if here {
                assert(wanted(indices[i as int]));
                assert(forall|j: int| 0 <= j < i ==> !wanted(#[trigger] indices[j]));
                return Some(i);
            }
            i = i + 1;
        }
        assert(forall|j: int| 0 <= j < indices.len() ==> !wanted(#[trigger] indices[j]));
        assert(order::first_where(indices, wanted) is None);
    }
    let ghost preferred = |c: XcodeContainer|
        path::same_path(c.location(), project.preferred_container.location());
    proof {
        order::first_where_meaning(all, preferred);
    }
    let mut i: usize = 0;
    while i < project.containers.len()
        invariant
            i <= all.len(),
            all == project.containers@,
            preferred == (|c: XcodeContainer|
                path::same_path(c.location(), project.preferred_container.location())),
            forall|j: int| 0 <= j < i ==> !preferred(#[trigger] all[j]),
            match order::first_where(all, preferred) {
                Some(k) => 0 <= k < all.len() && preferred(all[k]) && forall|j: int|
                    0 <= j < k ==> !preferred(all[j]),
                None => forall|j: int| 0 <= j < all.len() ==> !preferred(all[j]),
            },
            match saved {
                Some(s) => order::first_where(
                    Seq::new(all.len(), |i: int| i),
                    |i: int| saved_container(all, s@, same_on_disk@, i),
                ) is None,
                None => true,
            },
        decreases all.len() - i,
    {
        if paths_equal(project.containers[i].path(), project.preferred_container.path()) {
            assert(preferred(all[i as int]));
            return Some(i);
        }
        i = i + 1;
    }
    if project.containers.len() > 0 {
        Some(0)
    } else {
        None
    }
}

fn first_usable_text(values: &Vec<String>) -> (r: Option<String>)
    ensures
        text::opt_text(r) == first_usable(text::texts(values@)),
{
    let ghost all = text::texts(values@);
    let ghost p = |v: Seq<char>| !text::is_blank(v);
    proof {
        order::first_where_meaning(all, p);
    }
    let mut i: usize = 0;
    while i < values.len()
        invariant
            i <= values@.len(),
            all == text::texts(values@),
            p == (|v: Seq<char>| !text::is_blank(v)),
            forall|j: int| 0 <= j < i ==> !p(#[trigger] all[j]),
            match order::first_where(all, p) {
                Some(k) => 0 <= k < all.len() && p(all[k]) && forall|j: int|
                    0 <= j < k ==> !p(all[j]),
                None => forall|j: int| 0 <= j < all.len() ==> !p(all[j]),
            },
        decreases values@.len() - i,
    {
        if !blank(values[i].as_str()) {
            assert(p(all[i as int]));
            return Some(values[i].clone());
        }
        assert(!p(all[i as int]));
        i = i + 1;
    }
    None
}

fn is_still_valid(values: &Vec<String>, saved: Option<&str>) -> (r: bool)
    ensures
        r == still_valid(
            text::texts(values@),
            match saved {
                Some(s) => Some(s@),
                None => None,
            },
        ),
{
    let ghost all = text::texts(values@);
    match saved {
        None => false,
        Some(s) => {
            if blank(s) {
                return false;
            }
            let mut i: usize = 0;
            while i < values.len()
                invariant
                    i <= values@.len(),
                    all == text::texts(values@),
                    saved == Some(s),
                    !text::is_blank(s@),
                    forall|j: int| 0 <= j < i ==> #[trigger] all[j] != s@,
                decreases values@.len() - i,
            {
                if same_text(values[i].as_str(), s) {
                    assert(all[i as int] == s@);
                    return true;
                }
                i = i + 1;
            }
            false
        },
    }
}

fn choose_string(values: &Vec<String>, saved: Option<&str>) -> (r: Option<String>)
    ensures
        text::opt_text(r) == scheme_choice(
            text::texts(values@),
            match saved {
                Some(s) => Some(s@),
                None => None,
            },
        ),
{
    if is_still_valid(values, saved) {
        match saved {
            Some(s) => Some(s.to_owned()),
            None => None,
        }
    } else {
        first_usable_text(values)
    }
}

fn choose_configuration(values: &Vec<String>, saved: Option<&str>) -> (r: Option<String>)
    ensures
        text::opt_text(r) == configuration_choice(
            text::texts(values@),
            match saved {
                Some(s) => Some(s@),
                None => None,
            },
        ),
{
    if is_still_valid(values, saved) {
        return match saved {
            Some(s) => Some(s.to_owned()),
            None => None,
        };
    }
    let ghost all = text::texts(values@);
    let ghost p = |v: Seq<char>| text::trimmed(v) == "Debug"@;
    proof {
        order::first_where_meaning(all, p);
    }
    let mut i: usize = 0;
    while i < values.len()
        invariant
            i <= values@.len(),
            all == text::texts(values@),
            p == (|v: Seq<char>| text::trimmed(v) == "Debug"@),
            forall|j: int| 0 <= j < i ==> !p(#[trigger] all[j]),
            match order::first_where(all, p) {
                Some(k) => 0 <= k < all.len() && p(all[k]) && forall|j: int|
                    0 <= j < k ==> !p(all[j]),
                None => forall|j: int| 0 <= j < all.len() ==> !p(all[j]),
            },
            !still_valid(
                all,
                match saved {
                    Some(s) => Some(s@),
                    None => None,
                },
            ),
        decreases values@.len() - i,
    {
        if same_text(trim(values[i].as_str()).as_str(), "Debug") {
            assert(p(all[i as int]));
            return Some(values[i].clone());
        }
        assert(!p(all[i as int]));
        i = i + 1;
    }
    first_usable_text(values)
}

fn find_usable(devices: &Vec<SimDevice>) -> (r: Option<usize>)
    ensures
        match r {
            Some(i) => i < devices@.len() && order::first_where(devices@, |d: SimDevice| usable_device(d)) == Some(
                i as int,
            ),
            None => order::first_where(devices@, |d: SimDevice| usable_device(d)) is None,
        },
{
    let ghost p = |d: SimDevice| usable_device(d);
    proof {
        order::first_where_meaning(devices@, p);
    }
    let mut i: usize = 0;
    while i < devices.len()
        invariant
            i <= devices@.len(),
            p == (|d: SimDevice| usable_device(d)),
            forall|j: int| 0 <= j < i ==> !p(#[trigger] devices@[j]),
            match order::first_where(devices@, p) {
                Some(k) => 0 <= k < devices@.len() && p(devices@[k]) && forall|j: int|
                    0 <= j < k ==> !p(devices@[j]),
                None => forall|j: int| 0 <= j < devices@.len() ==> !p(devices@[j]),
            },
        decreases devices@.len() - i,
    {
        let d = &devices[i];
        if d.is_available && !blank(d.udid.as_str()) {
            assert(p(devices@[i as int]));
            return Some(i);
        }
        assert(!p(devices@[i as int]));
        i = i + 1;
    }
    None
}

fn find_with_udid(devices: &Vec<SimDevice>) -> (r: Option<usize>)
    ensures
        match r {
            Some(i) => i < devices@.len() && order::first_where(devices@, |d: SimDevice| !text::is_blank(d.udid@)) == Some(
                i as int,
            ),
            None => order::first_where(devices@, |d: SimDevice| !text::is_blank(d.udid@)) is None,
        },
{
    let ghost p = |d: SimDevice| !text::is_blank(d.udid@);
    proof {
        order::first_where_meaning(devices@, p);
    }
    let mut i: usize = 0;
    while i < devices.len()
        invariant
            i <= devices@.len(),
            p == (|d: SimDevice| !text::is_blank(d.udid@)),
            forall|j: int| 0 <= j < i ==> !p(#[trigger] devices@[j]),
            match order::first_where(devices@, p) {
                Some(k) => 0 <= k < devices@.len() && p(devices@[k]) && forall|j: int|
                    0 <= j < k ==> !p(devices@[j]),
                None => forall|j: int| 0 <= j < devices@.len() ==> !p(devices@[j]),
            },
        decreases devices@.len() - i,
    {
        let d = &devices[i];
        if !blank(d.udid.as_str()) {
            assert(p(devices@[i as int]));
            return Some(i);
        }
        assert(!p(devices@[i as int]));
        i = i + 1;
    }
    None
}

/// Whether a usable device has this UDID.
pub open spec fn usable_with(d: SimDevice, udid: Seq<char>) -> bool {
    usable_device(d) && d.udid@ == udid
}

fn has_usable_with(devices: &Vec<SimDevice>, udid: &str) -> (r: bool)
    ensures
        r == exists|j: int| 0 <= j < devices@.len() && usable_with(#[trigger] devices@[j], udid@),
{
    let mut i: usize = 0;
    while i < devices.len()
        invariant
            i <= devices@.len(),
            forall|j: int| 0 <= j < i ==> !usable_with(#[trigger] devices@[j], udid@),
        decreases devices@.len() - i,
    {
        let d = &devices[i];
        if d.is_available && !blank(d.udid.as_str()) && same_text(d.udid.as_str(), udid) {
            assert(usable_with(devices@[i as int], udid@));
            return true;
        }
        i = i + 1;
    }
    false
}

fn choose_simulator(devices: &Vec<SimDevice>, saved: Option<&str>) -> (r: Option<String>)
    ensures
        text::opt_text(r) == simulator_choice(
            devices@,
            match saved {
                Some(s) => Some(s@),
                None => None,
            },
        ),
{
    if let Some(s) = saved {
        if has_usable_with(devices, s) {
            return Some(s.to_owned());
        }
    }
    match find_usable(devices) {
        Some(i) => Some(devices[i].udid.clone()),
        None => match find_with_udid(devices) {
            Some(i) => Some(devices[i].udid.clone()),
            None => None,
        },
    }
}

/// The choices for a project, with each saved value checked on its own against
/// what there is now. `same_on_disk` tells, container by container, whether the
/// saved container leads to the same place on disk.
pub fn resolve_project_selection(
    project: &XcodeProject,
    metadata: &ProjectMetadata,
    simulators: &Vec<SimDevice>,
    saved: Option<&SavedProjectSelection>,
    same_on_disk: &Vec<bool>,
) -> (r: Option<ResolvedProjectSelection>)
    ensures
        match r {
            Some(selection) => resolution(
                *project,
                text::texts(metadata.schemes@),
                text::texts(metadata.configurations@),
                simulators@,
                match saved {
                    Some(s) => Some(s@),
                    None => None,
                },
                same_on_disk@,
            ) == Some(selection@),
            None => resolution(
                *project,
                text::texts(metadata.schemes@),
                text::texts(metadata.configurations@),
                simulators@,
                match saved {
                    Some(s) => Some(s@),
                    None => None,
                },
                same_on_disk@,
            ) is None,
        },
{
    let (saved_path, saved_scheme, saved_configuration, saved_udid) = match saved {
        Some(s) => (
            Some(s.container.as_str()),
            Some(s.scheme.as_str()),
            Some(s.configuration.as_str()),
            Some(s.simulator_udid.as_str()),
        ),
        None => (None, None, None, None),
    };
    let container = choose_container(project, saved_path, same_on_disk);
    let scheme = choose_string(&metadata.schemes, saved_scheme);
    let configuration = choose_configuration(&metadata.configurations, saved_configuration);
    let simulator = choose_simulator(simulators, saved_udid);
    match (container, scheme, configuration, simulator) {
        (Some(i), Some(scheme), Some(configuration), Some(simulator_udid)) => Some(
            ResolvedProjectSelection {
                container: project.containers[i].clone(),
                scheme,
                configuration,
                simulator_udid,
            },
        ),
        _ => None,
    }
}

impl XcodeProject {
    /// The choices for this project; see [`resolve_project_selection`].
    pub fn resolve_selection(
        &self,
        metadata: &ProjectMetadata,
        simulators: &Vec<SimDevice>,
        saved: Option<&SavedProjectSelection>,
        same_on_disk: &Vec<bool>,
    ) -> (r: Option<ResolvedProjectSelection>)
        ensures
            match r {
                Some(selection) => resolution(
                    *self,
                    text::texts(metadata.schemes@),
                    text::texts(metadata.configurations@),
                    simulators@,
                    match saved {
                        Some(s) => Some(s@),
                        None => None,
                    },
                    same_on_disk@,
                ) == Some(selection@),
                None => resolution(
                    *self,
                    text::texts(metadata.schemes@),
                    text::texts(metadata.configurations@),
                    simulators@,
                    match saved {
                        Some(s) => Some(s@),
                        None => None,
                    },
                    same_on_disk@,
                ) is None,
            },
    {
        resolve_project_selection(self, metadata, simulators, saved, same_on_disk)
    }
}

/// Whether no two containers have the same path.
pub open spec fn distinct_containers(containers: Seq<XcodeContainer>) -> bool {
    forall|i: int, j: int|
        0 <= i < j < containers.len() ==> !path::same_path(
            (#[trigger] containers[i]).location(),
            (#[trigger] containers[j]).location(),
        )
}

/// The choices in the shape in which they are saved.
pub open spec fn saved_of(selection: SelectionView) -> SavedView {
    SavedView {
        container: selection.container.location(),
        scheme: selection.scheme,
        configuration: selection.configuration,
        simulator_udid: selection.simulator_udid,
    }
}

proof fn usable_choice_is_kept(values: Seq<Seq<char>>, saved: Option<Seq<char>>)
    ensures
        scheme_choice(values, saved) is Some ==> scheme_choice(
            values,
            scheme_choice(values, saved),
        ) == scheme_choice(values, saved),
        configuration_choice(values, saved) is Some ==> configuration_choice(
            values,
            configuration_choice(values, saved),
        ) == configuration_choice(values, saved),
{
    order::first_where_meaning(values, |v: Seq<char>| !text::is_blank(v));
    order::first_where_meaning(values, |v: Seq<char>| text::trimmed(v) == "Debug"@);
    reveal_strlit("Debug");
}

proof fn simulator_choice_is_kept(devices: Seq<SimDevice>, saved: Option<Seq<char>>)
    ensures
        simulator_choice(devices, saved) is Some ==> simulator_choice(
            devices,
            simulator_choice(devices, saved),
        ) == simulator_choice(devices, saved),
{
    order::first_where_meaning(devices, |d: SimDevice| usable_device(d));
    order::first_where_meaning(devices, |d: SimDevice| !text::is_blank(d.udid@));
    match order::first_where(devices, |d: SimDevice| usable_device(d)) {
        Some(i) => assert(usable_with(devices[i], devices[i].udid@)),
        None => {
            assert forall|j: int, s: Seq<char>| 0 <= j < devices.len() implies !(
            #[trigger] usable_with(devices[j], s)) by {
                assert(!usable_device(devices[j]));
            }
        },
    }
}

/// Choices that were resolved once and saved resolve to themselves, as long as
/// the project, its metadata and the simulators stay the same. On disk the saved
/// container may be found to be the chosen one, and no other.
pub proof fn saved_choices_resolve_to_themselves(
    project: XcodeProject,
    schemes: Seq<Seq<char>>,
    configurations: Seq<Seq<char>>,
    simulators: Seq<SimDevice>,
    saved: Option<SavedView>,
    same_on_disk: Seq<bool>,
    later: Seq<bool>,
)
    requires
        distinct_containers(project.containers@),
        resolution(project, schemes, configurations, simulators, saved, same_on_disk) matches Some(
            selection,
        ) ==> forall|i: int|
            0 <= i < project.containers@.len() && i < later.len() && #[trigger] later[i]
                ==> project.containers@[i] == selection.container,
    ensures
        resolution(project, schemes, configurations, simulators, saved, same_on_disk) matches Some(
            selection,
        ) ==> resolution(
            project,
            schemes,
            configurations,
            simulators,
            Some(saved_of(selection)),
            later,
        ) == Some(selection),
{
    let resolved = resolution(
        project,
        schemes,
        configurations,
        simulators,
        saved,
        same_on_disk,
    );
    if resolved is Some {
        let all = project.containers@;
        let indices = Seq::new(all.len(), |i: int| i);
        let (path_saved, scheme_saved, configuration_saved, udid_saved) = match saved {
            Some(s) => (
                Some(s.container),
                Some(s.scheme),
                Some(s.configuration),
                Some(s.simulator_udid),
            ),
            None => (None, None, None, None),
        };
        usable_choice_is_kept(schemes, scheme_saved);
        usable_choice_is_kept(configurations, configuration_saved);
        simulator_choice_is_kept(simulators, udid_saved);
        if let Some(s) = path_saved {
            order::first_where_meaning(
                indices,
                |i: int| saved_container(all, s, same_on_disk, i),
            );
        }
        order::first_where_meaning(
            all,
            |c: XcodeContainer|
                path::same_path(c.location(), project.preferred_container.location()),
        );
        let k = container_choice(project, path_saved, same_on_disk)->0;
        assert(0 <= k < all.len());
        let location = all[k].location();
        let again = |i: int| saved_container(all, location, later, i);
        order::first_where_meaning(indices, again);
        assert(again(indices[k]));
        let found = order::first_where(indices, again);
        assert(found is Some);
        let j = found->0;
        assert(again(indices[j]));
        assert(path::same_path(all[j].location(), location));
        if j < k {
            assert(!path::same_path(all[j].location(), all[k].location()));
        }
        assert(j == k);
        assert(container_choice(project, Some(location), later) == Some(k));
    }
}

proof fn usable_values_are_found(values: Seq<Seq<char>>)
    ensures
        first_usable(values) is Some <==> exists|i: int|
            0 <= i < values.len() && !text::is_blank(#[trigger] values[i]),
        first_usable(values) matches Some(v) ==> values.contains(v) && !text::is_blank(v),
{
    let p = |v: Seq<char>| !text::is_blank(v);
    order::first_where_meaning(values, p);
    if exists|i: int| 0 <= i < values.len() && !text::is_blank(#[trigger] values[i]) {
        let i = choose|i: int| 0 <= i < values.len() && !text::is_blank(#[trigger] values[i]);
        assert(p(values[i]));
    }
    if let Some(k) = order::first_where(values, p) {
        assert(p(values[k]));
        assert(!text::is_blank(values[k]));
    }
}

/// A scheme that is chosen is one of those offered, and it is the saved one as long as
/// that is offered. There is a choice exactly when a scheme that is not blank is offered.
pub proof fn chosen_schemes_are_offered(values: Seq<Seq<char>>, saved: Option<Seq<char>>)
    ensures
        scheme_choice(values, saved) is Some <==> exists|i: int|
            0 <= i < values.len() && !text::is_blank(#[trigger] values[i]),
        scheme_choice(values, saved) matches Some(v) ==> values.contains(v) && !text::is_blank(v),
        saved matches Some(s) ==> values.contains(s) && !text::is_blank(s) ==> scheme_choice(
            values,
            saved,
        ) == Some(s),
{
    usable_values_are_found(values);
    if still_valid(values, saved) {
        let i = choose|i: int| 0 <= i < values.len() && values[i] == saved->0;
        assert(!text::is_blank(values[i]));
    }
}

/// A configuration that is chosen is one of those offered: the saved one as long as that
/// is offered, else the one called Debug where there is one, else another.
pub proof fn chosen_configurations_are_offered(
    values: Seq<Seq<char>>,
    saved: Option<Seq<char>>,
    k: int,
)
    ensures
        configuration_choice(values, saved) is Some <==> exists|i: int|
            0 <= i < values.len() && !text::is_blank(#[trigger] values[i]),
        configuration_choice(values, saved) matches Some(v) ==> values.contains(v)
            && !text::is_blank(v),
        saved matches Some(s) ==> values.contains(s) && !text::is_blank(s) ==> configuration_choice(
            values,
            saved,
        ) == Some(s),
        (saved matches Some(s) ==> !values.contains(s)) && 0 <= k < values.len() && values[k]
            == "Debug"@ ==> (configuration_choice(values, saved) matches Some(v) && text::trimmed(v)
            == "Debug"@),
{
    reveal_strlit("Debug");
    usable_values_are_found(values);
    let p = |v: Seq<char>| text::trimmed(v) == "Debug"@;
    order::first_where_meaning(values, p);
    if still_valid(values, saved) {
        let i = choose|i: int| 0 <= i < values.len() && values[i] == saved->0;
        assert(!text::is_blank(values[i]));
    } else if let Some(i) = order::first_where(values, p) {
        assert(p(values[i]));
        assert(text::trimmed(values[i]).len() == 5);
        assert(!text::is_blank(values[i]));
    }
    if 0 <= k < values.len() && values[k] == "Debug"@ {
        text::trimmed_of_solid("Debug"@);
        assert(p(values[k]));
    }
}

/// A simulator that is chosen is one of those listed: the saved one as long as that can be
/// used, else one that can be used; one that is not available is chosen only where none
/// can be used.
pub proof fn chosen_simulators_are_listed(
    devices: Seq<SimDevice>,
    saved: Option<Seq<char>>,
    k: int,
)
    ensures
        simulator_choice(devices, saved) is Some <==> exists|i: int|
            0 <= i < devices.len() && !text::is_blank((#[trigger] devices[i]).udid@),
        simulator_choice(devices, saved) matches Some(udid) ==> exists|i: int|
            0 <= i < devices.len() && (#[trigger] devices[i]).udid@ == udid && !text::is_blank(udid)
                && (devices[i].is_available || forall|j: int|
                0 <= j < devices.len() ==> !(#[trigger] devices[j]).is_available || text::is_blank(
                    devices[j].udid@,
                )),
        0 <= k < devices.len() && devices[k].is_available && !text::is_blank(devices[k].udid@)
            && saved == Some(devices[k].udid@) ==> simulator_choice(devices, saved) == saved,
{
    let usable = |d: SimDevice| usable_device(d);
    let named = |d: SimDevice| !text::is_blank(d.udid@);
    order::first_where_meaning(devices, usable);
    order::first_where_meaning(devices, named);
    if 0 <= k < devices.len() && devices[k].is_available && !text::is_blank(devices[k].udid@)
        && saved == Some(devices[k].udid@) {
        assert(usable_with(devices[k], saved->0));
    }
    if saved matches Some(s) && exists|j: int|
        0 <= j < devices.len() && usable_with(#[trigger] devices[j], s) {
        let j = choose|j: int| 0 <= j < devices.len() && usable_with(#[trigger] devices[j], saved->0);
        assert(devices[j].udid@ == saved->0);
        assert(devices[j].is_available);
        assert(!text::is_blank(devices[j].udid@));
    } else {
        match order::first_where(devices, usable) {
            Some(i) => {
                assert(usable(devices[i]));
                assert(devices[i].is_available);
                assert(!text::is_blank(devices[i].udid@));
            },
            None => {
                assert forall|j: int| 0 <= j < devices.len() implies !(
                #[trigger] devices[j]).is_available || text::is_blank(devices[j].udid@) by {
                    assert(!usable(devices[j]));
                }
                match order::first_where(devices, named) {
                    Some(i) => {
                        assert(named(devices[i]));
                        assert(!text::is_blank(devices[i].udid@));
                    },
                    None => {
                        assert forall|j: int| 0 <= j < devices.len() implies text::is_blank(
                            (#[trigger] devices[j]).udid@,
                        ) by {
                            assert(!named(devices[j]));
                        }
                    },
                }
            },
        }
    }
}

/// A container that is chosen is one of the project's: the saved one as long as it is
/// there, else the preferred one where it is there, else the first. There is a choice
/// exactly when the project has a container.
pub proof fn chosen_containers_belong_to_the_project(
    project: XcodeProject,
    saved: Option<Seq<char>>,
    k: int,
)
    ensures
        container_choice(project, saved, Seq::empty()) is Some <==> project.containers@.len() > 0,
        container_choice(project, saved, Seq::empty()) matches Some(i) ==> 0 <= i
            < project.containers@.len(),
        saved matches Some(s) ==> 0 <= k < project.containers@.len() && path::same_path(
            project.containers@[k].location(),
            s,
        ) ==> (container_choice(project, saved, Seq::empty()) matches Some(i) && path::same_path(
            project.containers@[i].location(),
            s,
        )),
        saved is None && 0 <= k < project.containers@.len() && project.containers@[k]
            == project.preferred_container ==> (container_choice(
            project,
            saved,
            Seq::empty(),
        ) matches Some(i) && path::same_path(
            project.containers@[i].location(),
            project.preferred_container.location(),
        )),
{
    let all = project.containers@;
    let indices = Seq::new(all.len(), |i: int| i);
    let preferred = |c: XcodeContainer|
        path::same_path(c.location(), project.preferred_container.location());
    order::first_where_meaning(all, preferred);
    if let Some(i) = order::first_where(all, preferred) {
        assert(preferred(all[i]));
    }
    if 0 <= k < all.len() && all[k] == project.preferred_container {
        assert(preferred(all[k]));
    }
    if let Some(s) = saved {
        let p = |i: int| saved_container(all, s, Seq::empty(), i);
        order::first_where_meaning(indices, p);
        if let Some(i) = order::first_where(indices, p) {
            assert(indices[i] == i);
            assert(p(indices[i]));
        }
        if 0 <= k < all.len() && path::same_path(all[k].location(), s) {
            assert(indices[k] == k);
            assert(p(indices[k]));
        }
    }
}

/// A project can be run exactly when there is something to choose for all four parts of
/// the choice, and what is resolved consists of the four choices.
pub proof fn selections_consist_of_their_choices(
    project: XcodeProject,
    schemes: Seq<Seq<char>>,
    configurations: Seq<Seq<char>>,
    simulators: Seq<SimDevice>,
    saved: SavedView,
    same_on_disk: Seq<bool>,
)
    ensures
        resolution(
            project,
            schemes,
            configurations,
            simulators,
            Some(saved),
            same_on_disk,
        ) matches Some(selection) ==> {
            &&& scheme_choice(schemes, Some(saved.scheme)) == Some(selection.scheme)
            &&& configuration_choice(configurations, Some(saved.configuration)) == Some(
                selection.configuration,
            )
            &&& simulator_choice(simulators, Some(saved.simulator_udid)) == Some(
                selection.simulator_udid,
            )
            &&& container_choice(project, Some(saved.container), same_on_disk) matches Some(i)
                && selection.container == project.containers@[i]
        },
        resolution(project, schemes, configurations, simulators, None, same_on_disk) matches Some(
            selection,
        ) ==> {
            &&& scheme_choice(schemes, None) == Some(selection.scheme)
            &&& configuration_choice(configurations, None) == Some(selection.configuration)
            &&& simulator_choice(simulators, None) == Some(selection.simulator_udid)
            &&& container_choice(project, None, same_on_disk) matches Some(i)
                && selection.container == project.containers@[i]
        },
        scheme_choice(schemes, Some(saved.scheme)) is Some && configuration_choice(
            configurations,
            Some(saved.configuration),
        ) is Some && simulator_choice(simulators, Some(saved.simulator_udid)) is Some
            && container_choice(project, Some(saved.container), same_on_disk) is Some
            ==> resolution(
            project,
            schemes,
            configurations,
            simulators,
            Some(saved),
            same_on_disk,
        ) is Some,
{
}

} // verus!
