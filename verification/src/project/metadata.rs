//! The schemes and configurations that `xcodebuild -list -json` reports.
use vstd::prelude::*;

use crate::backend::simctl;
use crate::backend::simctl::{show_exit, text_lossy};
use crate::error;
use crate::error::{ErrorCode, SimtopError};
use crate::json;
use crate::json::{parse_json, Json, JsonTree};
use crate::order;
use crate::order::insert_text;
use crate::path;
use crate::project::{ProjectMetadata, XcodeContainer};
use crate::text;
use crate::text::{
    blank, cat2, cat4, chars_of, eq_ignore_ascii_case, find_char, rfind_char, text_of, trim,
};

verus! {

// ---------------------------------------------------------------------------
// Asking
// ---------------------------------------------------------------------------

/// A command that lists a container's schemes and configurations.
#[derive(Debug, PartialEq, Eq)]
pub struct MetadataCommand {
    /// The program to run.
    pub program: String,
    /// Its arguments.
    pub arguments: Vec<String>,
    /// The directory to run it in, when it is not the current one.
    pub current_dir: Option<String>,
    /// The value of `DEVELOPER_DIR`.
    pub developer_dir: String,
}

/// Where a developer directory has its `xcodebuild`.
pub open spec fn xcodebuild_of(developer_dir: Seq<char>) -> Seq<char> {
    path::joined(developer_dir, "usr/bin/xcodebuild"@)
}

/// Where a developer directory has its `xcodebuild`.
pub fn xcodebuild_path(developer_dir: &str) -> (r: String)
    ensures
        r@ == xcodebuild_of(developer_dir@),
{
    path::join(developer_dir, "usr/bin/xcodebuild")
}

/// The option that names a container of this kind.
pub open spec fn container_option(container: XcodeContainer) -> Seq<char> {
    if container is Workspace {
        "-workspace"@
    } else {
        "-project"@
    }
}

/// The arguments that ask for the lists, without the program they go to.
pub open spec fn list_request(container: XcodeContainer) -> Seq<Seq<char>> {
    seq!["-list"@, "-json"@, container_option(container), container.location()]
}

/// The command that lists a container's schemes and configurations. The
/// `xcodebuild` of the selected developer directory is preferred; without one
/// (`has_xcodebuild` tells) the command goes through `xcrun`.
pub fn metadata_command(
    developer_dir: &str,
    container: &XcodeContainer,
    has_xcodebuild: bool,
) -> (r: MetadataCommand)
    ensures
        r.program@ == if has_xcodebuild {
            xcodebuild_of(developer_dir@)
        } else {
            "xcrun"@
        },
        text::texts(r.arguments@) == if has_xcodebuild {
            list_request(*container)
        } else {
            seq!["xcodebuild"@] + list_request(*container)
        },
        text::opt_text(r.current_dir) == path::parent_of(container.location()),
        r.developer_dir@ == developer_dir@,
{
    let program = if has_xcodebuild {
        xcodebuild_path(developer_dir)
    } else {
        "xcrun".to_owned()
    };
    let mut arguments: Vec<String> = Vec::new();
    if !has_xcodebuild {
        arguments.push("xcodebuild".to_owned());
    }
    arguments.push("-list".to_owned());
    arguments.push("-json".to_owned());
    if container.is_workspace() {
        arguments.push("-workspace".to_owned());
    } else {
        arguments.push("-project".to_owned());
    }
    arguments.push(container.path().to_owned());
    assert(text::texts(arguments@) =~= if has_xcodebuild {
        list_request(*container)
    } else {
        seq!["xcodebuild"@] + list_request(*container)
    });
    MetadataCommand {
        program,
        arguments,
        current_dir: path::parent(container.path()),
        developer_dir: developer_dir.to_owned(),
    }
}

// ---------------------------------------------------------------------------
// The document in the output
// ---------------------------------------------------------------------------

/// The earlier of two positions.
pub open spec fn earlier(a: Option<int>, b: Option<int>) -> Option<int> {
    match (a, b) {
        (Some(x), Some(y)) => if x <= y {
            Some(x)
        } else {
            Some(y)
        },
        (Some(x), None) => Some(x),
        (None, y) => y,
    }
}

/// The later of two positions.
pub open spec fn later(a: Option<int>, b: Option<int>) -> Option<int> {
    match (a, b) {
        (Some(x), Some(y)) => if x >= y {
            Some(x)
        } else {
            Some(y)
        },
        (Some(x), None) => Some(x),
        (None, y) => y,
    }
}

/// The stretch from the first opening bracket to the last closing one.
pub open spec fn bracketed(s: Seq<char>) -> Option<Seq<char>> {
    let start = earlier(text::first_index(s, '{'), text::first_index(s, '['));
    let end = later(text::last_index(s, '}'), text::last_index(s, ']'));
    match (start, end) {
        (Some(a), Some(b)) => if a <= b {
            Some(s.subrange(a, b + 1))
        } else {
            None
        },
        _ => None,
    }
}

/// The stretch from the first opening bracket to the last closing one.
pub fn bracketed_part(s: &str) -> (r: Option<String>)
    ensures
        text::opt_text(r) == bracketed(s@),
{
    let chars = chars_of(s);
    proof {
        text::first_index_meaning(s@, '{');
        text::first_index_meaning(s@, '[');
        text::last_index_meaning(s@, '}');
        text::last_index_meaning(s@, ']');
    }
    let total: usize = chars.len();
    let start: usize = match (find_char(&chars, '{'), find_char(&chars, '[')) {
        (Some(a), Some(b)) => if a <= b {
            a
        } else {
            b
        },
        (Some(a), None) => a,
        (None, Some(b)) => b,
        (None, None) => {
            return None;
        },
    };
    let end: usize = match (rfind_char(&chars, '}'), rfind_char(&chars, ']')) {
        (Some(a), Some(b)) => if a >= b {
            a
        } else {
            b
        },
        (Some(a), None) => a,
        (None, Some(b)) => b,
        (None, None) => {
            return None;
        },
    };
    if start <= end && end < total {
        Some(text_of(&chars, start, end + 1))
    } else {
        None
    }
}

/// The document in an output: the output without surrounding blanks, or, when
/// that is none, the stretch between its outermost brackets. The error is that of
/// the first attempt.
pub open spec fn output_document(s: Seq<char>) -> Result<JsonTree, Seq<char>> {
    match json::parsed(text::trimmed(s)) {
        Ok(document) => Ok(document),
        Err(error) => match bracketed(text::trimmed(s)) {
            Some(part) => match json::parsed(part) {
                Ok(document) => Ok(document),
                Err(_) => Err(error),
            },
            None => Err(error),
        },
    }
}

/// The document in an output, which informational lines may surround.
pub fn parse_json_output(s: &str) -> (r: Result<Json, String>)
    ensures
        match r {
            Ok(document) => output_document(s@) == Ok::<JsonTree, Seq<char>>(document@),
            Err(error) => output_document(s@) == Err::<JsonTree, Seq<char>>(error@),
        },
{
    let trimmed = trim(s);
    match parse_json(trimmed.as_str()) {
        Ok(document) => Ok(document),
        Err(error) => {
            if let Some(part) = bracketed_part(trimmed.as_str()) {
                if let Ok(document) = parse_json(part.as_str()) {
                    return Ok(document);
                }
            }
            Err(error)
        },
    }
}

// ---------------------------------------------------------------------------
// Names in a document
// ---------------------------------------------------------------------------

/// Whether a member of this name holds the name of its object.
pub open spec fn names_object(key: Seq<char>) -> bool {
    ||| text::same_ignoring_case(key, "name"@)
    ||| text::same_ignoring_case(key, "scheme"@)
    ||| text::same_ignoring_case(key, "configuration"@)
}

fn is_object_name(key: &str) -> (r: bool)
    ensures
        r == names_object(key@),
{
    eq_ignore_ascii_case(key, "name") || eq_ignore_ascii_case(key, "scheme")
        || eq_ignore_ascii_case(key, "configuration")
}

/// Whether an object has a member that holds its name.
pub open spec fn is_named(object: Seq<(Seq<char>, JsonTree)>) -> bool {
    exists|i: int| 0 <= i < object.len() && names_object((#[trigger] object[i]).0)
}

/// Whether a document lists the value `s`: as a text, without the blanks around
/// it; in an array; as the name of an object; or anywhere in an object without a
/// name.
pub open spec fn lists(document: JsonTree, s: Seq<char>) -> bool
    decreases document,
{
    match document {
        JsonTree::Text(t) => s.len() > 0 && s == text::trimmed(t),
        JsonTree::Array(v) => exists|i: int| 0 <= i < v.len() && lists(#[trigger] v[i], s),
        JsonTree::Object(m) => exists|i: int|
            0 <= i < m.len() && (names_object((#[trigger] m[i]).0) || !is_named(m)) && lists(
                m[i].1,
                s,
            ),
        _ => false,
    }
}

proof fn lists_of_array(v: Seq<JsonTree>, s: Seq<char>)
    ensures
        lists(JsonTree::Array(v), s) == exists|i: int|
            0 <= i < v.len() && lists(#[trigger] v[i], s),
{
    assert(JsonTree::Array(v)->Array_0 == v);
}

proof fn lists_of_object(m: Seq<(Seq<char>, JsonTree)>, s: Seq<char>)
    ensures
        lists(JsonTree::Object(m), s) == exists|i: int|
            0 <= i < m.len() && (names_object((#[trigger] m[i]).0) || !is_named(m)) && lists(
                m[i].1,
                s,
            ),
{
    assert(JsonTree::Object(m)->Object_0 == m);
}

/// The two kinds of lists.
#[derive(Debug, Clone, Copy, PartialEq, Eq, Structural)]
pub enum ListKind {
    Schemes,
    Configurations,
}

/// Whether a member of this name holds a list of this kind.
pub open spec fn names_list(key: Seq<char>, kind: ListKind) -> bool {
    match kind {
        ListKind::Schemes => text::same_ignoring_case(key, "schemes"@)
            || text::same_ignoring_case(key, "scheme"@),
        ListKind::Configurations => text::same_ignoring_case(key, "configurations"@)
            || text::same_ignoring_case(key, "configuration"@),
    }
}

fn is_list_name(key: &str, kind: ListKind) -> (r: bool)
    ensures
        r == names_list(key@, kind),
{
    match kind {
        ListKind::Schemes => eq_ignore_ascii_case(key, "schemes") || eq_ignore_ascii_case(
            key,
            "scheme",
        ),
        ListKind::Configurations => eq_ignore_ascii_case(key, "configurations")
            || eq_ignore_ascii_case(key, "configuration"),
    }
}

/// Whether a document has, at any depth, a list of this kind with the value `s`.
pub open spec fn mentions(document: JsonTree, kind: ListKind, s: Seq<char>) -> bool
    decreases document,
{
    match document {
        JsonTree::Array(v) => exists|i: int|
            0 <= i < v.len() && mentions(#[trigger] v[i], kind, s),
        JsonTree::Object(m) => exists|i: int|
            0 <= i < m.len() && (names_list((#[trigger] m[i]).0, kind) && lists(m[i].1, s)
                || mentions(m[i].1, kind, s)),
        _ => false,
    }
}

proof fn mentions_of_array(v: Seq<JsonTree>, kind: ListKind, s: Seq<char>)
    ensures
        mentions(JsonTree::Array(v), kind, s) == exists|i: int|
            0 <= i < v.len() && mentions(#[trigger] v[i], kind, s),
{
    assert(JsonTree::Array(v)->Array_0 == v);
}

proof fn mentions_of_object(m: Seq<(Seq<char>, JsonTree)>, kind: ListKind, s: Seq<char>)
    ensures
        mentions(JsonTree::Object(m), kind, s) == exists|i: int|
            0 <= i < m.len() && (names_list((#[trigger] m[i]).0, kind) && lists(m[i].1, s)
                || mentions(m[i].1, kind, s)),
{
    assert(JsonTree::Object(m)->Object_0 == m);
}

/// Whether a sorted set was extended by what a document lists.
pub open spec fn gains_listed(
    before: Seq<Seq<char>>,
    after: Seq<Seq<char>>,
    document: JsonTree,
) -> bool {
    &&& order::ascending(after)
    &&& forall|s: Seq<char>|
        #[trigger] after.contains(s) <==> before.contains(s) || lists(document, s)
}

/// Whether a sorted set was extended by what a document mentions in lists of a
/// kind.
pub open spec fn gains_mentioned(
    before: Seq<Seq<char>>,
    after: Seq<Seq<char>>,
    document: JsonTree,
    kind: ListKind,
) -> bool {
    &&& order::ascending(after)
    &&& forall|s: Seq<char>|
        #[trigger] after.contains(s) <==> before.contains(s) || mentions(document, kind, s)
}

fn collect_string_values(document: &Json, values: &mut Vec<String>)
    requires
        order::ascending(text::texts(old(values)@)),
    ensures
        gains_listed(text::texts(old(values)@), text::texts(final(values)@), document@),
    decreases document,
{
    broadcast use json::tree_parts;

    let ghost start = text::texts(values@);
    match document {
        Json::Text(t) => {
            let value = trim(t.as_str());
            if !value.as_str().is_empty() {
                insert_text(values, value);
            }
            assert(gains_listed(start, text::texts(values@), document@));
        },
        Json::Array(v) => {
            let ghost items = json::trees(v@);
            assert(decreases_to!(*document => document->Array_0));
            let mut i: usize = 0;
            while i < v.len()
                invariant
                    i <= v@.len(),
                    *document == Json::Array(*v),
                    document@ == JsonTree::Array(items),
                    items == json::trees(v@),
                    decreases_to!(*document => *v),
                    order::ascending(text::texts(values@)),
                    forall|s: Seq<char>|
                        #[trigger] text::texts(values@).contains(s) <==> start.contains(s) || exists|
                            j: int,
                        |
                            0 <= j < i && lists(#[trigger] items[j], s),
                decreases v@.len() - i,
            {
                let ghost before = text::texts(values@);
                assert(decreases_to!(*v => v@));
                assert(decreases_to!(v@ => v@[i as int]));
                assert(items[i as int] == v@[i as int]@);
                collect_string_values(&v[i], values);
                let ghost after = text::texts(values@);
                assert forall|s: Seq<char>| #[trigger] after.contains(s) <==> start.contains(s)
                    || exists|j: int| 0 <= j < i + 1 && lists(#[trigger] items[j], s) by {
                    if lists(items[i as int], s) {
                        assert(after.contains(s));
                    }
                    if before.contains(s) {
                        assert(after.contains(s));
                    }
                }
                i = i + 1;
            }
            assert(gains_listed(start, text::texts(values@), document@)) by {
                assert forall|s: Seq<char>| #[trigger]
                    text::texts(values@).contains(s) <==> start.contains(s) || lists(
                        document@,
                        s,
                    ) by {
                    lists_of_array(items, s);
                }
            }
        },
        Json::Object(v) => {
            let ghost all = json::members(v@);
            assert(decreases_to!(*document => document->Object_0));
            let mut named = false;
            let mut k: usize = 0;
            while k < v.len()
                invariant
                    k <= v@.len(),
                    all == json::members(v@),
                    named == exists|j: int| 0 <= j < k && names_object((#[trigger] all[j]).0),
                decreases v@.len() - k,
            {
                assert(all[k as int].0 == v@[k as int].0@);
                if is_object_name(v[k].0.as_str()) {
                    named = true;
                }
                k = k + 1;
            }
            assert(named == is_named(all));
            let mut i: usize = 0;
            while i < v.len()
                invariant
                    i <= v@.len(),
                    *document == Json::Object(*v),
                    document@ == JsonTree::Object(all),
                    all == json::members(v@),
                    named == is_named(all),
                    decreases_to!(*document => *v),
                    order::ascending(text::texts(values@)),
                    forall|s: Seq<char>|
                        #[trigger] text::texts(values@).contains(s) <==> start.contains(s) || exists|
                            j: int,
                        |
                            0 <= j < i && (names_object((#[trigger] all[j]).0) || !named) && lists(
                                all[j].1,
                                s,
                            ),
                decreases v@.len() - i,
            {
                let ghost before = text::texts(values@);
                assert(decreases_to!(*v => v@));
                assert(decreases_to!(v@ => v@[i as int]));
                assert(decreases_to!(v@[i as int] => v@[i as int].1));
                assert(all[i as int] == (v@[i as int].0@, v@[i as int].1@));
                let ghost wanted = names_object(all[i as int].0) || !named;
                if !named || is_object_name(v[i].0.as_str()) {
                    collect_string_values(&v[i].1, values);
                }
                let ghost after = text::texts(values@);
                assert forall|s: Seq<char>| #[trigger] after.contains(s) <==> start.contains(s)
                    || exists|j: int|
                    0 <= j < i + 1 && (names_object((#[trigger] all[j]).0) || !named) && lists(
                        all[j].1,
                        s,
                    ) by {
                    if wanted && lists(all[i as int].1, s) {
                        assert(after.contains(s));
                    }
                    if before.contains(s) {
                        assert(after.contains(s));
                    }
                }
                i = i + 1;
            }
            assert(gains_listed(start, text::texts(values@), document@)) by {
                assert forall|s: Seq<char>| #[trigger]
                    text::texts(values@).contains(s) <==> start.contains(s) || lists(
                        document@,
                        s,
                    ) by {
                    lists_of_object(all, s);
                }
            }
        },
        _ => {
            assert(gains_listed(start, text::texts(values@), document@));
        },
    }
}

fn collect_named_values(document: &Json, kind: ListKind, values: &mut Vec<String>)
    requires
        order::ascending(text::texts(old(values)@)),
    ensures
        gains_mentioned(text::texts(old(values)@), text::texts(final(values)@), document@, kind),
    decreases document,
{
    broadcast use json::tree_parts;

    let ghost start = text::texts(values@);
    match document {
        Json::Array(v) => {
            let ghost items = json::trees(v@);
            assert(decreases_to!(*document => document->Array_0));
            let mut i: usize = 0;
            while i < v.len()
                invariant
                    i <= v@.len(),
                    *document == Json::Array(*v),
                    document@ == JsonTree::Array(items),
                    items == json::trees(v@),
                    decreases_to!(*document => *v),
                    order::ascending(text::texts(values@)),
                    forall|s: Seq<char>|
                        #[trigger] text::texts(values@).contains(s) <==> start.contains(s) || exists|
                            j: int,
                        |
                            0 <= j < i && mentions(#[trigger] items[j], kind, s),
                decreases v@.len() - i,
            {
                let ghost before = text::texts(values@);
                assert(decreases_to!(*v => v@));
                assert(decreases_to!(v@ => v@[i as int]));
                assert(items[i as int] == v@[i as int]@);
                collect_named_values(&v[i], kind, values);
                let ghost after = text::texts(values@);
                assert forall|s: Seq<char>| #[trigger] after.contains(s) <==> start.contains(s)
                    || exists|j: int| 0 <= j < i + 1 && mentions(#[trigger] items[j], kind, s) by {
                    if mentions(items[i as int], kind, s) {
                        assert(after.contains(s));
                    }
                    if before.contains(s) {
                        assert(after.contains(s));
                    }
                }
                i = i + 1;
            }
            assert(gains_mentioned(start, text::texts(values@), document@, kind)) by {
                assert forall|s: Seq<char>| #[trigger]
                    text::texts(values@).contains(s) <==> start.contains(s) || mentions(
                        document@,
                        kind,
                        s,
                    ) by {
                    mentions_of_array(items, kind, s);
                }
            }
        },
        Json::Object(v) => {
            let ghost all = json::members(v@);
            assert(decreases_to!(*document => document->Object_0));
            let mut i: usize = 0;
            while i < v.len()
                invariant
                    i <= v@.len(),
                    *document == Json::Object(*v),
                    document@ == JsonTree::Object(all),
                    all == json::members(v@),
                    decreases_to!(*document => *v),
                    order::ascending(text::texts(values@)),
                    forall|s: Seq<char>|
                        #[trigger] text::texts(values@).contains(s) <==> start.contains(s) || exists|
                            j: int,
                        |
                            0 <= j < i && (names_list((#[trigger] all[j]).0, kind) && lists(
                                all[j].1,
                                s,
                            ) || mentions(all[j].1, kind, s)),
                decreases v@.len() - i,
            {
                let ghost before = text::texts(values@);
                assert(decreases_to!(*v => v@));
                assert(decreases_to!(v@ => v@[i as int]));
                assert(decreases_to!(v@[i as int] => v@[i as int].1));
                assert(all[i as int] == (v@[i as int].0@, v@[i as int].1@));
                let ghost wanted = names_list(all[i as int].0, kind);
                if is_list_name(v[i].0.as_str(), kind) {
                    collect_string_values(&v[i].1, values);
                }
                let ghost middle = text::texts(values@);
                collect_named_values(&v[i].1, kind, values);
                let ghost after = text::texts(values@);
                assert forall|s: Seq<char>| #[trigger] after.contains(s) <==> start.contains(s)
                    || exists|j: int|
                    0 <= j < i + 1 && (names_list((#[trigger] all[j]).0, kind) && lists(
                        all[j].1,
                        s,
                    ) || mentions(all[j].1, kind, s)) by {
                    if wanted && lists(all[i as int].1, s) {
                        assert(middle.contains(s));
                        assert(after.contains(s));
                    }
                    if mentions(all[i as int].1, kind, s) {
                        assert(after.contains(s));
                    }
                    if before.contains(s) {
                        assert(middle.contains(s));
                        assert(after.contains(s));
                    }
                    if after.contains(s) && !middle.contains(s) {
                        assert(mentions(all[i as int].1, kind, s));
                    }
                }
                i = i + 1;
            }
            assert(gains_mentioned(start, text::texts(values@), document@, kind)) by {
                assert forall|s: Seq<char>| #[trigger]
                    text::texts(values@).contains(s) <==> start.contains(s) || mentions(
                        document@,
                        kind,
                        s,
                    ) by {
                    mentions_of_object(all, kind, s);
                }
            }
        },
        _ => {
            assert(gains_mentioned(start, text::texts(values@), document@, kind));
        },
    }
}

/// Whether a sequence holds, in ascending order, exactly the values that a
/// document mentions in lists of a kind.
pub open spec fn all_mentioned(
    values: Seq<Seq<char>>,
    document: JsonTree,
    kind: ListKind,
) -> bool {
    &&& order::ascending(values)
    &&& forall|s: Seq<char>| #[trigger] values.contains(s) <==> mentions(document, kind, s)
}

/// Whether metadata holds what a document lists.
pub open spec fn metadata_of(metadata: ProjectMetadata, document: JsonTree) -> bool {
    &&& all_mentioned(text::texts(metadata.schemes@), document, ListKind::Schemes)
    &&& all_mentioned(text::texts(metadata.configurations@), document, ListKind::Configurations)
}

fn collect_kind(document: &Json, kind: ListKind) -> (r: Vec<String>)
    ensures
        all_mentioned(text::texts(r@), document@, kind),
{
    let mut values: Vec<String> = Vec::new();
    assert(text::texts(values@) =~= Seq::empty());
    collect_named_values(document, kind, &mut values);
    values
}

/// The schemes and configurations that a document lists, each once and in
/// order.
pub fn metadata_from_json(document: &Json) -> (r: ProjectMetadata)
    ensures
        metadata_of(r, document@),
{
    ProjectMetadata {
        schemes: collect_kind(document, ListKind::Schemes),
        configurations: collect_kind(document, ListKind::Configurations),
    }
}

/// Whether a value is a text, or a list of texts.
pub open spec fn is_text_list(value: JsonTree) -> bool {
    ||| value is Text
    ||| (value matches JsonTree::Array(items) && forall|k: int|
        0 <= k < items.len() ==> (#[trigger] items[k]) is Text)
}

/// Whether a text, or a list of texts, has `s` as one of its texts, the blanks around
/// it left out.
pub open spec fn has_text(value: JsonTree, s: Seq<char>) -> bool {
    ||| (value matches JsonTree::Text(t) && s == text::trimmed(t))
    ||| (value matches JsonTree::Array(items) && exists|k: int|
        0 <= k < items.len() && (#[trigger] items[k]) is Text && s == text::trimmed(
            items[k]->Text_0,
        ))
}

proof fn text_lists_list_their_texts(value: JsonTree, s: Seq<char>)
    requires
        is_text_list(value),
    ensures
        lists(value, s) <==> s.len() > 0 && has_text(value, s),
        forall|kind: ListKind| !mentions(value, kind, s),
{
    assert forall|kind: ListKind| !mentions(value, kind, s) by {
        if let JsonTree::Array(items) = value {
            mentions_of_array(items, kind, s);
            assert forall|k: int| 0 <= k < items.len() implies !mentions(
                #[trigger] items[k],
                kind,
                s,
            ) by {
                assert(items[k] is Text);
            }
        }
    }
    if let JsonTree::Array(items) = value {
        lists_of_array(items, s);
        assert forall|k: int| 0 <= k < items.len() implies lists(#[trigger] items[k], s) == (s.len()
            > 0 && s == text::trimmed(items[k]->Text_0)) by {
            assert(items[k] is Text);
        }
        if lists(value, s) {
            let k = choose|k: int| 0 <= k < items.len() && lists(#[trigger] items[k], s);
            assert(items[k] is Text);
        }
        if s.len() > 0 && has_text(value, s) {
            let k = choose|k: int|
                0 <= k < items.len() && (#[trigger] items[k]) is Text && s == text::trimmed(
                    items[k]->Text_0,
                );
            assert(lists(items[k], s));
        }
    }
}

/// What a listing with texts and lists of texts in it gives: the schemes are the texts
/// under `schemes` and `scheme`, and the configurations those under `configurations` and
/// `configuration`, whatever the case of these names; the blanks around a text are left
/// out, and so are empty texts. What stands under any other name, such as `targets`,
/// adds nothing.
pub proof fn listed_names_stand_under_their_keys(
    outer: Seq<char>,
    inner: Seq<(Seq<char>, JsonTree)>,
    metadata: ProjectMetadata,
)
    requires
        outer == "project"@ || outer == "workspace"@,
        forall|i: int| 0 <= i < inner.len() ==> is_text_list((#[trigger] inner[i]).1),
        metadata_of(
            metadata,
            JsonTree::Object(seq![(outer, JsonTree::Object(inner))]),
        ),
    ensures
        order::ascending(text::texts(metadata.schemes@)),
        forall|s: Seq<char>|
            #[trigger] text::texts(metadata.schemes@).contains(s) <==> s.len() > 0 && exists|i: int|
                0 <= i < inner.len() && has_text((#[trigger] inner[i]).1, s) && (
                text::same_ignoring_case(inner[i].0, "schemes"@) || text::same_ignoring_case(
                    inner[i].0,
                    "scheme"@,
                )),
        order::ascending(text::texts(metadata.configurations@)),
        forall|s: Seq<char>|
            #[trigger] text::texts(metadata.configurations@).contains(s) <==> s.len() > 0
                && exists|i: int|
                0 <= i < inner.len() && has_text((#[trigger] inner[i]).1, s) && (
                text::same_ignoring_case(inner[i].0, "configurations"@)
                    || text::same_ignoring_case(inner[i].0, "configuration"@)),
{
    let document = JsonTree::Object(seq![(outer, JsonTree::Object(inner))]);
    outer_names_list_nothing(outer);
    assert forall|s: Seq<char>, kind: ListKind| #[trigger] mentions(document, kind, s)
        <==> s.len() > 0 && exists|i: int|
        0 <= i < inner.len() && has_text((#[trigger] inner[i]).1, s) && names_list(
            inner[i].0,
            kind,
        ) by {
        let members = seq![(outer, JsonTree::Object(inner))];
        mentions_of_object(members, kind, s);
        mentions_of_object(inner, kind, s);
        assert(members[0] == (outer, JsonTree::Object(inner)));
        assert(mentions(document, kind, s) <==> mentions(JsonTree::Object(inner), kind, s));
        assert forall|i: int| 0 <= i < inner.len() implies (lists((#[trigger] inner[i]).1, s)
            <==> s.len() > 0 && has_text(inner[i].1, s)) && !mentions(inner[i].1, kind, s) by {
            text_lists_list_their_texts(inner[i].1, s);
        }
    }
    assert forall|s: Seq<char>| #[trigger]
        text::texts(metadata.schemes@).contains(s) <==> mentions(
            document,
            ListKind::Schemes,
            s,
        ) by {}
    assert forall|s: Seq<char>| #[trigger]
        text::texts(metadata.configurations@).contains(s) <==> mentions(
            document,
            ListKind::Configurations,
            s,
        ) by {}
}

proof fn outer_names_list_nothing(outer: Seq<char>)
    requires
        outer == "project"@ || outer == "workspace"@,
    ensures
        forall|kind: ListKind| !names_list(outer, kind),
{
    reveal_strlit("project");
    reveal_strlit("workspace");
    reveal_strlit("schemes");
    reveal_strlit("scheme");
    reveal_strlit("configurations");
    reveal_strlit("configuration");
    assert(text::lowered("project"@).len() == 7 && text::lowered("project"@)[0] == 'p');
    assert(text::lowered("workspace"@).len() == 9);
    assert(text::lowered("schemes"@).len() == 7 && text::lowered("schemes"@)[0] == 's');
    assert(text::lowered("scheme"@).len() == 6);
    assert(text::lowered("configurations"@).len() == 14);
    assert(text::lowered("configuration"@).len() == 13);
}

proof fn ascending_texts_are_determined(a: Seq<Seq<char>>, b: Seq<Seq<char>>)
    requires
        order::ascending(a),
        order::ascending(b),
        forall|s: Seq<char>| #[trigger] a.contains(s) <==> b.contains(s),
    ensures
        a == b,
    decreases a.len(),
{
    if a.len() == 0 {
        if b.len() > 0 {
            assert(b.contains(b[0]));
            assert(a.contains(b[0]));
        }
        assert(a =~= b);
    } else {
        assert(a.contains(a.last()));
        let last = b.len() - 1;
        let i = choose|i: int| 0 <= i < b.len() && b[i] == a.last();
        assert(b.contains(b[last]));
        assert(a.contains(b[last]));
        let j = choose|j: int| 0 <= j < a.len() && a[j] == b[last];
        if i < last {
            assert(text::text_lt(b[i], b[last]));
            text::text_lt_one_way(b[i], b[last]);
            if j < a.len() - 1 {
                assert(text::text_lt(a[j], a[a.len() - 1]));
            }
            text::text_lt_irreflexive(a.last());
        }
        let x = a.drop_last();
        let y = b.drop_last();
        assert forall|s: Seq<char>| #[trigger] x.contains(s) <==> y.contains(s) by {
            text::text_lt_irreflexive(s);
            if x.contains(s) {
                let k = choose|k: int| 0 <= k < x.len() && x[k] == s;
                assert(text::text_lt(a[k], a[a.len() - 1]));
                assert(a.contains(a[k]));
                let m = choose|m: int| 0 <= m < b.len() && b[m] == s;
                assert(y[m] == s);
            }
            if y.contains(s) {
                let k = choose|k: int| 0 <= k < y.len() && y[k] == s;
                assert(text::text_lt(b[k], b[last]));
                assert(b.contains(b[k]));
                assert(a.contains(b[k]));
                let m = choose|m: int| 0 <= m < a.len() && a[m] == s;
                assert(x[m] == s);
            }
        }
        ascending_texts_are_determined(x, y);
        assert(a =~= x.push(a.last()));
        assert(b =~= y.push(b.last()));
    }
}

proof fn other_lists_hold_nothing(
    before: Seq<(Seq<char>, JsonTree)>,
    key: Seq<char>,
    list: JsonTree,
    after: Seq<(Seq<char>, JsonTree)>,
    kind: ListKind,
    s: Seq<char>,
)
    requires
        !names_list(key, kind),
    ensures
        (exists|i: int|
            0 <= i < (before + seq![(key, list)] + after).len() && has_text(
                (#[trigger] (before + seq![(key, list)] + after)[i]).1,
                s,
            ) && names_list((before + seq![(key, list)] + after)[i].0, kind)) <==> (exists|i: int|
            0 <= i < (before + after).len() && has_text((#[trigger] (before + after)[i]).1, s)
                && names_list((before + after)[i].0, kind)),
{
    let longer = before + seq![(key, list)] + after;
    let shorter = before + after;
    let n = before.len() as int;
    if exists|i: int|
        0 <= i < longer.len() && has_text((#[trigger] longer[i]).1, s) && names_list(
            longer[i].0,
            kind,
        ) {
        let i = choose|i: int|
            0 <= i < longer.len() && has_text((#[trigger] longer[i]).1, s) && names_list(
                longer[i].0,
                kind,
            );
        assert(i != n);
        let k = if i < n {
            i
        } else {
            i - 1
        };
        assert(shorter[k] == longer[i]);
    }
    if exists|i: int|
        0 <= i < shorter.len() && has_text((#[trigger] shorter[i]).1, s) && names_list(
            shorter[i].0,
            kind,
        ) {
        let i = choose|i: int|
            0 <= i < shorter.len() && has_text((#[trigger] shorter[i]).1, s) && names_list(
                shorter[i].0,
                kind,
            );
        let k = if i < n {
            i
        } else {
            i + 1
        };
        assert(longer[k] == shorter[i]);
    }
}

/// One more list in a listing changes nothing unless it stands under one of the four
/// names: a listing with `targets` gives the same schemes and configurations as without
/// them, wherever the list stands.
pub proof fn other_lists_change_nothing(
    outer: Seq<char>,
    before: Seq<(Seq<char>, JsonTree)>,
    key: Seq<char>,
    list: JsonTree,
    after: Seq<(Seq<char>, JsonTree)>,
    with_list: ProjectMetadata,
    without_list: ProjectMetadata,
)
    requires
        outer == "project"@ || outer == "workspace"@,
        is_text_list(list),
        !text::same_ignoring_case(key, "schemes"@),
        !text::same_ignoring_case(key, "scheme"@),
        !text::same_ignoring_case(key, "configurations"@),
        !text::same_ignoring_case(key, "configuration"@),
        forall|i: int| 0 <= i < before.len() ==> is_text_list((#[trigger] before[i]).1),
        forall|i: int| 0 <= i < after.len() ==> is_text_list((#[trigger] after[i]).1),
        metadata_of(
            with_list,
            JsonTree::Object(seq![(outer, JsonTree::Object(before + seq![(key, list)] + after))]),
        ),
        metadata_of(
            without_list,
            JsonTree::Object(seq![(outer, JsonTree::Object(before + after))]),
        ),
    ensures
        text::texts(with_list.schemes@) == text::texts(without_list.schemes@),
        text::texts(with_list.configurations@) == text::texts(without_list.configurations@),
{
    let longer = before + seq![(key, list)] + after;
    let shorter = before + after;
    let n = before.len() as int;
    assert forall|i: int| 0 <= i < longer.len() implies is_text_list((#[trigger] longer[i]).1) by {
        if i < n {
            assert(longer[i] == before[i]);
        } else if i > n {
            assert(longer[i] == after[i - n - 1]);
        }
    }
    assert forall|i: int| 0 <= i < shorter.len() implies is_text_list(
        (#[trigger] shorter[i]).1,
    ) by {
        if i < n {
            assert(shorter[i] == before[i]);
        } else {
            assert(shorter[i] == after[i - n]);
        }
    }
    listed_names_stand_under_their_keys(outer, longer, with_list);
    listed_names_stand_under_their_keys(outer, shorter, without_list);
    assert forall|s: Seq<char>| #[trigger]
        text::texts(with_list.schemes@).contains(s) <==> text::texts(
            without_list.schemes@,
        ).contains(s) by {
        other_lists_hold_nothing(before, key, list, after, ListKind::Schemes, s);
    }
    assert forall|s: Seq<char>| #[trigger]
        text::texts(with_list.configurations@).contains(s) <==> text::texts(
            without_list.configurations@,
        ).contains(s) by {
        other_lists_hold_nothing(before, key, list, after, ListKind::Configurations, s);
    }
    ascending_texts_are_determined(
        text::texts(with_list.schemes@),
        text::texts(without_list.schemes@),
    );
    ascending_texts_are_determined(
        text::texts(with_list.configurations@),
        text::texts(without_list.configurations@),
    );
}

/// An object in a list stands for its name alone, and what else it holds is not listed.
pub proof fn listed_objects_stand_for_their_names(
    object: Seq<(Seq<char>, JsonTree)>,
    at: int,
    name: Seq<char>,
    s: Seq<char>,
)
    requires
        0 <= at < object.len(),
        object[at] == ("name"@, JsonTree::Text(name)),
        forall|i: int|
            0 <= i < object.len() && i != at ==> !text::same_ignoring_case(
                (#[trigger] object[i]).0,
                "name"@,
            ) && !text::same_ignoring_case(object[i].0, "scheme"@) && !text::same_ignoring_case(
                object[i].0,
                "configuration"@,
            ),
    ensures
        lists(JsonTree::Object(object), s) <==> s.len() > 0 && s == text::trimmed(name),
{
    lists_of_object(object, s);
    assert(names_object(object[at].0));
    assert(is_named(object));
    assert(lists(object[at].1, s) <==> s.len() > 0 && s == text::trimmed(name));
}

/// The schemes and configurations in what `xcodebuild -list -json` wrote.
pub fn parse_metadata_output(output: &Vec<u8>) -> (r: Result<ProjectMetadata, SimtopError>)
    ensures
        match output_document(simctl::lossy_text(output@)) {
            Ok(document) => r matches Ok(metadata) && metadata_of(metadata, document),
            Err(error) => r matches Err(e) && e@ == error::failure(
                ErrorCode::ParseError,
                "failed to parse xcodebuild metadata: "@ + error,
            ),
        },
{
    match parse_json_output(text_lossy(output).as_str()) {
        Ok(document) => Ok(metadata_from_json(&document)),
        Err(error) => Err(
            SimtopError::new(
                ErrorCode::ParseError,
                cat2("failed to parse xcodebuild metadata: ", error.as_str()).as_str(),
            ),
        ),
    }
}

// ---------------------------------------------------------------------------
// Judging a run
// ---------------------------------------------------------------------------

/// How a run of the listing command ended.
#[derive(Debug, PartialEq, Eq)]
pub enum MetadataRun {
    /// The program could not be run to its end.
    NotRun { error: String },
    /// The program exited.
    Exited { success: bool, code: Option<i32>, stdout: Vec<u8>, stderr: Vec<u8> },
}

/// The message about a run that did not succeed.
pub open spec fn unsuccessful(code: Option<i32>, stderr: Seq<char>) -> Seq<char> {
    if text::is_blank(stderr) {
        "xcodebuild exited with status "@ + simctl::exit_text(code)
    } else {
        "xcodebuild exited with status "@ + simctl::exit_text(code) + ": "@ + text::trimmed(stderr)
    }
}

/// The metadata that a run of `program` gave.
pub fn metadata_result(program: &str, run: &MetadataRun) -> (r: Result<
    ProjectMetadata,
    SimtopError,
>)
    ensures
        match run {
            MetadataRun::NotRun { error } => r matches Err(e) && e@ == error::failure_from(
                ErrorCode::XcodeNotFound,
                "failed to execute "@ + program@,
                error@,
            ),
            MetadataRun::Exited { success, code, stdout, stderr } => if !*success {
                r matches Err(e) && e@ == error::failure(
                    ErrorCode::CommandFailed,
                    unsuccessful(*code, simctl::lossy_text(stderr@)),
                )
            } else {
                match output_document(simctl::lossy_text(stdout@)) {
                    Ok(document) => r matches Ok(metadata) && metadata_of(metadata, document),
                    Err(error) => r matches Err(e) && e@ == error::failure(
                        ErrorCode::ParseError,
                        "failed to parse xcodebuild metadata: "@ + error,
                    ),
                }
            },
        },
{
    match run {
        MetadataRun::NotRun { error } => Err(
            SimtopError::with_source(
                ErrorCode::XcodeNotFound,
                cat2("failed to execute ", program).as_str(),
                error.as_str(),
            ),
        ),
        MetadataRun::Exited { success, code, stdout, stderr } => {
            if *success {
                return parse_metadata_output(stdout);
            }
            let status = show_exit(*code);
            let diagnostics = text_lossy(stderr);
            let message = if blank(diagnostics.as_str()) {
                cat2("xcodebuild exited with status ", status.as_str())
            } else {
                cat4(
                    "xcodebuild exited with status ",
                    status.as_str(),
                    ": ",
                    trim(diagnostics.as_str()).as_str(),
                )
            };
            Err(SimtopError::new(ErrorCode::CommandFailed, message.as_str()))
        },
    }
}

/// The lists are asked for by the container's kind and path.
pub proof fn lists_are_asked_for_by_container(container: XcodeContainer)
    ensures
        list_request(container) == seq![
            "-list"@,
            "-json"@,
            if container is Workspace {
                "-workspace"@
            } else {
                "-project"@
            },
            match container {
                XcodeContainer::Workspace(path) => path@,
                XcodeContainer::Project(path) => path@,
            },
        ],
{
}

/// Lines without brackets around a document in brackets do not hide it.
pub proof fn surrounding_lines_are_passed_over(
    before: Seq<char>,
    document: Seq<char>,
    after: Seq<char>,
)
    requires
        document.len() > 0,
        document[0] == '{' || document[0] == '[',
        document.last() == '}' || document.last() == ']',
        forall|i: int| 0 <= i < before.len() ==> before[i] != '{' && before[i] != '[',
        forall|i: int| 0 <= i < after.len() ==> after[i] != '}' && after[i] != ']',
    ensures
        bracketed(before + document + after) == Some(document),
{
    let all = before + document + after;
    let from = before.len() as int;
    let to = from + document.len() - 1;
    assert(all[from] == document[0]);
    assert(all[to] == document.last());
    assert forall|i: int| 0 <= i < from implies all[i] != '{' && all[i] != '[' by {
        assert(all[i] == before[i]);
    }
    assert forall|i: int| to < i < all.len() implies all[i] != '}' && all[i] != ']' by {
        assert(all[i] == after[i - to - 1]);
    }
    text::first_index_meaning(all, '{');
    text::first_index_meaning(all, '[');
    text::last_index_meaning(all, '}');
    text::last_index_meaning(all, ']');
    assert(all.subrange(from, to + 1) =~= document);
}

/// A run that did not succeed gives no lists, and what it wrote to standard error is told.
pub proof fn failed_listings_tell_why(code: Option<i32>, stderr: Seq<char>)
    ensures
        !text::is_blank(stderr) ==> text::has_part(
            unsuccessful(code, stderr),
            text::trimmed(stderr),
        ),
{
    let head = "xcodebuild exited with status "@ + simctl::exit_text(code) + ": "@;
    let all = head + text::trimmed(stderr);
    let at = head.len() as int;
    assert(all.subrange(at, at + text::trimmed(stderr).len()) =~= text::trimmed(stderr));
    assert(text::occurs_at(all, text::trimmed(stderr), at));
}

/// An output that is a document as a whole is that document, and the lines around one that
/// is not are passed over; an output without a document is an error.
pub proof fn documents_are_found_in_their_output(
    output: Seq<char>,
    before: Seq<char>,
    part: Seq<char>,
    after: Seq<char>,
    document: JsonTree,
)
    requires
        text::trimmed(output) == before + part + after,
        part.len() > 0,
        part[0] == '{' || part[0] == '[',
        part.last() == '}' || part.last() == ']',
        forall|i: int| 0 <= i < before.len() ==> before[i] != '{' && before[i] != '[',
        forall|i: int| 0 <= i < after.len() ==> after[i] != '}' && after[i] != ']',
    ensures
        json::parsed(text::trimmed(output)) == Ok::<JsonTree, Seq<char>>(document)
            ==> output_document(output) == Ok::<JsonTree, Seq<char>>(document),
        json::parsed(text::trimmed(output)) is Err && json::parsed(part) == Ok::<
            JsonTree,
            Seq<char>,
        >(document) ==> output_document(output) == Ok::<JsonTree, Seq<char>>(document),
        json::parsed(text::trimmed(output)) is Err && json::parsed(part) is Err ==> output_document(
            output,
        ) is Err,
{
    surrounding_lines_are_passed_over(before, part, after);
}

/// The tool stands at a fixed place in its developer directory.
pub proof fn tools_stand_in_their_developer_directory(developer_dir: Seq<char>)
    requires
        developer_dir.len() > 0,
        developer_dir.last() != '/',
    ensures
        xcodebuild_of(developer_dir) == developer_dir + "/usr/bin/xcodebuild"@,
{
    reveal_strlit("/");
    reveal_strlit("usr/bin/xcodebuild");
    reveal_strlit("/usr/bin/xcodebuild");
    assert(developer_dir + "/"@ + "usr/bin/xcodebuild"@ =~= developer_dir
        + "/usr/bin/xcodebuild"@);
}

} // verus!
