//! The persisted form of the configuration.
use vstd::prelude::*;

use crate::config;
use crate::config::{
    Config, ConfigView, SavedProjectSelection, SavedView, SelectionEntry, Selections,
};
use crate::json;
use crate::json::{Json, JsonTree};
use crate::order;
use crate::text;
use crate::wire;
use crate::wire::{number32, required_text, text_json, texts_json, texts_member};

verus! {

// ---------------------------------------------------------------------------
// Selections
// ---------------------------------------------------------------------------

impl SavedView {
    /// The document that holds the choices for a project.
    pub open spec fn tree(self) -> JsonTree {
        JsonTree::Object(
            seq![
                ("container"@, JsonTree::Text(self.container)),
                ("scheme"@, JsonTree::Text(self.scheme)),
                ("configuration"@, JsonTree::Text(self.configuration)),
                ("simulator_udid"@, JsonTree::Text(self.simulator_udid)),
            ],
        )
    }

    /// The choices that a document holds, if it holds them.
    pub open spec fn decoded(t: JsonTree) -> Option<SavedView> {
        let container = t.get_text("container"@);
        let scheme = t.get_text("scheme"@);
        let configuration = t.get_text("configuration"@);
        let simulator_udid = t.get_text("simulator_udid"@);
        if container is Some && scheme is Some && configuration is Some && simulator_udid is Some {
            Some(
                SavedView {
                    container: container->0,
                    scheme: scheme->0,
                    configuration: configuration->0,
                    simulator_udid: simulator_udid->0,
                },
            )
        } else {
            None
        }
    }
}

impl SavedProjectSelection {
    /// The document that holds the choices.
    pub fn to_json(&self) -> (r: Json)
        ensures
            r@ == self@.tree(),
    {
        broadcast use json::tree_parts;

        let mut v: Vec<(String, Json)> = Vec::new();
        v.push(("container".to_owned(), text_json(self.container.as_str())));
        v.push(("scheme".to_owned(), text_json(self.scheme.as_str())));
        v.push(("configuration".to_owned(), text_json(self.configuration.as_str())));
        v.push(("simulator_udid".to_owned(), text_json(self.simulator_udid.as_str())));
        let r = Json::Object(v);
        assert(r@->Object_0 =~= self@.tree()->Object_0);
        r
    }

    /// The choices that a document holds, if it holds them.
    pub fn from_json(json: &Json) -> (r: Option<SavedProjectSelection>)
        ensures
            match r {
                Some(value) => SavedView::decoded(json@) == Some(value@),
                None => SavedView::decoded(json@) is None,
            },
    {
        let container = match required_text(json, "container") {
            Some(container) => container,
            None => {
                return None;
            },
        };
        let scheme = match required_text(json, "scheme") {
            Some(scheme) => scheme,
            None => {
                return None;
            },
        };
        let configuration = match required_text(json, "configuration") {
            Some(configuration) => configuration,
            None => {
                return None;
            },
        };
        let simulator_udid = match required_text(json, "simulator_udid") {
            Some(simulator_udid) => simulator_udid,
            None => {
                return None;
            },
        };
        Some(SavedProjectSelection { container, scheme, configuration, simulator_udid })
    }
}

/// Choices that were written are read back unchanged.
pub proof fn written_choices_are_read_back(value: SavedView)
    ensures
        SavedView::decoded(value.tree()) == Some(value),
{
    let object = value.tree()->Object_0;
    reveal_strlit("container");
    reveal_strlit("scheme");
    reveal_strlit("configuration");
    reveal_strlit("simulator_udid");
    assert("container"@.len() == 9);
    assert("scheme"@.len() == 6);
    assert("configuration"@.len() == 13);
    assert("simulator_udid"@.len() == 14);
    json::member_stands_at(object, 0, "container"@);
    json::member_stands_at(object, 1, "scheme"@);
    json::member_stands_at(object, 2, "configuration"@);
    json::member_stands_at(object, 3, "simulator_udid"@);
}

/// The members of the document that holds a run of entries: one for each, named by
/// the project.
pub open spec fn entry_members(entries: Seq<SelectionEntry>) -> Seq<(Seq<char>, JsonTree)> {
    entries.map_values(|e: SelectionEntry| (e.project@, e.selection@.tree()))
}

/// The selections in the first `n` members, if each holds one. Of two members with
/// one name the later counts.
pub open spec fn decoded_selections(object: Seq<(Seq<char>, JsonTree)>, n: int) -> Option<
    Map<Seq<char>, SavedView>,
>
    decreases n,
{
    if n <= 0 {
        Some(Map::empty())
    } else {
        match (decoded_selections(object, n - 1), SavedView::decoded(object[n - 1].1)) {
            (Some(rest), Some(selection)) => Some(rest.insert(object[n - 1].0, selection)),
            _ => None,
        }
    }
}

/// The selections that a document holds, if it holds them.
pub open spec fn selections_of(t: JsonTree) -> Option<Map<Seq<char>, SavedView>> {
    match t {
        JsonTree::Object(object) => decoded_selections(object, object.len() as int),
        _ => None,
    }
}

proof fn undecodable_selections_stay(object: Seq<(Seq<char>, JsonTree)>, i: int, n: int)
    requires
        i <= n,
        decoded_selections(object, i) is None,
    ensures
        decoded_selections(object, n) is None,
    decreases n - i,
{
    if i < n && n > 0 {
        undecodable_selections_stay(object, i, n - 1);
    }
}

impl Selections {
    /// The document that holds the selections, in ascending order of the project.
    pub fn to_json(&self) -> (r: Json)
        ensures
            r@ == JsonTree::Object(entry_members(self.listed())),
            order::ascending(config::projects_of(self.listed())),
            self@ == config::table_of(self.listed()),
    {
        broadcast use json::tree_parts;

        let entries = self.entries();
        let ghost all = entry_members(entries@);
        let mut out: Vec<(String, Json)> = Vec::new();
        let mut i: usize = 0;
        assert(json::members(out@) =~= all.take(0));
        while i < entries.len()
            invariant
                i <= entries@.len(),
                all == entry_members(entries@),
                json::members(out@) == all.take(i as int),
            decreases entries@.len() - i,
        {
            let ghost before = out@;
            let item = (entries[i].project.clone(), entries[i].selection.to_json());
            assert((item.0@, item.1@) == all[i as int]);
            out.push(item);
            assert(json::members(out@) =~= json::members(before).push((item.0@, item.1@)));
            assert(all.take(i + 1) =~= all.take(i as int).push(all[i as int]));
            i = i + 1;
        }
        assert(all.take(i as int) =~= all);
        Json::Object(out)
    }

    /// The selections that a document holds, if it holds them.
    pub fn from_json(json: &Json) -> (r: Option<Selections>)
        ensures
            match r {
                Some(value) => selections_of(json@) == Some(value@),
                None => selections_of(json@) is None,
            },
    {
        broadcast use json::tree_parts;

        match json {
            Json::Object(v) => {
                let ghost object = json::members(v@);
                let mut out = Selections::new();
                let mut i: usize = 0;
                while i < v.len()
                    invariant
                        i <= v@.len(),
                        object == json::members(v@),
                        decoded_selections(object, i as int) == Some(out@),
                        selections_of(json@) == decoded_selections(object, object.len() as int),
                    decreases v@.len() - i,
                {
                    assert(object[i as int] == (v@[i as int].0@, v@[i as int].1@));
                    match SavedProjectSelection::from_json(&v[i].1) {
                        Some(selection) => {
                            let _ = out.insert(v[i].0.as_str(), selection);
                        },
                        None => {
                            proof {
                                undecodable_selections_stay(object, i + 1, object.len() as int);
                            }
                            return None;
                        },
                    }
                    i = i + 1;
                }
                Some(out)
            },
            _ => None,
        }
    }
}

proof fn decoded_selections_of_written(entries: Seq<SelectionEntry>, n: int)
    requires
        order::ascending(config::projects_of(entries)),
        0 <= n <= entries.len(),
    ensures
        decoded_selections(entry_members(entries), n) == Some(config::table_of(entries.take(n))),
    decreases n,
{
    let now = entries.take(n);
    if n > 0 {
        let before = entries.take(n - 1);
        let last = entries[n - 1];
        decoded_selections_of_written(entries, n - 1);
        written_choices_are_read_back(last.selection@);
        assert(entry_members(entries)[n - 1] == (last.project@, last.selection@.tree()));
        assert forall|i: int, j: int| 0 <= i < j < now.len() implies text::text_lt(
            #[trigger] config::projects_of(now)[i],
            #[trigger] config::projects_of(now)[j],
        ) by {
            assert(config::projects_of(now)[i] == config::projects_of(entries)[i]);
            assert(config::projects_of(now)[j] == config::projects_of(entries)[j]);
        }
        assert forall|i: int, j: int| 0 <= i < j < before.len() implies text::text_lt(
            #[trigger] config::projects_of(before)[i],
            #[trigger] config::projects_of(before)[j],
        ) by {
            assert(config::projects_of(before)[i] == config::projects_of(entries)[i]);
            assert(config::projects_of(before)[j] == config::projects_of(entries)[j]);
        }
        let table = config::table_of(now);
        let grown = config::table_of(before).insert(last.project@, last.selection@);
        config::position_is_unique(now, n - 1);
        assert forall|project: Seq<char>| #[trigger]
            table.dom().contains(project) == grown.dom().contains(project) && (
            table.dom().contains(project) ==> table[project] == grown[project]) by {
            if table.contains_key(project) && project != last.project@ {
                let i = config::entry_at(now, project);
                assert(config::stands_at(now, project, i));
                assert(config::stands_at(before, project, i));
                config::position_is_unique(before, i);
            }
            if grown.contains_key(project) && project != last.project@ {
                let i = config::entry_at(before, project);
                assert(config::stands_at(before, project, i));
                assert(config::stands_at(now, project, i));
                config::position_is_unique(now, i);
            }
        }
        assert(table.dom() =~= grown.dom());
        assert(table =~= grown);
    } else {
        assert(config::table_of(now) =~= Map::empty());
    }
}

// ---------------------------------------------------------------------------
// The configuration
// ---------------------------------------------------------------------------

/// The document that holds a configuration whose selections are listed as
/// `entries`.
pub open spec fn config_tree(
    schema: u32,
    roots: Seq<Seq<char>>,
    entries: Seq<SelectionEntry>,
) -> JsonTree {
    JsonTree::Object(
        seq![
            ("schema"@, wire::number_tree(schema as u64)),
            ("project_roots"@, wire::texts_tree(roots)),
            ("project_selections"@, JsonTree::Object(entry_members(entries))),
        ],
    )
}

impl ConfigView {
    /// The configuration that a document holds, if it holds one.
    pub open spec fn decoded(t: JsonTree) -> Option<ConfigView> {
        let schema = wire::number32_at(t, "schema"@);
        let roots = match t.get("project_roots"@) {
            Some(_) => wire::texts_at(t, "project_roots"@),
            None => None,
        };
        let selections = match t.get("project_selections"@) {
            Some(member) => selections_of(member),
            None => None,
        };
        if schema is Some && roots is Some && selections is Some {
            Some(
                ConfigView {
                    schema: schema->0,
                    project_roots: roots->0,
                    project_selections: selections->0,
                },
            )
        } else {
            None
        }
    }
}

impl Config {
    /// The document that holds the configuration.
    pub fn to_json(&self) -> (r: Json)
        ensures
            r@ == config_tree(
                self.schema,
                text::texts(self.project_roots@),
                self.project_selections.listed(),
            ),
            order::ascending(config::projects_of(self.project_selections.listed())),
            self.project_selections@ == config::table_of(self.project_selections.listed()),
    {
        broadcast use json::tree_parts;

        let mut v: Vec<(String, Json)> = Vec::new();
        v.push(("schema".to_owned(), Json::Number(Some(self.schema as u64))));
        v.push(("project_roots".to_owned(), texts_json(&self.project_roots)));
        v.push(("project_selections".to_owned(), self.project_selections.to_json()));
        let r = Json::Object(v);
        assert(r@->Object_0 =~= config_tree(
            self.schema,
            text::texts(self.project_roots@),
            self.project_selections.listed(),
        )->Object_0);
        r
    }

    /// The configuration that a document holds, if it holds one.
    pub fn from_json(json: &Json) -> (r: Option<Config>)
        ensures
            match r {
                Some(value) => ConfigView::decoded(json@) == Some(value@),
                None => ConfigView::decoded(json@) is None,
            },
    {
        let schema = match number32(json, "schema") {
            Some(schema) => schema,
            None => {
                return None;
            },
        };
        if json.get("project_roots").is_none() {
            return None;
        }
        let project_roots = match texts_member(json, "project_roots") {
            Some(project_roots) => project_roots,
            None => {
                return None;
            },
        };
        let project_selections = match json.get("project_selections") {
            Some(member) => match Selections::from_json(member) {
                Some(project_selections) => project_selections,
                None => {
                    return None;
                },
            },
            None => {
                return None;
            },
        };
        Some(Config { schema, project_roots, project_selections })
    }
}

/// A configuration that was written is read back unchanged.
pub proof fn written_configurations_are_read_back(
    schema: u32,
    roots: Seq<Seq<char>>,
    entries: Seq<SelectionEntry>,
)
    requires
        order::ascending(config::projects_of(entries)),
    ensures
        ConfigView::decoded(config_tree(schema, roots, entries)) == Some(
            ConfigView {
                schema,
                project_roots: roots,
                project_selections: config::table_of(entries),
            },
        ),
{
    let object = config_tree(schema, roots, entries)->Object_0;
    reveal_strlit("schema");
    reveal_strlit("project_roots");
    reveal_strlit("project_selections");
    assert("schema"@.len() == 6);
    assert("project_roots"@.len() == 13);
    assert("project_selections"@.len() == 18);
    json::member_stands_at(object, 0, "schema"@);
    json::member_stands_at(object, 1, "project_roots"@);
    wire::written_texts_are_read_back(roots);
    json::member_stands_at(object, 2, "project_selections"@);
    decoded_selections_of_written(entries, entries.len() as int);
    assert(entries.take(entries.len() as int) =~= entries);
    assert(entry_members(entries).len() == entries.len());
}

/// A saved choice is written under the names of its four parts.
pub proof fn choices_are_written_under_their_names(value: SavedView)
    ensures
        value.tree().get_text("container"@) == Some(value.container),
        value.tree().get_text("scheme"@) == Some(value.scheme),
        value.tree().get_text("configuration"@) == Some(value.configuration),
        value.tree().get_text("simulator_udid"@) == Some(value.simulator_udid),
{
    let object = value.tree()->Object_0;
    reveal_strlit("container");
    reveal_strlit("scheme");
    reveal_strlit("configuration");
    reveal_strlit("simulator_udid");
    assert("container"@.len() == 9);
    assert("scheme"@.len() == 6);
    assert("configuration"@.len() == 13);
    assert("simulator_udid"@.len() == 14);
    json::member_stands_at(object, 0, "container"@);
    json::member_stands_at(object, 1, "scheme"@);
    json::member_stands_at(object, 2, "configuration"@);
    json::member_stands_at(object, 3, "simulator_udid"@);
}

/// A configuration is written under the names of its parts, with the roots in their order.
pub proof fn configurations_are_written_under_their_names(
    schema: u32,
    roots: Seq<Seq<char>>,
    entries: Seq<SelectionEntry>,
    i: int,
)
    requires
        0 <= i < roots.len(),
    ensures
        config_tree(schema, roots, entries).get_number("schema"@) == Some(schema as u64),
        config_tree(schema, roots, entries).get("project_roots"@) matches Some(
            JsonTree::Array(items),
        ) && items.len() == roots.len() && items[i] == JsonTree::Text(roots[i]),
        config_tree(schema, roots, entries).get("project_selections"@) is Some,
{
    let object = config_tree(schema, roots, entries)->Object_0;
    reveal_strlit("schema");
    reveal_strlit("project_roots");
    reveal_strlit("project_selections");
    assert("schema"@.len() == 6);
    assert("project_roots"@.len() == 13);
    assert("project_selections"@.len() == 18);
    json::member_stands_at(object, 0, "schema"@);
    json::member_stands_at(object, 1, "project_roots"@);
    json::member_stands_at(object, 2, "project_selections"@);
}

} // verus!
