//! The application that a build produces, as build settings describe it.
use vstd::prelude::*;

use crate::error;
use crate::error::{ErrorCode, SimtopError};
use crate::json;
use crate::json::{parse_json, Json, JsonTree};
use crate::order;
use crate::order::{insert_ranked_set, Ranked};
use crate::path;
use crate::path::path_before;
use crate::project::discovery;
use crate::text;
use crate::text::{
    cat4, decimal_text, eq_ignore_ascii_case, join, same_text, text_before,
};

verus! {

/// A built application.
#[derive(Debug, PartialEq, Eq)]
pub struct BuildProduct {
    /// Path of the application bundle.
    pub app_path: String,
    /// Bundle identifier of the application.
    pub bundle_id: String,
}

/// The content of a [`BuildProduct`].
#[verifier::ext_equal]
pub struct ProductView {
    pub app_path: Seq<char>,
    pub bundle_id: Seq<char>,
}

impl View for BuildProduct {
    type V = ProductView;

    open spec fn view(&self) -> ProductView {
        ProductView { app_path: self.app_path@, bundle_id: self.bundle_id@ }
    }
}

impl Clone for BuildProduct {
    fn clone(&self) -> (r: Self)
        ensures
            r == *self,
    {
        BuildProduct { app_path: self.app_path.clone(), bundle_id: self.bundle_id.clone() }
    }
}

impl Ranked for BuildProduct {
    /// Products are ordered by path, then by bundle identifier.
    open spec fn before(a: ProductView, b: ProductView) -> bool {
        path::path_lt(a.app_path, b.app_path) || (!path::path_lt(b.app_path, a.app_path)
            && text::text_lt(a.bundle_id, b.bundle_id))
    }

    fn is_before(&self, other: &Self) -> (r: bool) {
        path_before(self.app_path.as_str(), other.app_path.as_str()) || (!path_before(
            other.app_path.as_str(),
            self.app_path.as_str(),
        ) && text_before(self.bundle_id.as_str(), other.bundle_id.as_str()))
    }

    proof fn asymmetric(a: ProductView, b: ProductView) {
        path::path_order_is_asymmetric(a.app_path, b.app_path);
        text::text_lt_one_way(a.bundle_id, b.bundle_id);
    }

    proof fn transitive(a: ProductView, b: ProductView, c: ProductView) {
        path::path_order_is_asymmetric(a.app_path, b.app_path);
        path::path_order_is_asymmetric(b.app_path, c.app_path);
        path::path_order_is_asymmetric(a.app_path, c.app_path);
        path::path_order_is_weak(a.app_path, b.app_path, c.app_path);
        if path::path_lt(a.app_path, b.app_path) && !path::path_lt(b.app_path, c.app_path) {
            if !path::path_lt(a.app_path, c.app_path) {
                path::path_order_is_weak(b.app_path, c.app_path, a.app_path);
            }
        }
        if !path::path_lt(a.app_path, b.app_path) && path::path_lt(b.app_path, c.app_path) {
            if !path::path_lt(a.app_path, c.app_path) {
                path::path_order_is_weak(c.app_path, a.app_path, b.app_path);
            }
        }
        if path::path_lt(a.app_path, b.app_path) && path::path_lt(b.app_path, c.app_path) {
            if !path::path_lt(a.app_path, c.app_path) {
                path::path_order_is_weak(c.app_path, a.app_path, b.app_path);
            }
        }
        text::text_lt_total(a.bundle_id, b.bundle_id);
        text::text_lt_total(b.bundle_id, c.bundle_id);
        text::text_lt_one_way(a.bundle_id, c.bundle_id);
        text::text_lt_irreflexive(a.bundle_id);
        if text::text_lt(a.bundle_id, b.bundle_id) && text::text_lt(b.bundle_id, c.bundle_id) {
            text::text_lt_transitive(a.bundle_id, b.bundle_id, c.bundle_id);
        }
    }
}

// ---------------------------------------------------------------------------
// Candidates
// ---------------------------------------------------------------------------

/// A text that may be missing, or nothing.
pub open spec fn or_empty(o: Option<Seq<char>>) -> Seq<char> {
    match o {
        Some(s) => s,
        None => Seq::empty(),
    }
}

/// Whether settings describe an application: by the type of the product, by the
/// extension of the wrapper, or by the wrapper's name.
pub open spec fn is_application(settings: JsonTree, wrapper: Seq<char>) -> bool {
    ||| settings.get_text("PRODUCT_TYPE"@) == Some("com.apple.product-type.application"@)
    ||| text::same_ignoring_case(or_empty(settings.get_text("WRAPPER_EXTENSION"@)), "app"@)
    ||| discovery::has_extension(wrapper, "app"@)
}

/// The application that settings describe.
pub open spec fn candidate(settings: JsonTree) -> Option<ProductView> {
    let directory = settings.get_text("TARGET_BUILD_DIR"@);
    let wrapper = settings.get_text("WRAPPER_NAME"@);
    let bundle_id = settings.get_text("PRODUCT_BUNDLE_IDENTIFIER"@);
    if directory is None || wrapper is None || bundle_id is None {
        None
    } else if directory->0.len() == 0 || wrapper->0.len() == 0 || bundle_id->0.len() == 0 {
        None
    } else if is_application(settings, wrapper->0) {
        Some(
            ProductView {
                app_path: path::joined(directory->0, wrapper->0),
                bundle_id: bundle_id->0,
            },
        )
    } else {
        None
    }
}

/// The application that settings describe.
pub fn candidate_from_settings(settings: &Json) -> (r: Option<BuildProduct>)
    ensures
        match r {
            Some(product) => candidate(settings@) == Some(product@),
            None => candidate(settings@) is None,
        },
{
    let directory = match settings.get_text("TARGET_BUILD_DIR") {
        Some(s) => s,
        None => {
            return None;
        },
    };
    let wrapper = match settings.get_text("WRAPPER_NAME") {
        Some(s) => s,
        None => {
            return None;
        },
    };
    let bundle_id = match settings.get_text("PRODUCT_BUNDLE_IDENTIFIER") {
        Some(s) => s,
        None => {
            return None;
        },
    };
    if directory.is_empty() || wrapper.is_empty() || bundle_id.is_empty() {
        return None;
    }
    let by_type = match settings.get_text("PRODUCT_TYPE") {
        Some(s) => same_text(s, "com.apple.product-type.application"),
        None => false,
    };
    let by_extension = match settings.get_text("WRAPPER_EXTENSION") {
        Some(s) => eq_ignore_ascii_case(s, "app"),
        None => {
            proof {
                reveal_strlit("app");
                assert(text::lowered(Seq::<char>::empty()).len() != text::lowered("app"@).len());
            }
            false
        },
    };
    let by_name = match path::extension(wrapper) {
        Some(extension) => eq_ignore_ascii_case(extension.as_str(), "app"),
        None => false,
    };
    if by_type || by_extension || by_name {
        Some(
            BuildProduct {
                app_path: path::join(directory, wrapper),
                bundle_id: bundle_id.to_owned(),
            },
        )
    } else {
        None
    }
}

/// The application that an object's own `buildSettings` describe.
pub open spec fn own_candidate(object: JsonTree) -> Seq<ProductView> {
    match object.get("buildSettings"@) {
        Some(settings) => if settings is Object && candidate(settings) is Some {
            seq![candidate(settings)->0]
        } else {
            Seq::empty()
        },
        None => Seq::empty(),
    }
}

/// The applications that a document describes at any depth, in the order in
/// which they stand in it.
pub open spec fn candidates(document: JsonTree) -> Seq<ProductView>
    decreases document, 1nat,
{
    match document {
        JsonTree::Array(items) => candidates_in_items(items),
        JsonTree::Object(object) => own_candidate(document) + candidates_in_members(object),
        _ => Seq::empty(),
    }
}

/// The applications that the elements of an array describe.
pub open spec fn candidates_in_items(items: Seq<JsonTree>) -> Seq<ProductView>
    decreases items, 0nat,
{
    if items.len() == 0 {
        Seq::empty()
    } else {
        let n = items.len() as int;
        candidates_in_items(items.subrange(0, n - 1)) + candidates(items[n - 1])
    }
}

/// The applications that the members of an object describe.
pub open spec fn candidates_in_members(object: Seq<(Seq<char>, JsonTree)>) -> Seq<ProductView>
    decreases object, 0nat,
{
    if object.len() == 0 {
        Seq::empty()
    } else {
        let n = object.len() as int;
        candidates_in_members(object.subrange(0, n - 1)) + candidates(object[n - 1].1)
    }
}

/// Products in order, each once.
pub open spec fn distinct_products(all: Seq<ProductView>) -> Seq<ProductView>
    decreases all.len(),
{
    if all.len() == 0 {
        Seq::empty()
    } else {
        order::ranked_set_insert::<BuildProduct>(distinct_products(all.drop_last()), all.last())
    }
}

/// Whether a run of products, started with those of `before`, took in `more`.
proof fn distinct_products_grow(before: Seq<ProductView>, more: ProductView)
    ensures
        distinct_products(before.push(more)) == order::ranked_set_insert::<BuildProduct>(
            distinct_products(before),
            more,
        ),
{
    assert(before.push(more).drop_last() =~= before);
}

fn collect_candidates(document: &Json, found: &mut Vec<BuildProduct>, Ghost(so_far): Ghost<
    Seq<ProductView>,
>)
    requires
        order::views(old(found)@) == distinct_products(so_far),
    ensures
        order::views(final(found)@) == distinct_products(so_far + candidates(document@)),
    decreases document,
{
    broadcast use json::tree_parts;

    match document {
        Json::Array(v) => {
            let ghost items = json::trees(v@);
            assert(decreases_to!(*document => document->Array_0));
            let mut i: usize = 0;
            assert(items.take(0) =~= Seq::empty());
            assert(so_far + candidates_in_items(items.take(0)) =~= so_far);
            while i < v.len()
                invariant
                    i <= v@.len(),
                    *document == Json::Array(*v),
                    items == json::trees(v@),
                    decreases_to!(*document => *v),
                    order::views(found@) == distinct_products(
                        so_far + candidates_in_items(items.take(i as int)),
                    ),
                decreases v@.len() - i,
            {
                assert(decreases_to!(*v => v@));
                assert(decreases_to!(v@ => v@[i as int]));
                assert(items[i as int] == v@[i as int]@);
                let ghost before = so_far + candidates_in_items(items.take(i as int));
                assert(items.take(i + 1).subrange(0, i as int) =~= items.take(i as int));
                assert(before + candidates(items[i as int]) =~= so_far + candidates_in_items(
                    items.take(i + 1),
                ));
                collect_candidates(&v[i], found, Ghost(before));
                i = i + 1;
            }
            assert(items.take(i as int) =~= items);
            assert(document@ == JsonTree::Array(items));
        },
        Json::Object(v) => {
            let ghost all = json::members(v@);
            let ghost own = own_candidate(document@);
            assert(decreases_to!(*document => document->Object_0));
            assert(so_far + Seq::<ProductView>::empty() =~= so_far);
            if let Some(settings) = document.get("buildSettings") {
                let is_object = match settings {
                    Json::Object(_) => true,
                    _ => false,
                };
                if is_object {
                    if let Some(product) = candidate_from_settings(settings) {
                        proof {
                            distinct_products_grow(so_far, product@);
                            assert(so_far.push(product@) =~= so_far + seq![product@]);
                        }
                        insert_ranked_set(found, product);
                    }
                }
            }
            assert(order::views(found@) == distinct_products(so_far + own));
            let mut i: usize = 0;
            assert(all.take(0) =~= Seq::empty());
            assert(so_far + own + candidates_in_members(all.take(0)) =~= so_far + own);
            while i < v.len()
                invariant
                    i <= v@.len(),
                    *document == Json::Object(*v),
                    all == json::members(v@),
                    decreases_to!(*document => *v),
                    order::views(found@) == distinct_products(
                        so_far + own + candidates_in_members(all.take(i as int)),
                    ),
                decreases v@.len() - i,
            {
                assert(decreases_to!(*v => v@));
                assert(decreases_to!(v@ => v@[i as int]));
                assert(decreases_to!(v@[i as int] => v@[i as int].1));
                assert(all[i as int] == (v@[i as int].0@, v@[i as int].1@));
                let ghost before = so_far + own + candidates_in_members(all.take(i as int));
                assert(all.take(i + 1).subrange(0, i as int) =~= all.take(i as int));
                assert(before + candidates(all[i as int].1) =~= so_far + own
                    + candidates_in_members(all.take(i + 1)));
                collect_candidates(&v[i].1, found, Ghost(before));
                i = i + 1;
            }
            assert(all.take(i as int) =~= all);
            assert(document@ == JsonTree::Object(all));
            assert(so_far + own + candidates_in_members(all) =~= so_far + candidates(document@));
        },
        _ => {
            assert(so_far + candidates(document@) =~= so_far);
        },
    }
}

// ---------------------------------------------------------------------------
// The one product
// ---------------------------------------------------------------------------

/// A product as a message names it.
pub open spec fn product_text(product: ProductView) -> Seq<char> {
    product.app_path + " ("@ + product.bundle_id + ")"@
}

/// The one product among those found.
pub open spec fn one_product(products: Seq<ProductView>) -> Result<ProductView, error::Failure> {
    if products.len() == 1 {
        Ok(products[0])
    } else if products.len() == 0 {
        Err(
            error::failure(
                ErrorCode::ParseError,
                "xcodebuild settings contained no application product (expected TARGET_BUILD_DIR, WRAPPER_NAME, PRODUCT_BUNDLE_IDENTIFIER, and an application product indicator)"@,
            ),
        )
    } else {
        Err(
            error::failure(
                ErrorCode::ParseError,
                "xcodebuild settings contained "@ + text::decimal(products.len())
                    + " application products; expected exactly one: "@ + text::joined(
                    products.map_values(|p: ProductView| product_text(p)),
                    ", "@,
                ),
            ),
        )
    }
}

fn show_products(products: &Vec<BuildProduct>) -> (r: String)
    ensures
        r@ == text::joined(
            order::views(products@).map_values(|p: ProductView| product_text(p)),
            ", "@,
        ),
{
    let ghost all = order::views(products@).map_values(|p: ProductView| product_text(p));
    let mut parts: Vec<String> = Vec::new();
    let mut i: usize = 0;
    assert(text::texts(parts@) =~= all.take(0));
    while i < products.len()
        invariant
            i <= products@.len(),
            all == order::views(products@).map_values(|p: ProductView| product_text(p)),
            text::texts(parts@) == all.take(i as int),
        decreases products@.len() - i,
    {
        let ghost before = parts@;
        let part = cat4(
            products[i].app_path.as_str(),
            " (",
            products[i].bundle_id.as_str(),
            ")",
        );
        assert(part@ == all[i as int]);
        parts.push(part);
        assert(text::texts(parts@) =~= text::texts(before).push(part@));
        assert(all.take(i + 1) =~= all.take(i as int).push(all[i as int]));
        i = i + 1;
    }
    assert(all.take(i as int) =~= all);
    join(&parts, ", ")
}

/// The one application that a document of build settings describes.
pub fn product_from_json(document: &Json) -> (r: Result<BuildProduct, SimtopError>)
    ensures
        error::outcome(r) == one_product(distinct_products(candidates(document@))),
{
    let mut found: Vec<BuildProduct> = Vec::new();
    assert(order::views(found@) =~= distinct_products(Seq::empty()));
    collect_candidates(document, &mut found, Ghost(Seq::empty()));
    assert(Seq::<ProductView>::empty() + candidates(document@) =~= candidates(document@));
    let ghost products = order::views(found@);
    assert(products.len() == found@.len());
    if found.len() == 1 {
        assert(products[0] == found@[0]@);
        return Ok(found.remove(0));
    }
    if found.len() == 0 {
        return Err(
            SimtopError::new(
                ErrorCode::ParseError,
                "xcodebuild settings contained no application product (expected TARGET_BUILD_DIR, WRAPPER_NAME, PRODUCT_BUNDLE_IDENTIFIER, and an application product indicator)",
            ),
        );
    }
    let count = decimal_text(found.len() as u64);
    let names = show_products(&found);
    Err(
        SimtopError::new(
            ErrorCode::ParseError,
            cat4(
                "xcodebuild settings contained ",
                count.as_str(),
                " application products; expected exactly one: ",
                names.as_str(),
            ).as_str(),
        ),
    )
}

/// The one application that build settings describe.
pub open spec fn described_product(settings: Seq<char>) -> Result<ProductView, error::Failure> {
    match json::parsed(settings) {
        Ok(document) => one_product(distinct_products(candidates(document))),
        Err(error) => Err(
            error::failure_from(
                ErrorCode::ParseError,
                "failed to parse xcodebuild build settings JSON"@,
                error,
            ),
        ),
    }
}

/// The one application in what `xcodebuild -showBuildSettings -json` wrote. The
/// file system is not searched.
pub fn resolve_application_product(settings: &str) -> (r: Result<BuildProduct, SimtopError>)
    ensures
        error::outcome(r) == described_product(settings@),
{
    match parse_json(settings) {
        Ok(document) => product_from_json(&document),
        Err(error) => Err(
            SimtopError::with_source(
                ErrorCode::ParseError,
                "failed to parse xcodebuild build settings JSON",
                error.as_str(),
            ),
        ),
    }
}

// ---------------------------------------------------------------------------
// Targets
// ---------------------------------------------------------------------------

/// Whether all members of an object are texts, as those of build settings are.
pub open spec fn all_texts(settings: JsonTree) -> bool {
    settings matches JsonTree::Object(object) && forall|i: int|
        0 <= i < object.len() ==> (#[trigger] object[i]).1 is Text
}

/// Whether a document is that of a target: texts about the target, and its build
/// settings.
pub open spec fn is_target(target: JsonTree, settings: JsonTree) -> bool {
    &&& all_texts(settings)
    &&& target.get("buildSettings"@) == Some(settings)
    &&& target matches JsonTree::Object(object) && forall|i: int|
        0 <= i < object.len() ==> (#[trigger] object[i]).1 is Text || object[i] == (
            "buildSettings"@,
            settings,
        )
}

/// The application that settings name by their directory, wrapper and bundle
/// identifier.
pub open spec fn names_product(
    settings: JsonTree,
    directory: Seq<char>,
    wrapper: Seq<char>,
    bundle_id: Seq<char>,
) -> bool {
    &&& settings.get_text("TARGET_BUILD_DIR"@) == Some(directory)
    &&& settings.get_text("WRAPPER_NAME"@) == Some(wrapper)
    &&& settings.get_text("PRODUCT_BUNDLE_IDENTIFIER"@) == Some(bundle_id)
}

/// Whether a wrapper's name ends in a name, and not in a separator or a `.`
/// component.
pub open spec fn ends_in_a_name(wrapper: Seq<char>) -> bool {
    &&& wrapper.len() > 0 ==> wrapper.last() != '/'
    &&& wrapper.len() > 1 && wrapper.last() == '.' ==> wrapper[wrapper.len() - 2] != '/'
}

proof fn text_members_describe_nothing(object: Seq<(Seq<char>, JsonTree)>)
    requires
        forall|i: int| 0 <= i < object.len() ==> (#[trigger] object[i]).1 is Text,
    ensures
        candidates_in_members(object).len() == 0,
    decreases object.len(),
{
    if object.len() > 0 {
        let n = object.len() as int;
        let rest = object.subrange(0, n - 1);
        assert forall|i: int| 0 <= i < rest.len() implies (#[trigger] rest[i]).1 is Text by {
            assert(rest[i] == object[i]);
        }
        text_members_describe_nothing(rest);
        assert(candidates(object[n - 1].1).len() == 0);
    }
}

proof fn found_members_stand_in_objects(object: Seq<(Seq<char>, JsonTree)>, key: Seq<char>)
    ensures
        json::member_of(object, key) matches Some(value) ==> exists|i: int|
            0 <= i < object.len() && (#[trigger] object[i]).1 == value,
    decreases object.len(),
{
    if object.len() > 0 {
        if object[0].0 != key {
            let rest = object.drop_first();
            found_members_stand_in_objects(rest, key);
            if let Some(value) = json::member_of(rest, key) {
                let i = choose|i: int| 0 <= i < rest.len() && (#[trigger] rest[i]).1 == value;
                assert(object[i + 1] == rest[i]);
            }
        } else {
            assert(object[0].1 == object[0].1);
        }
    }
}

proof fn text_settings_describe_nothing(settings: JsonTree)
    requires
        all_texts(settings),
    ensures
        candidates(settings).len() == 0,
{
    let object = settings->Object_0;
    text_members_describe_nothing(object);
    found_members_stand_in_objects(object, "buildSettings"@);
}

proof fn target_members_describe_nothing(
    object: Seq<(Seq<char>, JsonTree)>,
    settings: JsonTree,
)
    requires
        all_texts(settings),
        forall|i: int|
            0 <= i < object.len() ==> (#[trigger] object[i]).1 is Text || object[i] == (
                "buildSettings"@,
                settings,
            ),
    ensures
        candidates_in_members(object).len() == 0,
    decreases object.len(),
{
    if object.len() > 0 {
        let n = object.len() as int;
        let rest = object.subrange(0, n - 1);
        assert forall|i: int| 0 <= i < rest.len() implies (#[trigger] rest[i]).1 is Text || rest[i]
            == ("buildSettings"@, settings) by {
            assert(rest[i] == object[i]);
        }
        target_members_describe_nothing(rest, settings);
        text_settings_describe_nothing(settings);
        assert(candidates(object[n - 1].1).len() == 0);
    }
}

proof fn targets_describe_their_settings(target: JsonTree, settings: JsonTree)
    requires
        is_target(target, settings),
    ensures
        candidates(target) =~= match candidate(settings) {
            Some(product) => seq![product],
            None => Seq::empty(),
        },
{
    target_members_describe_nothing(target->Object_0, settings);
}

proof fn items_describe_in_turn(a: Seq<JsonTree>, b: Seq<JsonTree>)
    ensures
        candidates_in_items(a + b) =~= candidates_in_items(a) + candidates_in_items(b),
    decreases b.len(),
{
    if b.len() == 0 {
        assert(a + b =~= a);
    } else {
        let n = b.len() as int;
        items_describe_in_turn(a, b.subrange(0, n - 1));
        assert((a + b).subrange(0, (a + b).len() - 1) =~= a + b.subrange(0, n - 1));
        assert((a + b)[(a + b).len() - 1] == b[n - 1]);
    }
}

/// A target contributes no product unless its settings call it an application: by
/// the type of the product, by the extension of the wrapper, or by the ending of the
/// wrapper's name. So build settings with one more such target, wherever it stands
/// among the others, describe the same product as without it.
pub proof fn other_targets_change_nothing(
    before: Seq<JsonTree>,
    target: JsonTree,
    settings: JsonTree,
    after: Seq<JsonTree>,
    with_target: Seq<char>,
    without_target: Seq<char>,
)
    requires
        is_target(target, settings),
        settings.get_text("PRODUCT_TYPE"@) != Some("com.apple.product-type.application"@),
        settings.get_text("WRAPPER_EXTENSION"@) matches Some(e) ==> !text::same_ignoring_case(
            e,
            "app"@,
        ),
        settings.get_text("WRAPPER_NAME"@) matches Some(wrapper) ==> ends_in_a_name(wrapper)
            && !text::ends_in(wrapper, ".app"@),
        json::parsed(with_target) == Ok::<JsonTree, Seq<char>>(
            JsonTree::Array(before + seq![target] + after),
        ),
        json::parsed(without_target) == Ok::<JsonTree, Seq<char>>(JsonTree::Array(before + after)),
    ensures
        candidate(settings) is None,
        candidates(target).len() == 0,
        described_product(with_target) == described_product(without_target),
{
    reveal_strlit("app");
    reveal_strlit(".");
    reveal_strlit(".app");
    assert("."@ + "app"@ =~= ".app"@);
    assert(text::lowered(Seq::<char>::empty()).len() != text::lowered("app"@).len());
    if let Some(wrapper) = settings.get_text("WRAPPER_NAME"@) {
        discovery::extensions_are_endings(wrapper, "app"@);
    }
    targets_describe_their_settings(target, settings);
    items_describe_in_turn(before + seq![target], after);
    items_describe_in_turn(before, seq![target]);
    items_describe_in_turn(before, after);
    assert(seq![target].subrange(0, 0) =~= Seq::empty());
    assert(candidates_in_items(Seq::<JsonTree>::empty()) =~= Seq::empty());
    assert(candidates_in_items(seq![target]) =~= Seq::empty());
}

proof fn equal_products_are_one(all: Seq<ProductView>, product: ProductView)
    requires
        all.len() > 0,
        forall|i: int| 0 <= i < all.len() ==> #[trigger] all[i] == product,
    ensures
        distinct_products(all) =~= seq![product],
    decreases all.len(),
{
    let rest = all.drop_last();
    assert(all.last() == all[all.len() - 1]);
    if BuildProduct::before(product, product) {
        BuildProduct::asymmetric(product, product);
    }
    if rest.len() > 0 {
        assert forall|i: int| 0 <= i < rest.len() implies #[trigger] rest[i] == product by {
            assert(rest[i] == all[i]);
        }
        equal_products_are_one(rest, product);
        assert(seq![product][0] == product);
        assert(order::ranked_present::<BuildProduct>(seq![product], product));
    } else {
        assert(distinct_products(rest) =~= Seq::empty());
    }
}

proof fn targets_describe_one_product(
    targets: Seq<JsonTree>,
    settings: Seq<JsonTree>,
    product: ProductView,
)
    requires
        targets.len() == settings.len(),
        forall|j: int|
            0 <= j < targets.len() ==> is_target(#[trigger] targets[j], settings[j]) && (candidate(
                settings[j],
            ) is None || candidate(settings[j]) == Some(product)),
    ensures
        forall|k: int|
            0 <= k < candidates_in_items(targets).len() ==> #[trigger] candidates_in_items(
                targets,
            )[k] == product,
        candidates_in_items(targets).len() == 0 <==> forall|j: int|
            0 <= j < targets.len() ==> candidate(#[trigger] settings[j]) is None,
    decreases targets.len(),
{
    if targets.len() > 0 {
        let n = targets.len() as int;
        let rest = targets.subrange(0, n - 1);
        let others = settings.subrange(0, n - 1);
        assert forall|j: int| 0 <= j < rest.len() implies is_target(#[trigger] rest[j], others[j])
            && (candidate(others[j]) is None || candidate(others[j]) == Some(product)) by {
            assert(rest[j] == targets[j]);
            assert(others[j] == settings[j]);
        }
        targets_describe_one_product(rest, others, product);
        assert(is_target(targets[n - 1], settings[n - 1]));
        targets_describe_their_settings(targets[n - 1], settings[n - 1]);
        if forall|j: int| 0 <= j < targets.len() ==> candidate(#[trigger] settings[j]) is None {
            assert forall|j: int| 0 <= j < rest.len() implies candidate(#[trigger] others[j]) is None by {
                assert(others[j] == settings[j]);
            }
        }
        if candidates_in_items(targets).len() == 0 {
            assert forall|j: int| 0 <= j < targets.len() implies candidate(
                #[trigger] settings[j],
            ) is None by {
                if j < n - 1 {
                    assert(others[j] == settings[j]);
                }
            }
        }
    }
}

/// Whether settings call their target an application: by the type of the product,
/// by the extension of the wrapper, or by the ending of the wrapper's name.
pub open spec fn calls_application(settings: JsonTree, wrapper: Seq<char>) -> bool {
    ||| settings.get_text("PRODUCT_TYPE"@) == Some("com.apple.product-type.application"@)
    ||| (settings.get_text("WRAPPER_EXTENSION"@) matches Some(e) && text::same_ignoring_case(
        e,
        "app"@,
    ))
    ||| (wrapper.len() > 4 && wrapper[wrapper.len() - 5] != '/' && text::ends_in(wrapper, ".app"@))
}

/// The product that build settings describe is the application among their targets:
/// where each target is that application, under one path and bundle identifier, or
/// no application at all, it is the application when there is one and an error when
/// there is none.
pub proof fn the_application_among_targets_is_the_product(
    targets: Seq<JsonTree>,
    settings: Seq<JsonTree>,
    directory: Seq<char>,
    wrapper: Seq<char>,
    bundle_id: Seq<char>,
    all: Seq<char>,
)
    requires
        targets.len() == settings.len(),
        directory.len() > 0,
        directory.last() != '/',
        wrapper.len() > 0,
        wrapper[0] != '/',
        bundle_id.len() > 0,
        json::parsed(all) == Ok::<JsonTree, Seq<char>>(JsonTree::Array(targets)),
        forall|j: int|
            #![trigger targets[j]]
            0 <= j < targets.len() ==> is_target(targets[j], settings[j]) && match settings[j].get_text(
                "WRAPPER_NAME"@,
            ) {
                Some(w) => ends_in_a_name(w) && (calls_application(settings[j], w) ==> names_product(
                    settings[j],
                    directory,
                    wrapper,
                    bundle_id,
                )),
                None => true,
            },
    ensures
        (exists|j: int|
            0 <= j < targets.len() && names_product(
                #[trigger] settings[j],
                directory,
                wrapper,
                bundle_id,
            ) && calls_application(settings[j], wrapper)) ==> described_product(all) == Ok::<
            ProductView,
            error::Failure,
        >(ProductView { app_path: directory + "/"@ + wrapper, bundle_id }),
        !(exists|j: int|
            0 <= j < targets.len() && names_product(
                #[trigger] settings[j],
                directory,
                wrapper,
                bundle_id,
            ) && calls_application(settings[j], wrapper)) ==> (described_product(
            all,
        ) matches Err(e) && e.code == ErrorCode::ParseError),
{
    reveal_strlit("app");
    reveal_strlit(".");
    reveal_strlit(".app");
    assert("."@ + "app"@ =~= ".app"@);
    assert(text::lowered(Seq::<char>::empty()).len() != text::lowered("app"@).len());
    let product = ProductView { app_path: directory + "/"@ + wrapper, bundle_id };
    assert(path::joined(directory, wrapper) =~= product.app_path);
    assert forall|j: int| 0 <= j < targets.len() implies is_target(#[trigger] targets[j], settings[j])
        && (candidate(settings[j]) is None || candidate(settings[j]) == Some(product)) && (candidate(
        settings[j],
    ) is Some <==> names_product(settings[j], directory, wrapper, bundle_id) && calls_application(
        settings[j],
        wrapper,
    )) by {
        assert(is_target(targets[j], settings[j]));
        if let Some(w) = settings[j].get_text("WRAPPER_NAME"@) {
            discovery::extensions_are_endings(w, "app"@);
            assert(is_application(settings[j], w) == calls_application(settings[j], w));
        }
    }
    targets_describe_one_product(targets, settings, product);
    let found = candidates_in_items(targets);
    if found.len() > 0 {
        equal_products_are_one(found, product);
        let j = choose|j: int| 0 <= j < targets.len() && candidate(#[trigger] settings[j]) is Some;
        assert(is_target(targets[j], settings[j]));
    } else {
        assert(distinct_products(found) =~= Seq::empty());
        assert forall|j: int| 0 <= j < targets.len() implies !(names_product(
            #[trigger] settings[j],
            directory,
            wrapper,
            bundle_id,
        ) && calls_application(settings[j], wrapper)) by {
            assert(is_target(targets[j], settings[j]));
        }
    }
}

proof fn products_have_a_place(all: Seq<ProductView>, i: int)
    requires
        0 <= i < all.len(),
    ensures
        order::strictly_in_order::<BuildProduct>(distinct_products(all)),
        order::ranked_present::<BuildProduct>(distinct_products(all), all[i]),
    decreases all.len(),
{
    broadcast use vstd::seq_lib::group_to_multiset_ensures;

    let rest = all.drop_last();
    let before = distinct_products(rest);
    let after = distinct_products(all);
    if rest.len() > 0 {
        products_have_a_place(rest, 0);
    }
    if !order::ranked_present::<BuildProduct>(before, all.last()) {
        order::insert_keeps_strict_order::<BuildProduct>(before, all.last());
        order::strict_order_is_order::<BuildProduct>(before);
        order::insert_keeps_order::<BuildProduct>(before, all.last());
        if BuildProduct::before(all.last(), all.last()) {
            BuildProduct::asymmetric(all.last(), all.last());
        }
        assert(after.to_multiset().contains(all.last()));
    }
    if i < rest.len() {
        products_have_a_place(rest, i);
        assert(rest[i] == all[i]);
        let k = choose|k: int|
            0 <= k < before.len() && !BuildProduct::before(#[trigger] before[k], all[i])
                && !BuildProduct::before(all[i], before[k]);
        assert(before.to_multiset().contains(before[k]));
        assert(after.to_multiset().contains(before[k]));
        assert(after.contains(before[k]));
    } else {
        assert(all[i] == all.last());
        if !order::ranked_present::<BuildProduct>(before, all.last()) {
            assert(after.contains(all.last()));
        }
    }
}

/// Build settings that describe two different applications, one in each of two of
/// their targets, describe no product.
pub proof fn two_applications_are_refused(
    targets: Seq<JsonTree>,
    settings: Seq<JsonTree>,
    i: int,
    j: int,
    directory: Seq<char>,
    first: (Seq<char>, Seq<char>),
    second: (Seq<char>, Seq<char>),
    all: Seq<char>,
)
    requires
        targets.len() == settings.len(),
        0 <= i < targets.len(),
        0 <= j < targets.len(),
        is_target(targets[i], settings[i]),
        is_target(targets[j], settings[j]),
        directory.len() > 0,
        directory.last() != '/',
        first.0.len() > 0 && first.0[0] != '/' && first.1.len() > 0,
        second.0.len() > 0 && second.0[0] != '/' && second.1.len() > 0,
        names_product(settings[i], directory, first.0, first.1),
        names_product(settings[j], directory, second.0, second.1),
        settings[i].get_text("PRODUCT_TYPE"@) == Some("com.apple.product-type.application"@),
        settings[j].get_text("PRODUCT_TYPE"@) == Some("com.apple.product-type.application"@),
        first.1 != second.1 || !path::same_path(
            directory + "/"@ + first.0,
            directory + "/"@ + second.0,
        ),
        json::parsed(all) == Ok::<JsonTree, Seq<char>>(JsonTree::Array(targets)),
    ensures
        described_product(all) matches Err(e) && e.code == ErrorCode::ParseError,
{
    let a = ProductView { app_path: directory + "/"@ + first.0, bundle_id: first.1 };
    let b = ProductView { app_path: directory + "/"@ + second.0, bundle_id: second.1 };
    assert(path::joined(directory, first.0) =~= a.app_path);
    assert(path::joined(directory, second.0) =~= b.app_path);
    targets_describe_their_settings(targets[i], settings[i]);
    targets_describe_their_settings(targets[j], settings[j]);
    let found = candidates_in_items(targets);
    items_hold_what_one_describes(targets, i, a);
    items_hold_what_one_describes(targets, j, b);
    let x = choose|x: int| 0 <= x < found.len() && found[x] == a;
    let y = choose|y: int| 0 <= y < found.len() && found[y] == b;
    products_have_a_place(found, x);
    products_have_a_place(found, y);
    let products = distinct_products(found);
    if products.len() == 1 {
        let only = products[0];
        path::path_order_decides_sameness(only.app_path, a.app_path);
        path::path_order_decides_sameness(only.app_path, b.app_path);
        text::text_lt_total(only.bundle_id, a.bundle_id);
        text::text_lt_total(only.bundle_id, b.bundle_id);
    }
}

proof fn items_hold_what_one_describes(items: Seq<JsonTree>, i: int, product: ProductView)
    requires
        0 <= i < items.len(),
        candidates(items[i]) == seq![product],
    ensures
        candidates_in_items(items).contains(product),
{
    items_describe_in_turn(items.take(i), items.skip(i));
    assert(items.take(i) + items.skip(i) =~= items);
    items_describe_in_turn(items.skip(i).take(1), items.skip(i + 1));
    assert(items.skip(i).take(1) + items.skip(i + 1) =~= items.skip(i));
    let one = items.skip(i).take(1);
    assert(one.subrange(0, 0) =~= Seq::empty());
    assert(candidates_in_items(Seq::<JsonTree>::empty()) =~= Seq::empty());
    assert(one[0] == items[i]);
    assert(candidates_in_items(one) =~= seq![product]);
    let all = candidates_in_items(items);
    let at = candidates_in_items(items.take(i)).len() as int;
    assert(all[at] == product);
}

} // verus!
