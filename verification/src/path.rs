//! Paths as texts, with `/` between their components.
//!
//! Two paths are the same path when their components are: repeated and trailing
//! separators and inner `.` components do not count.
use vstd::prelude::*;

use crate::text;
use crate::text::{cat2, cat3, chars_of, rfind_char, same_text, split_char, text_before, text_of};

verus! {

/// Whether a path starts at the root.
pub open spec fn absolute(p: Seq<char>) -> bool {
    p.len() > 0 && p[0] == '/'
}

/// Whether a path starts at the root.
pub fn is_absolute(p: &str) -> (r: bool)
    ensures
        r == absolute(p@),
{
    let chars = chars_of(p);
    chars.len() > 0 && chars[0] == '/'
}

/// The path `rest`, taken from `base` unless it is absolute itself.
pub open spec fn joined(base: Seq<char>, rest: Seq<char>) -> Seq<char> {
    if absolute(rest) {
        rest
    } else if base.len() == 0 || base.last() == '/' {
        base + rest
    } else {
        base + "/"@ + rest
    }
}

/// The path `rest`, taken from `base` unless it is absolute itself.
pub fn join(base: &str, rest: &str) -> (r: String)
    ensures
        r@ == joined(base@, rest@),
{
    if is_absolute(rest) {
        return rest.to_owned();
    }
    let chars = chars_of(base);
    if chars.len() == 0 || chars[chars.len() - 1] == '/' {
        cat2(base, rest)
    } else {
        cat3(base, "/", rest)
    }
}

/// Whether a piece between separators is a component: `.` counts only at the
/// start.
pub open spec fn is_component(piece: Seq<char>, first: bool) -> bool {
    piece.len() > 0 && (first || piece != seq!['.'])
}

/// The pieces that are components.
pub open spec fn kept_pieces(pieces: Seq<Seq<char>>) -> Seq<Seq<char>>
    decreases pieces.len(),
{
    if pieces.len() == 0 {
        Seq::empty()
    } else {
        let rest = kept_pieces(pieces.drop_last());
        if is_component(pieces.last(), pieces.len() == 1) {
            rest.push(pieces.last())
        } else {
            rest
        }
    }
}

/// The components of a path; the root, when the path is absolute, is `/`.
pub open spec fn components_of(p: Seq<char>) -> Seq<Seq<char>> {
    let names = kept_pieces(text::pieces(p, '/'));
    if absolute(p) {
        seq![seq!['/']] + names
    } else {
        names
    }
}

/// The components of a path.
pub fn components(p: &str) -> (r: Vec<String>)
    ensures
        text::texts(r@) == components_of(p@),
{
    let mut out: Vec<String> = Vec::new();
    if is_absolute(p) {
        let mut root = String::new();
        root.push('/');
        out.push(root);
        assert(root@ =~= seq!['/']);
    }
    let ghost start = text::texts(out@);
    assert(start =~= if absolute(p@) {
        seq![seq!['/']]
    } else {
        Seq::empty()
    });
    let pieces = split_char(p, '/');
    let ghost all = text::texts(pieces@);
    let mut i: usize = 0;
    assert(start + kept_pieces(all.take(0)) =~= start);
    while i < pieces.len()
        invariant
            i <= pieces@.len(),
            all == text::texts(pieces@),
            text::texts(out@) == start + kept_pieces(all.take(i as int)),
        decreases pieces@.len() - i,
    {
        let ghost next = all.take(i + 1);
        assert(next.drop_last() =~= all.take(i as int));
        assert(next.last() == pieces@[i as int]@);
        proof {
            reveal_strlit(".");
            assert("."@ =~= seq!['.']);
        }
        let piece = pieces[i].as_str();
        if !piece.is_empty() && (i == 0 || !same_text(piece, ".")) {
            let ghost before = out@;
            out.push(pieces[i].clone());
            assert(text::texts(out@) =~= text::texts(before).push(pieces@[i as int]@));
            assert(text::texts(out@) =~= start + kept_pieces(next));
        }
        i = i + 1;
    }
    assert(all.take(i as int) =~= all);
    assert(components_of(p@) =~= start + kept_pieces(all));
    out
}

/// Whether two texts are the same path.
pub open spec fn same_path(a: Seq<char>, b: Seq<char>) -> bool {
    components_of(a) == components_of(b)
}

/// Whether two texts are the same path.
pub fn paths_equal(a: &str, b: &str) -> (r: bool)
    ensures
        r == same_path(a@, b@),
{
    let x = components(a);
    let y = components(b);
    if x.len() != y.len() {
        assert(text::texts(x@).len() != text::texts(y@).len());
        return false;
    }
    let mut i: usize = 0;
    while i < x.len()
        invariant
            text::texts(x@) == components_of(a@),
            text::texts(y@) == components_of(b@),
            x@.len() == y@.len(),
            i <= x@.len(),
            forall|j: int| 0 <= j < i ==> x@[j]@ == #[trigger] y@[j]@,
        decreases x@.len() - i,
    {
        if x[i] != y[i] {
            assert(text::texts(x@)[i as int] != text::texts(y@)[i as int]);
            return false;
        }
        i = i + 1;
    }
    assert(text::texts(x@) =~= text::texts(y@));
    true
}

/// The place of a component in the order of components: the root, then `.`,
/// then `..`, then names.
pub open spec fn component_rank(c: Seq<char>) -> int {
    if c == seq!['/'] {
        0
    } else if c == seq!['.'] {
        1
    } else if c == seq!['.', '.'] {
        2
    } else {
        3
    }
}

/// The order of components.
pub open spec fn component_lt(a: Seq<char>, b: Seq<char>) -> bool {
    if component_rank(a) != component_rank(b) {
        component_rank(a) < component_rank(b)
    } else {
        text::text_lt(a, b)
    }
}

/// The lexicographic order of component sequences.
pub open spec fn components_lt(a: Seq<Seq<char>>, b: Seq<Seq<char>>) -> bool
    decreases a.len(),
{
    if b.len() == 0 {
        false
    } else if a.len() == 0 {
        true
    } else if a[0] != b[0] {
        component_lt(a[0], b[0])
    } else {
        components_lt(a.drop_first(), b.drop_first())
    }
}

/// The order of paths: component by component.
pub open spec fn path_lt(a: Seq<char>, b: Seq<char>) -> bool {
    components_lt(components_of(a), components_of(b))
}

fn rank_of(c: &str) -> (r: u8)
    ensures
        r == component_rank(c@),
{
    proof {
        reveal_strlit("/");
        reveal_strlit(".");
        reveal_strlit("..");
        assert("/"@ =~= seq!['/']);
        assert("."@ =~= seq!['.']);
        assert(".."@ =~= seq!['.', '.']);
    }
    if same_text(c, "/") {
        0
    } else if same_text(c, ".") {
        1
    } else if same_text(c, "..") {
        2
    } else {
        3
    }
}

fn component_before(a: &str, b: &str) -> (r: bool)
    ensures
        r == component_lt(a@, b@),
{
    let x: u8 = rank_of(a);
    let y: u8 = rank_of(b);
    if x != y {
        x < y
    } else {
        text_before(a, b)
    }
}

/// Whether path `a` comes before path `b`.
pub fn path_before(a: &str, b: &str) -> (r: bool)
    ensures
        r == path_lt(a@, b@),
{
    let x = components(a);
    let y = components(b);
    let ghost xs = text::texts(x@);
    let ghost ys = text::texts(y@);
    let mut i: usize = 0;
    assert(xs.skip(0) =~= xs && ys.skip(0) =~= ys);
    while i < x.len() && i < y.len()
        invariant
            xs == text::texts(x@),
            ys == text::texts(y@),
            i <= x@.len(),
            i <= y@.len(),
            components_lt(xs.skip(i as int), ys.skip(i as int)) == path_lt(a@, b@),
        decreases x@.len() - i,
    {
        assert(xs.skip(i as int)[0] == x@[i as int]@);
        assert(ys.skip(i as int)[0] == y@[i as int]@);
        if x[i] != y[i] {
            return component_before(x[i].as_str(), y[i].as_str());
        }
        assert(xs.skip(i as int).drop_first() =~= xs.skip(i + 1));
        assert(ys.skip(i as int).drop_first() =~= ys.skip(i + 1));
        i = i + 1;
    }
    i < y.len()
}

/// Different components are in order one way round.
pub proof fn component_order_is_total(a: Seq<char>, b: Seq<char>)
    ensures
        a != b ==> (component_lt(a, b) != component_lt(b, a)),
        !component_lt(a, a),
{
    text::text_lt_total(a, b);
    text::text_lt_irreflexive(a);
    if text::text_lt(a, b) && text::text_lt(b, a) {
        text::text_lt_transitive(a, b, a);
    }
}

proof fn component_lt_transitive(a: Seq<char>, b: Seq<char>, c: Seq<char>)
    requires
        component_lt(a, b),
        component_lt(b, c),
    ensures
        component_lt(a, c),
{
    if component_rank(a) == component_rank(b) && component_rank(b) == component_rank(c) {
        text::text_lt_transitive(a, b, c);
    }
}

/// Different component sequences are in order one way round.
pub proof fn components_order_is_total(a: Seq<Seq<char>>, b: Seq<Seq<char>>)
    ensures
        a != b ==> (components_lt(a, b) != components_lt(b, a)),
        !components_lt(a, a),
    decreases a.len(),
{
    if a.len() > 0 {
        components_order_is_total(a.drop_first(), a.drop_first());
    }
    if a.len() > 0 && b.len() > 0 {
        if a[0] == b[0] {
            components_order_is_total(a.drop_first(), b.drop_first());
            if a.drop_first() == b.drop_first() {
                assert(a =~= seq![a[0]] + a.drop_first());
                assert(b =~= seq![b[0]] + b.drop_first());
            }
        } else {
            component_order_is_total(a[0], b[0]);
        }
    } else if a.len() == 0 && b.len() == 0 {
        assert(a =~= b);
    }
}

/// The order of component sequences is transitive.
pub proof fn components_lt_transitive(a: Seq<Seq<char>>, b: Seq<Seq<char>>, c: Seq<Seq<char>>)
    requires
        components_lt(a, b),
        components_lt(b, c),
    ensures
        components_lt(a, c),
    decreases a.len(),
{
    if a.len() > 0 {
        if a[0] == b[0] && b[0] == c[0] {
            components_lt_transitive(a.drop_first(), b.drop_first(), c.drop_first());
        } else if a[0] != b[0] && b[0] != c[0] {
            component_lt_transitive(a[0], b[0], c[0]);
            component_order_is_total(a[0], c[0]);
        }
    }
}

/// Of two paths at most one comes before the other.
pub proof fn path_order_is_asymmetric(a: Seq<char>, b: Seq<char>)
    ensures
        path_lt(a, b) ==> !path_lt(b, a),
        same_path(a, b) ==> !path_lt(a, b),
{
    components_order_is_total(components_of(a), components_of(b));
    components_order_is_total(components_of(b), components_of(b));
}

/// If `a` does not come after `b` and `b` does not come after `c`, then `a` does
/// not come after `c`.
pub proof fn path_order_is_weak(a: Seq<char>, b: Seq<char>, c: Seq<char>)
    requires
        !path_lt(b, a),
        !path_lt(c, b),
    ensures
        !path_lt(c, a),
{
    let x = components_of(a);
    let y = components_of(b);
    let z = components_of(c);
    components_order_is_total(x, y);
    components_order_is_total(y, z);
    components_order_is_total(x, z);
    if x != y && y != z {
        components_lt_transitive(x, y, z);
    }
}

/// Paths neither of which comes before the other are the same path.
pub proof fn path_order_decides_sameness(a: Seq<char>, b: Seq<char>)
    ensures
        same_path(a, b) <==> !path_lt(a, b) && !path_lt(b, a),
{
    components_order_is_total(components_of(a), components_of(b));
}

// ---------------------------------------------------------------------------
// The parts of a path
// ---------------------------------------------------------------------------

/// A path without trailing separators and trailing `.` components.
pub open spec fn clean_end(p: Seq<char>) -> Seq<char>
    decreases p.len(),
{
    if p.len() > 1 && (p.last() == '/' || (p.last() == '.' && p[p.len() - 2] == '/')) {
        clean_end(p.drop_last())
    } else {
        p
    }
}

fn clean(p: &str) -> (r: String)
    ensures
        r@ == clean_end(p@),
{
    let chars = chars_of(p);
    let mut end: usize = chars.len();
    assert(chars@.take(end as int) =~= p@);
    while end > 1 && (chars[end - 1] == '/' || (chars[end - 1] == '.' && chars[end - 2] == '/'))
        invariant
            end <= chars@.len(),
            clean_end(chars@.take(end as int)) == clean_end(p@),
        decreases end,
    {
        assert(chars@.take(end as int).drop_last() =~= chars@.take(end - 1));
        end = end - 1;
    }
    let out = text_of(&chars, 0, end);
    assert(out@ =~= chars@.take(end as int));
    out
}

/// The path without its last component. The root and the empty path have none.
pub open spec fn parent_of(p: Seq<char>) -> Option<Seq<char>> {
    let c = clean_end(p);
    if c.len() == 0 || c == seq!['/'] {
        None
    } else {
        match text::last_index(c, '/') {
            Some(i) => Some(clean_end(c.take(i + 1))),
            None => Some(Seq::empty()),
        }
    }
}

/// The path without its last component.
pub fn parent(p: &str) -> (r: Option<String>)
    ensures
        text::opt_text(r) == parent_of(p@),
{
    let c = clean(p);
    proof {
        reveal_strlit("/");
        assert("/"@ =~= seq!['/']);
    }
    if c.as_str().is_empty() || same_text(c.as_str(), "/") {
        return None;
    }
    let chars = chars_of(c.as_str());
    let total: usize = chars.len();
    match rfind_char(&chars, '/') {
        Some(i) => {
            assert(i < total);
            let head = text_of(&chars, 0, i + 1);
            assert(head@ =~= c@.take(i + 1));
            Some(clean(head.as_str()))
        },
        None => Some(String::new()),
    }
}

/// The last component of a path, when it is a name.
pub open spec fn file_name_of(p: Seq<char>) -> Option<Seq<char>> {
    let name = text::after_last(clean_end(p), '/');
    if name.len() == 0 || name == seq!['.'] || name == seq!['.', '.'] {
        None
    } else {
        Some(name)
    }
}

/// The last component of a path, when it is a name.
pub fn file_name(p: &str) -> (r: Option<String>)
    ensures
        text::opt_text(r) == file_name_of(p@),
{
    let c = clean(p);
    let name = text::rsplit_last(c.as_str(), '/');
    proof {
        reveal_strlit(".");
        reveal_strlit("..");
        assert("."@ =~= seq!['.']);
        assert(".."@ =~= seq!['.', '.']);
    }
    if name.as_str().is_empty() || same_text(name.as_str(), ".") || same_text(name.as_str(), "..") {
        None
    } else {
        Some(name)
    }
}

/// The part of a file name behind its last dot, when a dot stands behind its
/// first character.
pub open spec fn name_extension(name: Seq<char>) -> Option<Seq<char>> {
    match text::last_index(name, '.') {
        Some(i) => if i > 0 {
            Some(name.skip(i + 1))
        } else {
            None
        },
        None => None,
    }
}

/// The part of a file name before its last dot, when a dot stands behind its
/// first character, and the whole name otherwise.
pub open spec fn name_stem(name: Seq<char>) -> Seq<char> {
    match text::last_index(name, '.') {
        Some(i) => if i > 0 {
            name.take(i)
        } else {
            name
        },
        None => name,
    }
}

/// The extension of a path's file name.
pub open spec fn extension_of(p: Seq<char>) -> Option<Seq<char>> {
    match file_name_of(p) {
        Some(name) => name_extension(name),
        None => None,
    }
}

/// A path's file name without its extension.
pub open spec fn file_stem_of(p: Seq<char>) -> Option<Seq<char>> {
    match file_name_of(p) {
        Some(name) => Some(name_stem(name)),
        None => None,
    }
}

/// The extension of a path's file name.
pub fn extension(p: &str) -> (r: Option<String>)
    ensures
        text::opt_text(r) == extension_of(p@),
{
    match file_name(p) {
        Some(name) => {
            let chars = chars_of(name.as_str());
            let total: usize = chars.len();
            match rfind_char(&chars, '.') {
                Some(i) => if i > 0 {
                    assert(i < total);
                    let out = text_of(&chars, i + 1, total);
                    assert(out@ =~= name@.skip(i + 1));
                    Some(out)
                } else {
                    None
                },
                None => None,
            }
        },
        None => None,
    }
}

/// A path's file name without its extension.
pub fn file_stem(p: &str) -> (r: Option<String>)
    ensures
        text::opt_text(r) == file_stem_of(p@),
{
    match file_name(p) {
        Some(name) => {
            let chars = chars_of(name.as_str());
            match rfind_char(&chars, '.') {
                Some(i) => if i > 0 {
                    let out = text_of(&chars, 0, i);
                    assert(out@ =~= name@.take(i as int));
                    Some(out)
                } else {
                    Some(name)
                },
                None => Some(name),
            }
        },
        None => None,
    }
}

/// The parts of a path: a name below a directory is the path's last part, with the dot and
/// what follows it when it has an extension, and the directory is what is left without it.
pub proof fn names_stand_below_their_directories(dir: Seq<char>, name: Seq<char>)
    requires
        dir.len() > 0,
        clean_end(dir) == dir,
        dir.last() != '/',
        name.len() > 0,
        name != seq!['.'],
        name != seq!['.', '.'],
        forall|i: int| 0 <= i < name.len() ==> name[i] != '/',
    ensures
        joined(dir, name) == dir + "/"@ + name,
        file_name_of(joined(dir, name)) == Some(name),
        parent_of(joined(dir, name)) == Some(dir),
{
    reveal_strlit("/");
    let p = joined(dir, name);
    let at = dir.len() as int;
    assert(p =~= dir + "/"@ + name);
    assert(p[at] == '/');
    assert(p.last() == name.last());
    if name.last() == '.' {
        if name.len() == 1 {
            assert(name =~= seq!['.']);
        }
        assert(p[p.len() - 2] == name[name.len() - 2]);
    }
    assert(clean_end(p) == p);
    text::last_index_meaning(p, '/');
    assert forall|i: int| at < i < p.len() implies p[i] != '/' by {
        assert(p[i] == name[i - at - 1]);
    }
    assert(text::last_index(p, '/') == Some(at));
    assert(p.skip(at + 1) =~= name);
    let above = p.take(at + 1);
    assert(above.last() == '/');
    assert(above.drop_last() =~= dir);
    assert(clean_end(above) == clean_end(above.drop_last()));
}

/// A name with an extension is its stem, a dot and the extension, and the extension is what
/// follows the last dot; a name that begins with its only dot has none.
pub proof fn names_consist_of_stem_and_extension(stem: Seq<char>, extension: Seq<char>)
    requires
        forall|i: int| 0 <= i < extension.len() ==> extension[i] != '.',
    ensures
        stem.len() > 0 ==> name_extension(stem + "."@ + extension) == Some(extension),
        stem.len() > 0 ==> name_stem(stem + "."@ + extension) == stem,
        name_extension("."@ + extension) is None,
        name_extension(extension) is None,
        name_stem(extension) == extension,
{
    reveal_strlit(".");
    let name = stem + "."@ + extension;
    let at = stem.len() as int;
    assert(name[at] == '.');
    text::last_index_meaning(name, '.');
    assert forall|i: int| at < i < name.len() implies name[i] != '.' by {
        assert(name[i] == extension[i - at - 1]);
    }
    assert(text::last_index(name, '.') == Some(at));
    assert(name.skip(at + 1) =~= extension);
    assert(name.take(at) =~= stem);
    let bare = "."@ + extension;
    text::last_index_meaning(bare, '.');
    assert(bare[0] == '.');
    assert(text::last_index(bare, '.') == Some(0int));
    text::last_index_meaning(extension, '.');
}

} // verus!
