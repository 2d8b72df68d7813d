//! Simulator control: input validation, and the policy that sends each
//! operation to the CoreSimulator bridge or to `simctl`.
//!
//! There is no arbitrary `simctl` passthrough: every operation has typed,
//! validated, deterministic arguments.
use vstd::prelude::*;

use crate::backend::hybrid::HybridBackend;
use crate::error;
use crate::error::{ErrorCode, SimtopError};
use crate::path;
use crate::text;
use crate::text::{
    cat2, cat3, cat7, chars_of, contains_whitespace, debug_text, find_char, is_ascii_alphanumeric,
    is_ascii_letter, is_ascii_lower_hex, strip_prefix,
};
use crate::time::TimeSpan;
use crate::xcode;
use crate::xcode::DeveloperDirProbe;

pub mod hybrid;
pub mod simctl;

verus! {

/// A backend for a developer directory, by what is found on disk there. The time
/// limit bounds every subprocess. A limit of zero is refused, whatever the directory;
/// then a directory that holds no usable Xcode. Whether the CoreSimulator bridge can
/// be loaded does not matter.
pub fn connect(developer_dir: &str, probe: DeveloperDirProbe, timeout: TimeSpan) -> (r: Result<
    HybridBackend,
    SimtopError,
>)
    ensures
        if timeout@ == (0u64, 0u32) {
            r matches Err(e) && e@ == error::failure(
                ErrorCode::InvalidArgument,
                "backend timeout must be non-zero"@,
            )
        } else {
            match xcode::accepted_dir(developer_dir@, probe) {
                Ok(dir) => r matches Ok(b) && b.dir() == dir && b.limit() == timeout && b.program()
                    == path::joined(dir, "usr/bin/simctl"@) && b.last_generation() == 0,
                Err(error) => r matches Err(e) && e@ == error,
            }
        },
{
    HybridBackend::new(developer_dir, probe, timeout)
}

/// Whether position `i` of a UDID holds a hyphen.
pub open spec fn udid_hyphen(i: int) -> bool {
    i == 8 || i == 13 || i == 18 || i == 23
}

/// Whether `udid` is a lowercase UUID: hexadecimal digits in groups of 8, 4, 4, 4
/// and 12, with hyphens between the groups.
pub open spec fn valid_udid(udid: Seq<char>) -> bool {
    &&& udid.len() == 36
    &&& forall|i: int|
        0 <= i < 36 ==> (if udid_hyphen(i) {
            #[trigger] udid[i] == '-'
        } else {
            text::is_lower_hex(udid[i])
        })
}

/// The refusal of a device UDID.
pub open spec fn bad_udid(udid: Seq<char>) -> error::Failure {
    error::failure(
        ErrorCode::InvalidArgument,
        "invalid device UDID (expected a UUID, got "@ + text::debug_quoted(udid) + ")"@,
    )
}

/// Accepts a device UDID, which is a lowercase UUID.
pub fn validate_udid(udid: &str) -> (r: Result<(), SimtopError>)
    ensures
        error::outcome(r) == if valid_udid(udid@) {
            Ok(())
        } else {
            Err(bad_udid(udid@))
        },
{
    let chars = chars_of(udid);
    let mut ok: bool = chars.len() == 36;
    let mut i: usize = 0;
    while ok && i < 36
        invariant
            chars@ == udid@,
            i <= 36,
            ok ==> chars@.len() == 36,
            ok ==> forall|j: int|
                0 <= j < i ==> (if udid_hyphen(j) {
                    #[trigger] udid@[j] == '-'
                } else {
                    text::is_lower_hex(udid@[j])
                }),
            !ok ==> !valid_udid(udid@),
        decreases 36 - i,
    {
        let c = chars[i];
        assert(c == udid@[i as int]);
        let hyphen = i == 8 || i == 13 || i == 18 || i == 23;
        if hyphen {
            ok = c == '-';
        } else {
            ok = is_ascii_lower_hex(c);
        }
        i = i + 1;
    }
    if ok {
        Ok(())
    } else {
        let shown = debug_text(udid);
        Err(
            SimtopError::new(
                ErrorCode::InvalidArgument,
                cat3(
                    "invalid device UDID (expected a UUID, got ",
                    shown.as_str(),
                    ")",
                ).as_str(),
            ),
        )
    }
}

/// The characters of a bundle identifier.
pub open spec fn bundle_char(c: char) -> bool {
    text::is_alphanumeric(c) || c == '.' || c == '-' || c == '_'
}

/// Whether `id` is a bundle identifier: 1 to 255 letters, digits, dots, hyphens
/// and underscores, with a letter or a digit at each end.
pub open spec fn valid_bundle_id(id: Seq<char>) -> bool {
    &&& 1 <= id.len() <= 255
    &&& forall|i: int| 0 <= i < id.len() ==> bundle_char(#[trigger] id[i])
    &&& text::is_alphanumeric(id[0])
    &&& text::is_alphanumeric(id.last())
}

/// The refusal of a bundle identifier.
pub open spec fn bad_bundle_id(id: Seq<char>) -> error::Failure {
    error::failure(
        ErrorCode::InvalidArgument,
        "invalid bundle identifier "@ + text::debug_quoted(id),
    )
}

/// Accepts a bundle identifier.
pub fn validate_bundle_id(bundle_id: &str) -> (r: Result<(), SimtopError>)
    ensures
        error::outcome(r) == if valid_bundle_id(bundle_id@) {
            Ok(())
        } else {
            Err(bad_bundle_id(bundle_id@))
        },
{
    let chars = chars_of(bundle_id);
    let mut ok: bool = chars.len() > 0 && chars.len() <= 255 && is_ascii_alphanumeric(chars[0])
        && is_ascii_alphanumeric(chars[chars.len() - 1]);
    let mut i: usize = 0;
    while ok && i < chars.len()
        invariant
            chars@ == bundle_id@,
            i <= chars@.len(),
            ok ==> forall|j: int| 0 <= j < i ==> bundle_char(#[trigger] bundle_id@[j]),
            ok ==> 1 <= chars@.len() <= 255 && text::is_alphanumeric(chars@[0])
                && text::is_alphanumeric(chars@.last()),
            !ok ==> !valid_bundle_id(bundle_id@),
        decreases chars@.len() - i,
    {
        let c = chars[i];
        assert(c == bundle_id@[i as int]);
        ok = is_ascii_alphanumeric(c) || c == '.' || c == '-' || c == '_';
        i = i + 1;
    }
    if ok {
        Ok(())
    } else {
        let shown = debug_text(bundle_id);
        Err(
            SimtopError::new(
                ErrorCode::InvalidArgument,
                cat2("invalid bundle identifier ", shown.as_str()).as_str(),
            ),
        )
    }
}

/// The characters of a URL scheme behind its first.
pub open spec fn scheme_char(c: char) -> bool {
    text::is_alphanumeric(c) || c == '+' || c == '.' || c == '-'
}

/// Whether `scheme` is a URL scheme: a letter, then letters, digits and `+.-`.
pub open spec fn valid_scheme(scheme: Seq<char>) -> bool {
    &&& scheme.len() > 0
    &&& text::is_letter(scheme[0])
    &&& forall|i: int| 1 <= i < scheme.len() ==> scheme_char(#[trigger] scheme[i])
}

/// Whether `url` is a URL with an explicit scheme, something behind it, and no
/// white space.
pub open spec fn valid_url(url: Seq<char>) -> bool {
    match text::first_index(url, ':') {
        Some(i) => valid_scheme(url.take(i)) && i + 1 < url.len() && !text::has_space(url),
        None => false,
    }
}

/// The refusal of a URL.
pub open spec fn bad_url(url: Seq<char>) -> error::Failure {
    error::failure(
        ErrorCode::InvalidArgument,
        if text::first_index(url, ':') is None {
            "invalid URL "@ + text::debug_quoted(url) + ": no scheme"@
        } else {
            "invalid URL "@ + text::debug_quoted(url)
        },
    )
}

fn scheme_ok(chars: &Vec<char>, end: usize) -> (r: bool)
    requires
        end <= chars@.len(),
    ensures
        r == valid_scheme(chars@.take(end as int)),
{
    if end == 0 {
        return false;
    }
    if !is_ascii_letter(chars[0]) {
        return false;
    }
    let mut i: usize = 1;
    while i < end
        invariant
            1 <= i <= end <= chars@.len(),
            forall|j: int| 1 <= j < i ==> scheme_char(#[trigger] chars@.take(end as int)[j]),
        decreases end - i,
    {
        let c = chars[i];
        assert(c == chars@.take(end as int)[i as int]);
        if !(is_ascii_alphanumeric(c) || c == '+' || c == '.' || c == '-') {
            return false;
        }
        i = i + 1;
    }
    true
}

/// Accepts a URL.
pub fn validate_url(url: &str) -> (r: Result<(), SimtopError>)
    ensures
        error::outcome(r) == if valid_url(url@) {
            Ok(())
        } else {
            Err(bad_url(url@))
        },
{
    let chars = chars_of(url);
    let shown = debug_text(url);
    match find_char(&chars, ':') {
        None => Err(
            SimtopError::new(
                ErrorCode::InvalidArgument,
                cat3("invalid URL ", shown.as_str(), ": no scheme").as_str(),
            ),
        ),
        Some(colon) => {
            if scheme_ok(&chars, colon) && chars.len() - colon > 1 && !contains_whitespace(url) {
                Ok(())
            } else {
                Err(
                    SimtopError::new(
                        ErrorCode::InvalidArgument,
                        cat2("invalid URL ", shown.as_str()).as_str(),
                    ),
                )
            }
        },
    }
}

/// Whether `id` is an identifier behind a framework prefix: something without
/// white space follows the prefix.
pub open spec fn valid_identifier(id: Seq<char>, prefix: Seq<char>) -> bool {
    match text::after_prefix(id, prefix) {
        Some(rest) => rest.len() > 0 && !text::has_space(rest),
        None => false,
    }
}

/// The refusal of an identifier.
pub open spec fn bad_identifier(
    id: Seq<char>,
    prefix: Seq<char>,
    what: Seq<char>,
) -> error::Failure {
    error::failure(
        ErrorCode::InvalidArgument,
        "invalid "@ + what + " identifier "@ + text::debug_quoted(id) + " (expected a "@ + prefix
            + "… identifier)"@,
    )
}

/// Accepts an identifier behind a framework prefix, so that callers pass
/// identifiers and not display names.
pub fn validate_identifier(id: &str, prefix: &str, what: &str) -> (r: Result<(), SimtopError>)
    ensures
        error::outcome(r) == if valid_identifier(id@, prefix@) {
            Ok(())
        } else {
            Err(bad_identifier(id@, prefix@, what@))
        },
{
    let ok = match strip_prefix(id, prefix) {
        Some(rest) => !rest.as_str().is_empty() && !contains_whitespace(rest.as_str()),
        None => false,
    };
    if ok {
        Ok(())
    } else {
        let shown = debug_text(id);
        Err(
            SimtopError::new(
                ErrorCode::InvalidArgument,
                cat7(
                    "invalid ",
                    what,
                    " identifier ",
                    shown.as_str(),
                    " (expected a ",
                    prefix,
                    "… identifier)",
                ).as_str(),
            ),
        )
    }
}

/// Nothing that passes validation can be taken for a command-line option or
/// for several arguments: it is not empty, does not begin with a hyphen, and
/// holds no white space.
pub proof fn validated_arguments_are_single_positional_words(s: Seq<char>)
    requires
        valid_udid(s) || valid_bundle_id(s) || valid_url(s),
    ensures
        s.len() > 0,
        s[0] != '-',
        !text::has_space(s),
{
    if valid_udid(s) {
        assert(text::is_lower_hex(s[0]));
        assert forall|i: int| 0 <= i < s.len() implies !text::is_space(#[trigger] s[i]) by {
            assert(if udid_hyphen(i) {
                s[i] == '-'
            } else {
                text::is_lower_hex(s[i])
            });
        }
    } else if valid_bundle_id(s) {
        assert forall|i: int| 0 <= i < s.len() implies !text::is_space(#[trigger] s[i]) by {
            assert(bundle_char(s[i]));
        }
    } else {
        text::first_index_meaning(s, ':');
    }
}

proof fn distinct_word_facts()
    ensures
        "."@ == seq!['.'],
        ":"@ == seq![':'],
{
    reveal_strlit(".");
    reveal_strlit(":");
    assert("."@ =~= seq!['.']);
    assert(":"@ =~= seq![':']);
}

/// A valid UDID has the length of a UUID and is written in lower case; its hyphens part
/// it into groups of eight, three times four, and twelve digits.
pub proof fn udids_are_grouped(udid: Seq<char>)
    requires
        valid_udid(udid),
    ensures
        udid.len() == 8 + 1 + 4 + 1 + 4 + 1 + 4 + 1 + 12,
        udid[8] == '-' && udid[13] == '-' && udid[18] == '-' && udid[23] == '-',
        forall|i: int| 0 <= i < udid.len() ==> !('A' <= #[trigger] udid[i] <= 'Z'),
        forall|i: int|
            0 <= i < udid.len() && i != 8 && i != 13 && i != 18 && i != 23 ==> ('0'
                <= #[trigger] udid[i] <= '9' || 'a' <= udid[i] <= 'f'),
{
    assert(udid[8] == '-' && udid[13] == '-' && udid[18] == '-' && udid[23] == '-');
}

/// Two bundle identifiers with a dot between them are a bundle identifier, as long as
/// they are not too long together.
pub proof fn bundle_identifiers_nest(a: Seq<char>, b: Seq<char>)
    requires
        valid_bundle_id(a),
        valid_bundle_id(b),
        a.len() + 1 + b.len() <= 255,
    ensures
        valid_bundle_id(a + "."@ + b),
{
    distinct_word_facts();
    let all = a + "."@ + b;
    assert forall|i: int| 0 <= i < all.len() implies bundle_char(#[trigger] all[i]) by {
        if i < a.len() {
            assert(all[i] == a[i]);
        } else if i > a.len() {
            assert(all[i] == b[i - a.len() - 1]);
        }
    }
    assert(all[0] == a[0]);
    assert(all.last() == b.last());
}

/// A word of ASCII letters and digits is a bundle identifier; nothing with a separator
/// of paths, a blank or a shell's quote in it is one, nor is what begins or ends with a
/// dot or a hyphen.
pub proof fn bundle_identifiers_are_plain(id: Seq<char>)
    ensures
        1 <= id.len() <= 255 && (forall|i: int|
            0 <= i < id.len() ==> ('a' <= #[trigger] id[i] <= 'z' || 'A' <= id[i] <= 'Z' || '0'
                <= id[i] <= '9')) ==> valid_bundle_id(id),
        valid_bundle_id(id) ==> {
            &&& 1 <= id.len() <= 255
            &&& !id.contains('/') && !id.contains(' ') && !id.contains('\'') && !id.contains('"')
                && !id.contains('$')
            &&& id[0] != '.' && id[0] != '-' && id.last() != '.' && id.last() != '-'
        },
{
    if 1 <= id.len() <= 255 && (forall|i: int|
        0 <= i < id.len() ==> ('a' <= #[trigger] id[i] <= 'z' || 'A' <= id[i] <= 'Z' || '0' <= id[i]
            <= '9')) {
        assert('a' <= id[0] <= 'z' || 'A' <= id[0] <= 'Z' || '0' <= id[0] <= '9');
        let last = id[id.len() - 1];
        assert('a' <= last <= 'z' || 'A' <= last <= 'Z' || '0' <= last <= '9');
    }
    if valid_bundle_id(id) {
        assert forall|c: char| id.contains(c) implies bundle_char(c) by {
            let i = choose|i: int| 0 <= i < id.len() && id[i] == c;
            assert(bundle_char(id[i]));
        }
    }
}

/// A scheme, a colon and something behind it without blanks are a URL; a text with a
/// blank in it, without a colon or with nothing behind it is none.
pub proof fn urls_are_schemes_and_targets(scheme: Seq<char>, rest: Seq<char>)
    requires
        forall|i: int| 0 <= i < scheme.len() ==> scheme[i] != ':',
    ensures
        valid_url(scheme + ":"@ + rest) <==> {
            &&& scheme.len() > 0
            &&& 'a' <= scheme[0] <= 'z' || 'A' <= scheme[0] <= 'Z'
            &&& forall|i: int|
                1 <= i < scheme.len() ==> ('a' <= #[trigger] scheme[i] <= 'z' || 'A' <= scheme[i]
                    <= 'Z' || '0' <= scheme[i] <= '9' || scheme[i] == '+' || scheme[i] == '.'
                    || scheme[i] == '-')
            &&& rest.len() > 0
            &&& !text::has_space(scheme + ":"@ + rest)
        },
        !valid_url(scheme),
{
    distinct_word_facts();
    let url = scheme + ":"@ + rest;
    text::first_index_meaning(url, ':');
    text::first_index_meaning(scheme, ':');
    let at = scheme.len() as int;
    assert(url[at] == ':');
    assert(text::first_index(url, ':') == Some(at));
    assert(url.take(at) =~= scheme);
    assert forall|i: int| 1 <= i < scheme.len() implies (scheme_char(#[trigger] scheme[i]) <==> ('a'
        <= scheme[i] <= 'z' || 'A' <= scheme[i] <= 'Z' || '0' <= scheme[i] <= '9' || scheme[i]
        == '+' || scheme[i] == '.' || scheme[i] == '-')) by {}
}

/// An identifier is what its prefix and a word without blanks make, and nothing else.
pub proof fn identifiers_are_prefixed_words(prefix: Seq<char>, word: Seq<char>, id: Seq<char>)
    ensures
        valid_identifier(prefix + word, prefix) <==> word.len() > 0 && !text::has_space(word),
        valid_identifier(id, prefix) ==> id.len() > prefix.len() && id.take(prefix.len() as int)
            == prefix,
{
    let all = prefix + word;
    assert(all.subrange(0, prefix.len() as int) =~= prefix);
    assert(all.skip(prefix.len() as int) =~= word);
    if text::has_prefix(id, prefix) {
        assert(id.take(prefix.len() as int) =~= id.subrange(0, prefix.len() as int));
    }
}

/// What a bundle identifier is: up to 255 letters, digits, dots, hyphens and underscores of
/// ASCII, with a letter or digit at either end.
pub proof fn bundle_identifiers_are_exactly_these(id: Seq<char>)
    ensures
        valid_bundle_id(id) <==> {
            &&& 1 <= id.len() <= 255
            &&& forall|i: int|
                0 <= i < id.len() ==> ('a' <= #[trigger] id[i] <= 'z' || 'A' <= id[i] <= 'Z' || '0'
                    <= id[i] <= '9' || id[i] == '.' || id[i] == '-' || id[i] == '_')
            &&& 'a' <= id[0] <= 'z' || 'A' <= id[0] <= 'Z' || '0' <= id[0] <= '9'
            &&& 'a' <= id.last() <= 'z' || 'A' <= id.last() <= 'Z' || '0' <= id.last() <= '9'
        },
{
    assert forall|i: int| 0 <= i < id.len() implies (bundle_char(#[trigger] id[i]) <==> ('a'
        <= id[i] <= 'z' || 'A' <= id[i] <= 'Z' || '0' <= id[i] <= '9' || id[i] == '.' || id[i]
        == '-' || id[i] == '_')) by {}
}

/// What a UDID is: hexadecimal digits in lower case, with hyphens after the eighth,
/// twelfth, sixteenth and twentieth of them.
pub proof fn udids_are_exactly_these(udid: Seq<char>)
    ensures
        valid_udid(udid) <==> {
            &&& udid.len() == 36
            &&& udid[8] == '-' && udid[13] == '-' && udid[18] == '-' && udid[23] == '-'
            &&& forall|i: int|
                0 <= i < 36 && i != 8 && i != 13 && i != 18 && i != 23 ==> ('0'
                    <= #[trigger] udid[i] <= '9' || 'a' <= udid[i] <= 'f')
        },
{
    if valid_udid(udid) {
        udids_are_grouped(udid);
    }
}

} // verus!
