//! Which tag names are valid for elements and components, and which
//! `svelte:` names are known.
use vstd::prelude::*;

use crate::text::{is_ascii_alpha, is_ascii_digit, spec_is_ascii_alpha, spec_is_ascii_digit, text_is};

verus! {

/// Whether std's `char::is_alphanumeric` holds of `c`.
pub uninterp spec fn unicode_alphanumeric(c: char) -> bool;

/// Whether std's `char::is_uppercase` holds of `c`.
pub uninterp spec fn unicode_uppercase(c: char) -> bool;

/// Whether std's `char::is_alphabetic` holds of `c`.
pub uninterp spec fn unicode_alphabetic(c: char) -> bool;

/// std's `char::is_alphanumeric`: whether `c` is alphabetic or numeric in
/// the Unicode tables. The contract only names the answer.
#[verifier::external_body]
fn char_is_alphanumeric(c: char) -> (r: bool)
    ensures
        r == unicode_alphanumeric(c),
{
    c.is_alphanumeric()
}

/// std's `char::is_uppercase`: whether `c` has the Unicode `Uppercase`
/// property. The contract only names the answer.
#[verifier::external_body]
pub fn char_is_uppercase(c: char) -> (r: bool)
    ensures
        r == unicode_uppercase(c),
{
    c.is_uppercase()
}

/// std's `char::is_alphabetic`: whether `c` has the Unicode `Alphabetic`
/// property. The contract only names the answer.
#[verifier::external_body]
fn char_is_alphabetic(c: char) -> (r: bool)
    ensures
        r == unicode_alphabetic(c),
{
    c.is_alphabetic()
}

/// An ASCII letter or digit.
pub open spec fn spec_ascii_alnum(c: char) -> bool {
    spec_is_ascii_alpha(c) || spec_is_ascii_digit(c)
}

/// `s[lo..hi]` holds only ASCII letters, digits and hyphens.
pub open spec fn alnum_hyphen_run(s: Seq<char>, lo: int, hi: int) -> bool {
    forall|k: int| lo <= k < hi ==> #[trigger] spec_ascii_alnum(s[k]) || s[k] == '-'
}

/// A plain element name: a letter, then letters, digits and hyphens, not
/// ending with a hyphen.
pub open spec fn plain_element_name(s: Seq<char>) -> bool {
    &&& s.len() >= 1
    &&& spec_is_ascii_alpha(s[0])
    &&& alnum_hyphen_run(s, 1, s.len() as int)
    &&& spec_ascii_alnum(s[s.len() - 1])
}

/// A `!` followed by letters, as in `!doctype`.
pub open spec fn bang_element_name(s: Seq<char>) -> bool {
    &&& s.len() >= 2
    &&& s[0] == '!'
    &&& forall|k: int| 1 <= k < s.len() ==> #[trigger] spec_is_ascii_alpha(s[k])
}

/// A namespaced name `prefix:local`: a letter and letters or digits, a colon,
/// then a plain name of at least two characters.
pub open spec fn namespaced_element_name(s: Seq<char>) -> bool {
    exists|c: int|
        #![trigger s[c]]
        1 <= c && c + 2 < s.len() && s[c] == ':' && spec_is_ascii_alpha(s[0]) && (forall|k: int|
            1 <= k < c ==> #[trigger] spec_ascii_alnum(s[k])) && plain_element_name(s.subrange(c + 1, s.len() as int))
}

/// A character that a custom element name may hold after its first letter.
pub open spec fn spec_custom_element_char(c: char) -> bool {
    c == '-' || c == '.' || c == '_' || ('0' <= c && c <= '9') || ('a' <= c && c <= 'z') || c == '\u{b7}'
        || ('\u{c0}' <= c && c <= '\u{d6}') || ('\u{d8}' <= c && c <= '\u{f6}') || ('\u{f8}' <= c && c
        <= '\u{37d}') || ('\u{37f}' <= c && c <= '\u{1fff}') || ('\u{200c}' <= c && c <= '\u{200d}') || (
    '\u{203f}' <= c && c <= '\u{2040}') || ('\u{2070}' <= c && c <= '\u{218f}') || ('\u{2c00}' <= c && c
        <= '\u{2fef}') || ('\u{3001}' <= c && c <= '\u{d7ff}') || ('\u{f900}' <= c && c <= '\u{fdcf}') || (
    '\u{fdf0}' <= c && c <= '\u{fffd}') || ('\u{10000}' <= c && c <= '\u{effff}')
}

/// A custom element name: a lower-case ASCII letter, then characters a
/// custom element name allows, with at least one hyphen.
pub open spec fn custom_element_name(s: Seq<char>) -> bool {
    &&& s.len() >= 2
    &&& 'a' <= s[0] && s[0] <= 'z'
    &&& forall|k: int| 1 <= k < s.len() ==> #[trigger] spec_custom_element_char(s[k])
    &&& s.contains('-')
}

/// Whether `name` may stand as the name of an element.
pub open spec fn spec_valid_element_name(s: Seq<char>) -> bool {
    bang_element_name(s) || plain_element_name(s) || namespaced_element_name(s) || custom_element_name(s)
}

/// Whether `c` may stand in a custom element name after its first letter.
fn is_custom_element_char(c: char) -> (r: bool)
    ensures
        r == spec_custom_element_char(c),
{
    c == '-' || c == '.' || c == '_' || ('0' <= c && c <= '9') || ('a' <= c && c <= 'z') || c == '\u{b7}'
        || ('\u{c0}' <= c && c <= '\u{d6}') || ('\u{d8}' <= c && c <= '\u{f6}') || ('\u{f8}' <= c && c
        <= '\u{37d}') || ('\u{37f}' <= c && c <= '\u{1fff}') || ('\u{200c}' <= c && c <= '\u{200d}') || (
    '\u{203f}' <= c && c <= '\u{2040}') || ('\u{2070}' <= c && c <= '\u{218f}') || ('\u{2c00}' <= c && c
        <= '\u{2fef}') || ('\u{3001}' <= c && c <= '\u{d7ff}') || ('\u{f900}' <= c && c <= '\u{fdcf}') || (
    '\u{fdf0}' <= c && c <= '\u{fffd}') || ('\u{10000}' <= c && c <= '\u{effff}')
}

/// Whether `c` is an ASCII letter or digit.
fn is_ascii_alnum(c: char) -> (r: bool)
    ensures
        r == spec_ascii_alnum(c),
{
    is_ascii_alpha(c) || is_ascii_digit(c)
}

/// Whether `s[lo..hi]` holds only ASCII letters, digits and hyphens.
fn is_alnum_hyphen_run(s: &[char], lo: usize, hi: usize) -> (r: bool)
    requires
        lo <= hi <= s@.len(),
    ensures
        r == alnum_hyphen_run(s@, lo as int, hi as int),
{
    let mut i = lo;
    while i < hi
        invariant
            lo <= i <= hi <= s@.len(),
            alnum_hyphen_run(s@, lo as int, i as int),
        decreases hi - i,
    {
        if !(is_ascii_alnum(s[i]) || s[i] == '-') {
            return false;
        }
        i += 1;
    }
    true
}

/// Whether `s` is a plain element name.
fn is_plain_element_name(s: &[char]) -> (r: bool)
    ensures
        r == plain_element_name(s@),
{
    s.len() >= 1 && is_ascii_alpha(s[0]) && is_alnum_hyphen_run(s, 1, s.len()) && is_ascii_alnum(s[s.len() - 1])
}

/// Whether `s` is `!` followed by letters.
fn is_bang_element_name(s: &[char]) -> (r: bool)
    ensures
        r == bang_element_name(s@),
{
    if s.len() < 2 || s[0] != '!' {
        return false;
    }
    let mut i: usize = 1;
    while i < s.len()
        invariant
            1 <= i <= s@.len(),
            forall|k: int| 1 <= k < i ==> #[trigger] spec_is_ascii_alpha(s@[k]),
        decreases s.len() - i,
    {
        if !is_ascii_alpha(s[i]) {
            return false;
        }
        i += 1;
    }
    true
}

/// Whether `s` is a namespaced element name.
fn is_namespaced_element_name(s: &[char]) -> (r: bool)
    ensures
        r == namespaced_element_name(s@),
{
    if s.len() < 1 || !is_ascii_alpha(s[0]) {
        return false;
    }
    let mut c: usize = 1;
    while c < s.len() && is_ascii_alnum(s[c])
        invariant
            1 <= c <= s@.len(),
            forall|k: int| 1 <= k < c ==> #[trigger] spec_ascii_alnum(s@[k]),
        decreases s.len() - c,
    {
        c += 1;
    }
    if c >= s.len() || s[c] != ':' || s.len() - c < 3 {
        proof {
            if namespaced_element_name(s@) {
                let w = choose|w: int|
                    #![trigger s@[w]]
                    1 <= w && w + 2 < s@.len() && s@[w] == ':' && spec_is_ascii_alpha(s@[0]) && (forall|k: int|
                        1 <= k < w ==> #[trigger] spec_ascii_alnum(s@[k])) && plain_element_name(
                        s@.subrange(w + 1, s@.len() as int),
                    );
                if w < c {
                    assert(spec_ascii_alnum(s@[w]));
                } else if w > c {
                    assert(spec_ascii_alnum(s@[c as int]));
                }
            }
        }
        return false;
    }
    let rest = crate::text::slice_chars(s, c + 1, s.len());
    let ok = is_plain_element_name(rest.as_slice());
    proof {
        if ok {
            assert(s@[c as int] == ':');
        } else if namespaced_element_name(s@) {
            let w = choose|w: int|
                #![trigger s@[w]]
                1 <= w && w + 2 < s@.len() && s@[w] == ':' && spec_is_ascii_alpha(s@[0]) && (forall|k: int|
                    1 <= k < w ==> #[trigger] spec_ascii_alnum(s@[k])) && plain_element_name(
                    s@.subrange(w + 1, s@.len() as int),
                );
            if w < c {
                assert(spec_ascii_alnum(s@[w]));
            } else if w > c {
                assert(spec_ascii_alnum(s@[c as int]));
            }
        }
    }
    ok
}

/// Whether `s` is a custom element name.
pub fn is_custom_element_name(s: &[char]) -> (r: bool)
    ensures
        r == custom_element_name(s@),
{
    if s.len() < 2 || !('a' <= s[0] && s[0] <= 'z') {
        return false;
    }
    let mut i: usize = 1;
    let mut hyphen = false;
    while i < s.len()
        invariant
            1 <= i <= s@.len(),
            s@[0] != '-',
            forall|k: int| 1 <= k < i ==> #[trigger] spec_custom_element_char(s@[k]),
            hyphen <==> exists|k: int| 0 <= k < i && s@[k] == '-',
        decreases s.len() - i,
    {
        if !is_custom_element_char(s[i]) {
            return false;
        }
        if s[i] == '-' {
            hyphen = true;
        }
        i += 1;
    }
    proof {
        if hyphen {
            let k = choose|k: int| 0 <= k < i && s@[k] == '-';
            assert(s@.contains('-'));
        } else {
            assert(!s@.contains('-'));
        }
    }
    hyphen
}

/// Whether `name` may stand as the name of an element.
pub fn is_valid_element_name(name: &[char]) -> (r: bool)
    ensures
        r == spec_valid_element_name(name@),
{
    is_bang_element_name(name) || is_plain_element_name(name) || is_namespaced_element_name(name)
        || is_custom_element_name(name)
}

/// Whether `c` may continue an identifier in a component name.
pub open spec fn spec_component_name_char(c: char) -> bool {
    unicode_alphanumeric(c) || c == '_' || c == '$' || c == '\u{200c}' || c == '\u{200d}'
}

/// Whether `c` may continue an identifier in a component name.
fn is_component_name_char(c: char) -> (r: bool)
    ensures
        r == spec_component_name_char(c),
{
    char_is_alphanumeric(c) || c == '_' || c == '$' || c == '\u{200c}' || c == '\u{200d}'
}

/// A component name: an upper-case letter followed by identifier characters
/// and dots, or identifiers joined by dots.
pub open spec fn spec_valid_component_name(s: Seq<char>) -> bool {
    s.len() >= 1 && ((unicode_uppercase(s[0]) && forall|k: int|
        1 <= k < s.len() ==> #[trigger] spec_component_name_char(s[k]) || s[k] == '.') || ((unicode_alphabetic(
        s[0],
    ) || s[0] == '_' || s[0] == '$') && s.contains('.') && s[s.len() - 1] != '.' && (forall|k: int|
        1 <= k < s.len() ==> #[trigger] spec_component_name_char(s[k]) || (s[k] == '.' && s[k - 1] != '.'))))
}

/// Whether `name` may stand as the name of a component.
pub fn is_valid_component_name(name: &[char]) -> (r: bool)
    ensures
        r == spec_valid_component_name(name@),
{
    if name.len() == 0 {
        return false;
    }
    let upper = char_is_uppercase(name[0]);
    let mut i: usize = 1;
    let mut plain = true;
    let mut dotted = true;
    let mut has_dot = false;
    while i < name.len()
        invariant
            1 <= i <= name@.len(),
            plain <==> forall|k: int| 1 <= k < i ==> #[trigger] spec_component_name_char(name@[k]) || name@[k] == '.',
            dotted <==> forall|k: int|
                1 <= k < i ==> #[trigger] spec_component_name_char(name@[k]) || (name@[k] == '.' && name@[k - 1] != '.'),
            has_dot <==> exists|k: int| 1 <= k < i && name@[k] == '.',
        decreases name.len() - i,
    {
        let c = name[i];
        let ok = is_component_name_char(c);
        if !(ok || c == '.') {
            plain = false;
        }
        if !(ok || (c == '.' && name[i - 1] != '.')) {
            dotted = false;
        }
        if c == '.' {
            has_dot = true;
        }
        i += 1;
    }
    let first_ok = char_is_alphabetic(name[0]) || name[0] == '_' || name[0] == '$';
    let has_dot = has_dot || name[0] == '.';
    proof {
        if has_dot {
            if name@[0] == '.' {
                assert(name@.contains('.'));
            } else {
                let k = choose|k: int| 1 <= k < i && name@[k] == '.';
                assert(name@.contains('.'));
            }
        } else {
            if name@.contains('.') {
                let k = choose|k: int| 0 <= k < name@.len() && name@[k] == '.';
                assert(k == 0 || (1 <= k < i && name@[k] == '.'));
            }
        }
    }
    (upper && plain) || (first_ok && has_dot && name[name.len() - 1] != '.' && dotted)
}

/// The `svelte:` elements that the compiler knows.
pub open spec fn spec_known_svelte_name(local: Seq<char>) -> bool {
    local == "head"@ || local == "body"@ || local == "window"@ || local == "document"@ || local == "component"@
        || local == "element"@ || local == "self"@ || local == "fragment"@ || local == "boundary"@ || local
        == "options"@
}

/// Whether `local`, the part of a `svelte:` name after the colon, names a known element.
pub fn is_known_svelte_name(local: &[char]) -> (r: bool)
    ensures
        r == spec_known_svelte_name(local@),
{
    text_is(local, "head") || text_is(local, "body") || text_is(local, "window") || text_is(local, "document")
        || text_is(local, "component") || text_is(local, "element") || text_is(local, "self") || text_is(
        local,
        "fragment",
    ) || text_is(local, "boundary") || text_is(local, "options")
}

} // verus!
