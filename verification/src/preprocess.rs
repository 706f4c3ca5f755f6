//! Preprocessing: finding the `<script>` and `<style>` blocks of a component
//! source, reading their attributes, handing their content to a
//! preprocessor, and putting what it gives back in their place.
use vstd::prelude::*;

use crate::diagnostics::CompileError;
use crate::scan::find_str;
use crate::text::{at, chars_eq, copy_chars, push_chars, push_str, slice_chars, spec_at};

verus! {

/// White space between the parts of a tag, as the preprocessor reads it.
pub open spec fn spec_tag_space(c: char) -> bool {
    c == ' ' || c == '\t' || c == '\r' || c == '\n'
}

/// Whether `c` is white space between the parts of a tag.
pub fn is_tag_space(c: char) -> (r: bool)
    ensures
        r == spec_tag_space(c),
{
    c == ' ' || c == '\t' || c == '\r' || c == '\n'
}

/// Whether every character of `value` is white space.
pub open spec fn spec_only_whitespace(value: Seq<char>) -> bool {
    forall|k: int| 0 <= k < value.len() ==> spec_tag_space(#[trigger] value[k])
}

/// Whether every character of `value[start..end]` is white space.
pub fn only_whitespace(value: &[char], start: usize, end: usize) -> (r: bool)
    requires
        start <= end <= value@.len(),
    ensures
        r == spec_only_whitespace(value@.subrange(start as int, end as int)),
{
    let mut k = start;
    while k < end
        invariant
            start <= k <= end <= value@.len(),
            forall|j: int| start <= j < k ==> spec_tag_space(#[trigger] value@[j]),
        decreases end - k,
    {
        if !is_tag_space(value[k]) {
            assert(value@.subrange(start as int, end as int)[k - start] == value@[k as int]);
            return false;
        }
        k += 1;
    }
    assert forall|j: int| 0 <= j < end - start implies spec_tag_space(
        #[trigger] value@.subrange(start as int, end as int)[j],
    ) by {
        assert(value@.subrange(start as int, end as int)[j] == value@[start + j]);
    }
    true
}

/// Where a tag that opens at `src[i]` ends, scanning from `i` with the
/// quote `quote` open: just past the first `>` outside quotes.
pub open spec fn open_end_from(src: Seq<char>, i: int, quote: Option<char>) -> Option<int>
    decreases src.len() - i,
{
    if i < 0 || i >= src.len() {
        None
    } else {
        let c = src[i];
        match quote {
            Some(q) => if c == q {
                open_end_from(src, i + 1, None)
            } else {
                open_end_from(src, i + 1, Some(q))
            },
            None => if c == '"' || c == '\'' {
                open_end_from(src, i + 1, Some(c))
            } else if c == '>' {
                Some(i + 1)
            } else {
                open_end_from(src, i + 1, None)
            },
        }
    }
}

/// Where the opening tag that starts at `start` ends: just past its `>`.
pub fn find_tag_open_end(src: &[char], start: usize) -> (r: Option<usize>)
    requires
        start < src@.len() < usize::MAX,
    ensures
        r matches Some(e) ==> open_end_from(src@, start + 1, None) == Some(e as int) && start + 1 < e <= src@.len(),
        r is None ==> open_end_from(src@, start + 1, None) is None,
{
    let mut i = start + 1;
    let mut quote: Option<char> = None;
    while i < src.len()
        invariant
            start < i <= src@.len() < usize::MAX,
            open_end_from(src@, start + 1, None) == open_end_from(src@, i as int, quote),
        decreases src.len() - i,
    {
        let c = src[i];
        match quote {
            Some(q) => {
                if c == q {
                    quote = None;
                }
            },
            None => {
                if c == '"' || c == '\'' {
                    quote = Some(c);
                } else if c == '>' {
                    return Some(i + 1);
                }
            },
        }
        i += 1;
    }
    None
}

/// The last `/` of `src[i..end]` that only white space follows, scanning from
/// `i` with `quote` open and `slash` the candidate found so far.
pub open spec fn slash_from(src: Seq<char>, i: int, end: int, quote: Option<char>, slash: Option<int>) -> Option<int>
    decreases end - i,
{
    if i < 0 || i >= end || i >= src.len() {
        slash
    } else {
        let c = src[i];
        match quote {
            Some(q) => if c == q {
                slash_from(src, i + 1, end, None, slash)
            } else {
                slash_from(src, i + 1, end, Some(q), slash)
            },
            None => if c == '"' || c == '\'' {
                slash_from(src, i + 1, end, Some(c), slash)
            } else if c == '/' {
                slash_from(src, i + 1, end, None, Some(i))
            } else if !spec_tag_space(c) {
                slash_from(src, i + 1, end, None, None)
            } else {
                slash_from(src, i + 1, end, None, slash)
            },
        }
    }
}

/// The `/` of a self-closing tag among `src[start..end]`: the last one outside
/// quotes that only white space follows.
pub fn find_self_closing_slash(src: &[char], start: usize, end: usize) -> (r: Option<usize>)
    requires
        start <= end <= src@.len(),
    ensures
        r matches Some(k) ==> slash_from(src@, start as int, end as int, None, None) == Some(k as int) && start <= k
            < end,
        r is None ==> slash_from(src@, start as int, end as int, None, None) is None,
{
    let mut quote: Option<char> = None;
    let mut slash: Option<usize> = None;
    let mut i = start;
    while i < end
        invariant
            start <= i <= end <= src@.len(),
            slash matches Some(k) ==> start <= k < i,
            slash_from(src@, start as int, end as int, None, None) == slash_from(
                src@,
                i as int,
                end as int,
                quote,
                match slash {
                    Some(k) => Some(k as int),
                    None => None,
                },
            ),
        decreases end - i,
    {
        let c = src[i];
        match quote {
            Some(q) => {
                if c == q {
                    quote = None;
                }
            },
            None => {
                if c == '"' || c == '\'' {
                    quote = Some(c);
                } else if c == '/' {
                    slash = Some(i);
                } else if !is_tag_space(c) {
                    slash = None;
                }
            },
        }
        i += 1;
    }
    slash
}

/// Where a comment that starts at `start` ends: just past its `-->`, or the
/// end of the source when it is not closed.
pub open spec fn spec_comment_end(src: Seq<char>, start: int) -> int {
    if exists|k: int| start + 4 <= k < src.len() && spec_at(src, k, "-->"@) {
        let k = choose|k: int|
            start + 4 <= k < src.len() && spec_at(src, k, "-->"@) && forall|j: int|
                start + 4 <= j < k ==> !spec_at(src, j, "-->"@);
        k + 3
    } else {
        src.len() as int
    }
}

/// Where a comment `<!--` that starts at `start` ends.
pub fn skip_html_comment(src: &[char], start: usize) -> (r: usize)
    requires
        start + 4 <= src@.len() < usize::MAX,
    ensures
        r == spec_comment_end(src@, start as int),
        start < r <= src@.len(),
{
    proof {
        reveal_strlit("-->");
    }
    match find_str(src, start + 4, "-->") {
        Some(k) => {
            assert(spec_at(src@, k as int, "-->"@));
            proof {
                let w = choose|w: int|
                    start + 4 <= w < src@.len() && spec_at(src@, w, "-->"@) && forall|j: int|
                        start + 4 <= j < w ==> !spec_at(src@, j, "-->"@);
                assert(start + 4 <= k < src@.len() && spec_at(src@, k as int, "-->"@) && forall|j: int|
                    start + 4 <= j < k ==> !spec_at(src@, j, "-->"@));
                if w < k {
                    assert(!spec_at(src@, w, "-->"@));
                } else if k < w {
                    assert(!spec_at(src@, k as int, "-->"@));
                }
            }
            k + 3
        },
        None => src.len(),
    }
}

/// A value of an attribute as a preprocessor sees it: bare, or text.
#[derive(Debug, PartialEq, Eq)]
pub enum PreprocessAttributeValue {
    Bool(bool),
    String(Vec<char>),
}

/// An attribute of a `<script>` or `<style>` tag.
#[derive(Debug, PartialEq, Eq)]
pub struct PreprocessAttribute {
    pub name: Vec<char>,
    pub value: PreprocessAttributeValue,
}

/// Whether no two attributes share a name.
pub open spec fn unique_names(attrs: Seq<PreprocessAttribute>) -> bool {
    forall|i: int, j: int| 0 <= i < j < attrs.len() ==> (#[trigger] attrs[i]).name@ != (#[trigger] attrs[j]).name@
}

/// What can stop an attribute name.
pub open spec fn spec_name_stop(c: char) -> bool {
    spec_tag_space(c) || c == '=' || c == '/' || c == '>'
}

/// Whether `name` can be an attribute name: not empty, with nothing that stops a name.
pub open spec fn good_name(name: Seq<char>) -> bool {
    name.len() > 0 && forall|j: int| 0 <= j < name.len() ==> !spec_name_stop(#[trigger] name[j])
}

/// Whether every attribute has a name that can be one.
pub open spec fn good_names(attrs: Seq<PreprocessAttribute>) -> bool {
    forall|k: int| 0 <= k < attrs.len() ==> good_name((#[trigger] attrs[k]).name@)
}

/// Whether some attribute is named `n`.
pub open spec fn has_attribute(attrs: Seq<PreprocessAttribute>, n: Seq<char>) -> bool {
    exists|k: int| 0 <= k < attrs.len() && (#[trigger] attrs[k]).name@ == n
}

/// The end of the tag white space from `i`.
pub open spec fn tag_space_end(raw: Seq<char>, i: int) -> int
    decreases raw.len() - i,
{
    if 0 <= i < raw.len() && spec_tag_space(raw[i]) {
        tag_space_end(raw, i + 1)
    } else {
        i
    }
}

/// The end of an attribute name from `i`.
pub open spec fn attribute_name_end_from(raw: Seq<char>, i: int) -> int
    decreases raw.len() - i,
{
    if 0 <= i < raw.len() && !spec_name_stop(raw[i]) {
        attribute_name_end_from(raw, i + 1)
    } else {
        i
    }
}

/// The position of the quote `q` that closes a value from `i`, or the end.
pub open spec fn quote_close(raw: Seq<char>, i: int, q: char) -> int
    decreases raw.len() - i,
{
    if 0 <= i < raw.len() && raw[i] != q {
        quote_close(raw, i + 1, q)
    } else {
        i
    }
}

/// The end of an unquoted value from `i`.
pub open spec fn unquoted_value_end(raw: Seq<char>, i: int) -> int
    decreases raw.len() - i,
{
    if 0 <= i < raw.len() && !spec_tag_space(raw[i]) && raw[i] != '>' && raw[i] != '/' {
        unquoted_value_end(raw, i + 1)
    } else {
        i
    }
}

/// The attribute read at `index`: where the reading goes on, and the name
/// read with its text value (`None` for a bare name), when one was read.
pub open spec fn attribute_at(raw: Seq<char>, index: int) -> (int, Option<(Seq<char>, Option<Seq<char>>)>) {
    let i = tag_space_end(raw, index);
    if i >= raw.len() {
        (i, None)
    } else {
        let ne = attribute_name_end_from(raw, i);
        if ne == i {
            (i + 1, None)
        } else {
            let name = raw.subrange(i, ne);
            let k = tag_space_end(raw, ne);
            if k < raw.len() && raw[k] == '=' {
                let v = tag_space_end(raw, k + 1);
                if v >= raw.len() {
                    (v, Some((name, Some(Seq::empty()))))
                } else if raw[v] == '"' || raw[v] == '\'' {
                    let e = quote_close(raw, v + 1, raw[v]);
                    (
                        if e < raw.len() {
                            e + 1
                        } else {
                            e
                        },
                        Some((name, Some(raw.subrange(v + 1, e)))),
                    )
                } else {
                    let e = unquoted_value_end(raw, v);
                    (e, Some((name, Some(raw.subrange(v, e)))))
                }
            } else {
                (k, Some((name, None)))
            }
        }
    }
}

/// The value that the attributes read from `index` on leave to the name `n`,
/// after `current`: `None` while the name was not written, else its text
/// value (`None` for a bare name).
pub open spec fn attribute_value_from(
    raw: Seq<char>,
    index: int,
    n: Seq<char>,
    current: Option<Option<Seq<char>>>,
) -> Option<Option<Seq<char>>>
    decreases raw.len() - index,
{
    if 0 <= index < raw.len() {
        let (next, got) = attribute_at(raw, index);
        let cur = match got {
            Some((name, v)) => if name == n {
                Some(v)
            } else {
                current
            },
            None => current,
        };
        if index < next <= raw.len() {
            attribute_value_from(raw, next, n, cur)
        } else {
            cur
        }
    } else {
        current
    }
}

/// An attribute value as plain values: its text, or `None` for a flag.
pub open spec fn value_text(v: PreprocessAttributeValue) -> Option<Seq<char>> {
    match v {
        PreprocessAttributeValue::Bool(_) => None,
        PreprocessAttributeValue::String(s) => Some(s@),
    }
}

/// The value of the attribute named `n`, if there is one.
pub open spec fn attribute_lookup(attrs: Seq<PreprocessAttribute>, n: Seq<char>) -> Option<Option<Seq<char>>> {
    if has_attribute(attrs, n) {
        Some(value_text(attrs[choose|k: int| 0 <= k < attrs.len() && (#[trigger] attrs[k]).name@ == n].value))
    } else {
        None
    }
}

/// With names unique, the value looked up for a name is that of the attribute carrying it.
proof fn lemma_attribute_lookup(attrs: Seq<PreprocessAttribute>, k: int)
    requires
        unique_names(attrs),
        0 <= k < attrs.len(),
    ensures
        attribute_lookup(attrs, attrs[k].name@) == Some(value_text(attrs[k].value)),
{
    let n = attrs[k].name@;
    assert(has_attribute(attrs, n));
    let c = choose|c: int| 0 <= c < attrs.len() && (#[trigger] attrs[c]).name@ == n;
    if c != k {
        if c < k {
            assert(attrs[c].name@ != attrs[k].name@);
        } else {
            assert(attrs[k].name@ != attrs[c].name@);
        }
    }
}

/// Sets `name` to `value` in `attrs`, replacing an earlier value.
fn set_attribute(attrs: &mut Vec<PreprocessAttribute>, name: Vec<char>, value: PreprocessAttributeValue)
    requires
        unique_names(old(attrs)@),
        good_names(old(attrs)@),
        good_name(name@),
    ensures
        unique_names(final(attrs)@),
        good_names(final(attrs)@),
        exists|k: int| 0 <= k < final(attrs)@.len() && (#[trigger] final(attrs)@[k]).name@ == name@ && final(attrs)@[k].value == value,
        forall|n: Seq<char>| #![trigger has_attribute(final(attrs)@, n)] n != name@ ==> (has_attribute(old(attrs)@, n) <==> has_attribute(final(attrs)@, n)),
        attribute_lookup(final(attrs)@, name@) == Some(value_text(value)),
        forall|n: Seq<char>|
            #![trigger attribute_lookup(final(attrs)@, n)]
            n != name@ ==> attribute_lookup(final(attrs)@, n) == attribute_lookup(old(attrs)@, n),
{
    let mut i: usize = 0;
    while i < attrs.len()
        invariant
            i <= attrs@.len(),
            attrs@ == old(attrs)@,
            unique_names(attrs@),
            good_names(attrs@),
            good_name(name@),
            forall|k: int| 0 <= k < i ==> (#[trigger] attrs@[k]).name@ != name@,
        decreases attrs.len() - i,
    {
        if chars_eq(attrs[i].name.as_slice(), name.as_slice()) {
            let ghost before = attrs@;
            let ghost n = name@;
            let new_name = copy_chars(name.as_slice());
            attrs.set(i, PreprocessAttribute { name: new_name, value });
            proof {
                assert forall|a: int, b: int| 0 <= a < b < attrs@.len() implies (#[trigger] attrs@[a]).name@
                    != (#[trigger] attrs@[b]).name@ by {
                    if a == i {
                        assert(before[b].name@ != before[i as int].name@);
                    } else if b == i {
                        assert(before[a].name@ != before[i as int].name@);
                    } else {
                        assert(before[a] == attrs@[a] && before[b] == attrs@[b]);
                    }
                }
                assert(attrs@[i as int].name@ == n);
                assert forall|m: Seq<char>| m != n implies (has_attribute(before, m) <==> #[trigger] has_attribute(attrs@, m)) by {
                    if exists|k: int| 0 <= k < before.len() && (#[trigger] before[k]).name@ == m {
                        let k = choose|k: int| 0 <= k < before.len() && (#[trigger] before[k]).name@ == m;
                        assert(k != i);
                        assert(attrs@[k] == before[k]);
                    }
                    if exists|k: int| 0 <= k < attrs@.len() && (#[trigger] attrs@[k]).name@ == m {
                        let k = choose|k: int| 0 <= k < attrs@.len() && (#[trigger] attrs@[k]).name@ == m;
                        assert(k != i);
                        assert(attrs@[k] == before[k]);
                    }
                }
                lemma_attribute_lookup(attrs@, i as int);
                assert forall|m: Seq<char>|
                    #![trigger attribute_lookup(attrs@, m)]
                    m != n implies attribute_lookup(attrs@, m) == attribute_lookup(before, m) by {
                    if has_attribute(before, m) {
                        let c = choose|c: int| 0 <= c < before.len() && (#[trigger] before[c]).name@ == m;
                        assert(c != i);
                        assert(attrs@[c] == before[c]);
                        lemma_attribute_lookup(attrs@, c);
                        lemma_attribute_lookup(before, c);
                    } else {
                        assert(!has_attribute(attrs@, m));
                    }
                }
            }
            return;
        }
        i += 1;
    }
    let ghost before = attrs@;
    attrs.push(PreprocessAttribute { name, value });
    proof {
        assert(attrs@[before.len() as int].name@ == name@);
        assert forall|m: Seq<char>| m != name@ implies (has_attribute(before, m) <==> #[trigger] has_attribute(attrs@, m)) by {
            if exists|k: int| 0 <= k < before.len() && (#[trigger] before[k]).name@ == m {
                let k = choose|k: int| 0 <= k < before.len() && (#[trigger] before[k]).name@ == m;
                assert(attrs@[k] == before[k]);
            }
            if exists|k: int| 0 <= k < attrs@.len() && (#[trigger] attrs@[k]).name@ == m {
                let k = choose|k: int| 0 <= k < attrs@.len() && (#[trigger] attrs@[k]).name@ == m;
                assert(k < before.len());
                assert(attrs@[k] == before[k]);
            }
        }
        assert(unique_names(attrs@)) by {
            assert forall|a: int, b: int| 0 <= a < b < attrs@.len() implies (#[trigger] attrs@[a]).name@
                != (#[trigger] attrs@[b]).name@ by {
                if b == before.len() {
                    assert(attrs@[a] == before[a]);
                } else {
                    assert(attrs@[a] == before[a] && attrs@[b] == before[b]);
                }
            }
        }
        lemma_attribute_lookup(attrs@, before.len() as int);
        assert forall|m: Seq<char>|
            #![trigger attribute_lookup(attrs@, m)]
            m != name@ implies attribute_lookup(attrs@, m) == attribute_lookup(before, m) by {
            if has_attribute(before, m) {
                let c = choose|c: int| 0 <= c < before.len() && (#[trigger] before[c]).name@ == m;
                assert(attrs@[c] == before[c]);
                lemma_attribute_lookup(attrs@, c);
                lemma_attribute_lookup(before, c);
            } else {
                assert(!has_attribute(attrs@, m));
            }
        }
    }
}

/// Reads the attributes written in `raw`: names up to white space, `=`, `/`
/// or `>`, each bare or with a value, quoted or not. A name written twice
/// keeps its last value.
pub fn parse_attributes(raw: &[char]) -> (attrs: Vec<PreprocessAttribute>)
    ensures
        unique_names(attrs@),
        good_names(attrs@),
        forall|n: Seq<char>|
            #![trigger attribute_lookup(attrs@, n)]
            attribute_lookup(attrs@, n) == attribute_value_from(raw@, 0, n, None),
{
    let mut attrs: Vec<PreprocessAttribute> = Vec::new();
    let mut index: usize = 0;
    proof {
        assert forall|n: Seq<char>|
            #![trigger attribute_lookup(attrs@, n)]
            attribute_value_from(raw@, 0, n, attribute_lookup(attrs@, n)) == attribute_value_from(raw@, 0, n, None) by {
            assert(!has_attribute(attrs@, n));
        }
    }
    while index < raw.len()
        invariant
            index <= raw@.len(),
            unique_names(attrs@),
            good_names(attrs@),
            forall|n: Seq<char>|
                #![trigger attribute_lookup(attrs@, n)]
                attribute_value_from(raw@, index as int, n, attribute_lookup(attrs@, n)) == attribute_value_from(
                    raw@,
                    0,
                    n,
                    None,
                ),
        ensures
            index >= raw@.len(),
            unique_names(attrs@),
            good_names(attrs@),
            forall|n: Seq<char>|
                #![trigger attribute_lookup(attrs@, n)]
                attribute_value_from(raw@, index as int, n, attribute_lookup(attrs@, n)) == attribute_value_from(
                    raw@,
                    0,
                    n,
                    None,
                ),
        decreases raw.len() - index,
    {
        let ghost outer = index as int;
        let ghost got = attribute_at(raw@, outer);
        while index < raw.len() && is_tag_space(raw[index])
            invariant
                outer <= index <= raw@.len(),
                tag_space_end(raw@, index as int) == tag_space_end(raw@, outer),
            decreases raw.len() - index,
        {
            index += 1;
        }
        if index >= raw.len() {
            proof {
                assert forall|n: Seq<char>|
                    #![trigger attribute_lookup(attrs@, n)]
                    attribute_value_from(raw@, index as int, n, attribute_lookup(attrs@, n)) == attribute_value_from(
                        raw@,
                        outer,
                        n,
                        attribute_lookup(attrs@, n),
                    ) by {}
            }
            break;
        }
        let name_start = index;
        while index < raw.len() && !is_tag_space(raw[index]) && raw[index] != '=' && raw[index] != '/' && raw[index]
            != '>'
            invariant
                outer <= name_start <= index <= raw@.len(),
                forall|j: int| name_start <= j < index ==> !spec_name_stop(#[trigger] raw@[j]),
                attribute_name_end_from(raw@, index as int) == attribute_name_end_from(raw@, name_start as int),
            decreases raw.len() - index,
        {
            index += 1;
        }
        if name_start == index {
            index += 1;
            proof {
                assert(got.0 == index && got.1 is None);
            }
            continue;
        }
        let name = slice_chars(raw, name_start, index);
        let ghost ne = index as int;
        while index < raw.len() && is_tag_space(raw[index])
            invariant
                outer < index <= raw@.len(),
                ne <= index,
                tag_space_end(raw@, index as int) == tag_space_end(raw@, ne),
            decreases raw.len() - index,
        {
            index += 1;
        }
        let value = if index < raw.len() && raw[index] == '=' {
            index += 1;
            let ghost k1 = index as int;
            while index < raw.len() && is_tag_space(raw[index])
                invariant
                    outer < index <= raw@.len(),
                    k1 <= index,
                    tag_space_end(raw@, index as int) == tag_space_end(raw@, k1),
                decreases raw.len() - index,
            {
                index += 1;
            }
            if index >= raw.len() {
                PreprocessAttributeValue::String(Vec::new())
            } else if raw[index] == '"' || raw[index] == '\'' {
                let quote = raw[index];
                index += 1;
                let value_start = index;
                while index < raw.len() && raw[index] != quote
                    invariant
                        outer < value_start <= index <= raw@.len(),
                        quote_close(raw@, index as int, quote) == quote_close(raw@, value_start as int, quote),
                    decreases raw.len() - index,
                {
                    index += 1;
                }
                let text = slice_chars(raw, value_start, index);
                if index < raw.len() {
                    index += 1;
                }
                PreprocessAttributeValue::String(text)
            } else {
                let value_start = index;
                while index < raw.len() && !is_tag_space(raw[index]) && raw[index] != '>' && raw[index] != '/'
                    invariant
                        outer < value_start <= index <= raw@.len(),
                        unquoted_value_end(raw@, index as int) == unquoted_value_end(raw@, value_start as int),
                    decreases raw.len() - index,
                {
                    index += 1;
                }
                PreprocessAttributeValue::String(slice_chars(raw, value_start, index))
            }
        } else {
            PreprocessAttributeValue::Bool(true)
        };
        proof {
            assert(got.0 == index);
            assert(got.1 == Some((name@, value_text(value))));
        }
        let ghost before = attrs@;
        let ghost vt = value_text(value);
        proof {
            assert forall|j: int| 0 <= j < name@.len() implies !spec_name_stop(#[trigger] name@[j]) by {
                assert(name@[j] == raw@[name_start + j]);
            }
        }
        set_attribute(&mut attrs, name, value);
        proof {
            assert forall|n: Seq<char>|
                #![trigger attribute_lookup(attrs@, n)]
                attribute_value_from(raw@, index as int, n, attribute_lookup(attrs@, n)) == attribute_value_from(
                    raw@,
                    0,
                    n,
                    None,
                ) by {
                assert(attribute_value_from(raw@, outer, n, attribute_lookup(before, n)) == attribute_value_from(
                    raw@,
                    0,
                    n,
                    None,
                ));
            }
        }
    }
    attrs
}

/// The first position at or after `from` where `src` spells `pat`.
pub open spec fn first_at(src: Seq<char>, from: int, pat: Seq<char>) -> Option<int> {
    if exists|k: int| from <= k < src.len() && spec_at(src, k, pat) {
        Some(
            choose|k: int|
                from <= k < src.len() && spec_at(src, k, pat) && forall|j: int| from <= j < k ==> !spec_at(src, j, pat),
        )
    } else {
        None
    }
}

/// The first position at or after `from` where `src` spells `pat`.
fn find_first(src: &[char], from: usize, pat: &str) -> (r: Option<usize>)
    requires
        from <= src@.len(),
    ensures
        r matches Some(k) ==> first_at(src@, from as int, pat@) == Some(k as int) && from <= k < src@.len() && spec_at(
            src@,
            k as int,
            pat@,
        ),
        r is None ==> first_at(src@, from as int, pat@) is None,
{
    match find_str(src, from, pat) {
        Some(k) => {
            if k >= src.len() {
                return None;
            }
            proof {
                let w = choose|w: int|
                    from <= w < src@.len() && spec_at(src@, w, pat@) && forall|j: int|
                        from <= j < w ==> !spec_at(src@, j, pat@);
                assert(from <= k < src@.len() && spec_at(src@, k as int, pat@) && forall|j: int|
                    from <= j < k ==> !spec_at(src@, j, pat@));
                if w < k {
                    assert(!spec_at(src@, w, pat@));
                } else if k < w {
                    assert(!spec_at(src@, k as int, pat@));
                }
            }
            Some(k)
        },
        None => None,
    }
}

/// A `<script>` or `<style>` block found in a source: where it starts and
/// ends, where its name and its opening tag end, where its raw attributes
/// end, where its content lies, whether it closes itself, and its attributes.
pub struct TagBlock {
    pub start: usize,
    pub end: usize,
    pub name_end: usize,
    pub open_end: usize,
    pub raw_attributes_end: usize,
    pub content_start: usize,
    pub content_end: usize,
    pub self_closing: bool,
    pub attributes: Vec<PreprocessAttribute>,
}

/// What may follow the name of the tag a preprocessor looks for.
pub open spec fn spec_after_tag_name(c: char) -> bool {
    c == '>' || c == '/' || spec_tag_space(c)
}

/// The shape of the block named `tag` that opens at `start`, if one does:
/// its end, where its opening tag ends, where its raw attributes end, where
/// its content starts and ends, and whether it closes itself. A block that
/// does not close itself ends with the first `</tag>` after its opening tag.
pub open spec fn spec_tag_block(src: Seq<char>, start: int, tag: Seq<char>) -> Option<(int, int, int, int, int, bool)> {
    let name_end = start + 1 + tag.len();
    if !(spec_at(src, start + 1, tag) && name_end < src.len() && spec_after_tag_name(src[name_end])) {
        None
    } else {
        match open_end_from(src, start + 1, None) {
            None => None,
            Some(open_end) => {
                let tag_close = open_end - 1;
                if tag_close < name_end {
                    None
                } else {
                    let slash = slash_from(src, name_end, tag_close, None, None);
                    let raw_end = match slash {
                        Some(k) => k,
                        None => tag_close,
                    };
                    if slash matches Some(k) && spec_only_whitespace(src.subrange(k + 1, tag_close)) {
                        Some((open_end, open_end, raw_end, open_end, open_end, true))
                    } else {
                        let closing = "</"@ + tag + ">"@;
                        match first_at(src, open_end, closing) {
                            Some(content_end) => Some(
                                (content_end + closing.len(), open_end, raw_end, open_end, content_end, false),
                            ),
                            None => None,
                        }
                    }
                }
            },
        }
    }
}

/// The block named `tag` that opens at `start`, if one does.
pub fn parse_tag_block(src: &[char], start: usize, tag: &str) -> (r: Option<TagBlock>)
    requires
        start < src@.len() < usize::MAX,
    ensures
        r matches Some(b) ==> spec_tag_block(src@, start as int, tag@) == Some(
            (
                b.end as int,
                b.open_end as int,
                b.raw_attributes_end as int,
                b.content_start as int,
                b.content_end as int,
                b.self_closing,
            ),
        ) && b.start == start && b.name_end == start + 1 + tag@.len() && start < b.open_end <= b.end
            <= src@.len() && b.name_end <= b.raw_attributes_end <= b.open_end && b.content_start <= b.content_end
            <= b.end,
        r is None ==> spec_tag_block(src@, start as int, tag@) is None,
{
    let name = crate::text::str_chars(tag);
    let name_start = start + 1;
    if !at(src, name_start, tag) {
        return None;
    }
    let name_end = name_start + name.len();
    if name_end >= src.len() {
        return None;
    }
    let next = src[name_end];
    if !(next == '>' || next == '/' || is_tag_space(next)) {
        return None;
    }
    let open_end = match find_tag_open_end(src, start) {
        Some(e) => e,
        None => return None,
    };
    let tag_close = open_end - 1;
    if tag_close < name_end {
        return None;
    }
    let slash = find_self_closing_slash(src, name_end, tag_close);
    let raw_end = match slash {
        Some(k) => k,
        None => tag_close,
    };
    let raw = slice_chars(src, name_end, raw_end);
    let attributes = parse_attributes(raw.as_slice());
    if let Some(k) = slash {
        if only_whitespace(src, k + 1, tag_close) {
            return Some(
                TagBlock {
                    start,
                    end: open_end,
                    name_end,
                    open_end,
                    raw_attributes_end: raw_end,
                    content_start: open_end,
                    content_end: open_end,
                    self_closing: true,
                    attributes,
                },
            );
        }
    }
    proof {
        reveal_strlit("</");
        reveal_strlit(">");
    }
    let mut closing = crate::text::chars_of("</");
    push_str(&mut closing, tag);
    push_str(&mut closing, ">");
    let closing_len = closing.len();
    let content_end = match find_first_chars(src, open_end, closing.as_slice()) {
        Some(k) => k,
        None => return None,
    };
    Some(
        TagBlock {
            start,
            end: content_end + closing_len,
            name_end,
            open_end,
            raw_attributes_end: raw_end,
            content_start: open_end,
            content_end,
            self_closing: false,
            attributes,
        },
    )
}

/// Whether `src` spells `pat` from `pos` on.
fn at_chars(src: &[char], pos: usize, pat: &[char]) -> (r: bool)
    requires
        src@.len() < usize::MAX,
    ensures
        r == spec_at(src@, pos as int, pat@),
{
    if pos > src.len() || pat.len() > src.len() - pos {
        return false;
    }
    let mut k: usize = 0;
    while k < pat.len()
        invariant
            k <= pat@.len(),
            pos <= src@.len() < usize::MAX,
            pat@.len() <= src@.len() - pos,
            forall|m: int| 0 <= m < k ==> src@[pos + m] == pat@[m],
        decreases pat.len() - k,
    {
        if src[pos + k] != pat[k] {
            assert(src@.subrange(pos as int, pos + pat@.len())[k as int] != pat@[k as int]);
            return false;
        }
        k += 1;
    }
    assert(src@.subrange(pos as int, pos + pat@.len()) =~= pat@);
    true
}

/// The first position at or after `from` where `src` spells `pat`, for a
/// pattern that is not empty.
fn find_first_chars(src: &[char], from: usize, pat: &[char]) -> (r: Option<usize>)
    requires
        from <= src@.len() < usize::MAX,
        pat@.len() > 0,
    ensures
        r matches Some(k) ==> first_at(src@, from as int, pat@) == Some(k as int) && from <= k && k + pat@.len()
            <= src@.len(),
        r is None ==> first_at(src@, from as int, pat@) is None,
{
    let mut i = from;
    while i < src.len()
        invariant
            from <= i <= src@.len() < usize::MAX,
            forall|j: int| from <= j < i ==> !spec_at(src@, j, pat@),
        decreases src.len() - i,
    {
        if at_chars(src, i, pat) {
            proof {
                let w = choose|w: int|
                    from <= w < src@.len() && spec_at(src@, w, pat@) && forall|j: int|
                        from <= j < w ==> !spec_at(src@, j, pat@);
                assert(from <= i < src@.len() && spec_at(src@, i as int, pat@) && forall|j: int|
                    from <= j < i ==> !spec_at(src@, j, pat@));
                if w < i {
                    assert(!spec_at(src@, w, pat@));
                } else if i < w {
                    assert(!spec_at(src@, i as int, pat@));
                }
            }
            return Some(i);
        }
        i += 1;
    }
    None
}

/// How one attribute is written in an opening tag, after a space.
pub open spec fn rendered_attribute(a: PreprocessAttribute) -> Seq<char> {
    " "@ + a.name@ + match a.value {
        PreprocessAttributeValue::Bool(true) => Seq::empty(),
        PreprocessAttributeValue::Bool(false) => "=\"false\""@,
        PreprocessAttributeValue::String(v) => "=\""@ + v@ + "\""@,
    }
}

/// How the attributes `attrs` are written in an opening tag, in order.
pub open spec fn rendered_attributes(attrs: Seq<PreprocessAttribute>) -> Seq<char>
    decreases attrs.len(),
{
    if attrs.len() == 0 {
        Seq::empty()
    } else {
        rendered_attributes(attrs.drop_last()) + rendered_attribute(attrs.last())
    }
}

/// The opening tag named `name` with the attributes `attrs`.
pub fn render_open_tag(name: &[char], attrs: &Vec<PreprocessAttribute>) -> (out: Vec<char>)
    ensures
        out@ == "<"@ + name@ + rendered_attributes(attrs@) + ">"@,
{
    let mut out = crate::text::chars_of("<");
    push_chars(&mut out, name);
    let ghost head = out@;
    let mut i: usize = 0;
    while i < attrs.len()
        invariant
            i <= attrs@.len(),
            out@ == head + rendered_attributes(attrs@.subrange(0, i as int)),
        decreases attrs.len() - i,
    {
        let ghost prev = out@;
        push_str(&mut out, " ");
        push_chars(&mut out, attrs[i].name.as_slice());
        match &attrs[i].value {
            PreprocessAttributeValue::Bool(true) => {},
            PreprocessAttributeValue::Bool(false) => {
                push_str(&mut out, "=\"false\"");
            },
            PreprocessAttributeValue::String(v) => {
                push_str(&mut out, "=\"");
                push_chars(&mut out, v.as_slice());
                push_str(&mut out, "\"");
            },
        }
        proof {
            let sub = attrs@.subrange(0, i + 1);
            assert(sub.drop_last() =~= attrs@.subrange(0, i as int));
            assert(sub.last() == attrs@[i as int]);
            assert(out@ =~= prev + rendered_attribute(attrs@[i as int]));
        }
        i += 1;
    }
    assert(attrs@.subrange(0, attrs@.len() as int) =~= attrs@);
    push_str(&mut out, ">");
    out
}

/// What a preprocessor gives back for a block: the new content, the files it
/// read, and, if it changes them, the attributes of the opening tag.
pub struct PreprocessOutput {
    pub code: Vec<char>,
    pub dependencies: Vec<Vec<char>>,
    pub attributes: Option<Vec<PreprocessAttribute>>,
}

/// What a pass over the blocks of one kind gives: the new source and the
/// files the preprocessor read.
pub struct TagPassResult {
    pub code: Vec<char>,
    pub dependencies: Vec<Vec<char>>,
}

/// Whether the preprocessor `f` leaves every block as it is.
pub open spec fn changes_nothing<F: Fn(&[char], &Vec<PreprocessAttribute>) -> Result<
    Option<PreprocessOutput>,
    CompileError,
>>(f: F) -> bool {
    forall|content: &[char], attrs: &Vec<PreprocessAttribute>, out: Result<Option<PreprocessOutput>, CompileError>|
        call_ensures(f, (content, attrs), out) ==> out matches Ok(None)
}

/// The replacement of `block` that `output` gives: the opening tag (with the
/// new attributes, if any), the new content and the closing tag.
pub open spec fn spec_replacement(src: Seq<char>, block: TagBlock, output: PreprocessOutput) -> Seq<char> {
    let name = src.subrange(block.start + 1, block.name_end as int);
    let open_tag = match output.attributes {
        Some(attributes) => "<"@ + name + rendered_attributes(attributes@) + ">"@,
        None => if block.self_closing {
            "<"@ + name + src.subrange(block.name_end as int, block.raw_attributes_end as int) + ">"@
        } else {
            src.subrange(block.start as int, block.open_end as int)
        },
    };
    open_tag + output.code@ + "</"@ + name + ">"@
}

/// Writes the replacement of `block` that `output` gives to `out`: the
/// opening tag (with the new attributes, if any), the new content and the
/// closing tag, and adds the files it read to `dependencies`.
fn write_replacement(
    src: &[char],
    block: &TagBlock,
    output: &PreprocessOutput,
    out: &mut Vec<char>,
    dependencies: &mut Vec<Vec<char>>,
)
    requires
        block.start < block.name_end <= block.raw_attributes_end <= block.open_end <= src@.len(),
    ensures
        final(out)@ == old(out)@ + spec_replacement(src@, *block, *output),
        final(dependencies)@.len() == old(dependencies)@.len() + output.dependencies@.len(),
        forall|k: int| 0 <= k < old(dependencies)@.len() ==> #[trigger] final(dependencies)@[k] == old(dependencies)@[k],
        forall|k: int|
            0 <= k < output.dependencies@.len() ==> (#[trigger] final(dependencies)@[old(dependencies)@.len() + k])@
                == output.dependencies@[k]@,
{
    proof {
        reveal_strlit("<");
        reveal_strlit(">");
        reveal_strlit("</");
    }
    let ghost deps0 = dependencies@;
    let mut k: usize = 0;
    while k < output.dependencies.len()
        invariant
            k <= output.dependencies@.len(),
            dependencies@.len() == deps0.len() + k,
            forall|m: int| 0 <= m < deps0.len() ==> #[trigger] dependencies@[m] == deps0[m],
            forall|m: int| 0 <= m < k ==> (#[trigger] dependencies@[deps0.len() + m])@ == output.dependencies@[m]@,
        decreases output.dependencies.len() - k,
    {
        dependencies.push(copy_chars(output.dependencies[k].as_slice()));
        k += 1;
    }
    let name = slice_chars(src, block.start + 1, block.name_end);
    let open_tag = match &output.attributes {
        Some(attributes) => render_open_tag(name.as_slice(), attributes),
        None => {
            if block.self_closing {
                let mut t = crate::text::chars_of("<");
                push_chars(&mut t, name.as_slice());
                let raw = slice_chars(src, block.name_end, block.raw_attributes_end);
                push_chars(&mut t, raw.as_slice());
                push_str(&mut t, ">");
                t
            } else {
                slice_chars(src, block.start, block.open_end)
            }
        },
    };
    push_chars(out, open_tag.as_slice());
    push_chars(out, output.code.as_slice());
    push_str(out, "</");
    push_chars(out, name.as_slice());
    push_str(out, ">");
}

/// Hands the content and attributes of each `<tag>` block of `src` that
/// stands outside comments to `preprocessor`, in order, and puts what it
/// gives back in the block's place: the new content, inside an opening tag
/// with the new attributes when it gives some, else the old opening tag
/// (written out in full for a block that closed itself). A block for which
/// it gives nothing stays as it is; an error it gives stops the pass. A
/// preprocessor that changes nothing leaves the source as it was.
#[verifier::rlimit(60)]
pub fn apply_tag_preprocessor<F: Fn(&[char], &Vec<PreprocessAttribute>) -> Result<
    Option<PreprocessOutput>,
    CompileError,
>>(src: &[char], tag: &str, preprocessor: F) -> (r: Result<TagPassResult, CompileError>)
    requires
        src@.len() < usize::MAX,
        forall|content: &[char], attrs: &Vec<PreprocessAttribute>| call_requires(preprocessor, (content, attrs)),
    ensures
        changes_nothing(preprocessor) ==> (r matches Ok(p) && p.code@ == src@ && p.dependencies@.len() == 0),
{
    let mut out: Vec<char> = Vec::new();
    let mut dependencies: Vec<Vec<char>> = Vec::new();
    let mut cursor: usize = 0;
    let mut last_emitted: usize = 0;
    while cursor < src.len()
        invariant
            src@.len() < usize::MAX,
            last_emitted <= cursor,
            last_emitted <= src@.len(),
            forall|content: &[char], attrs: &Vec<PreprocessAttribute>| call_requires(preprocessor, (content, attrs)),
            changes_nothing(preprocessor) ==> out@ == src@.subrange(0, last_emitted as int) && dependencies@.len() == 0,
        decreases src.len() - cursor,
    {
        if src.len() - cursor >= 4 && at(src, cursor, "<!--") {
            cursor = skip_html_comment(src, cursor);
            continue;
        }
        if src[cursor] != '<' {
            cursor += 1;
            continue;
        }
        let block = match parse_tag_block(src, cursor, tag) {
            Some(b) => b,
            None => {
                cursor += 1;
                continue;
            },
        };
        let ghost before = out@;
        let prefix = slice_chars(src, last_emitted, block.start);
        push_chars(&mut out, prefix.as_slice());
        let content = slice_chars(src, block.content_start, block.content_end);
        let content_slice = content.as_slice();
        let result = preprocessor(content_slice, &block.attributes);
        let output = match result {
            Ok(o) => o,
            Err(e) => return Err(e),
        };
        proof {
            if changes_nothing(preprocessor) {
                assert(call_ensures(preprocessor, (content_slice, &block.attributes), Ok::<Option<PreprocessOutput>, CompileError>(output)));
            }
        }
        match output {
            Some(output) => {
                write_replacement(src, &block, &output, &mut out, &mut dependencies);
            },
            None => {
                let whole = slice_chars(src, block.start, block.end);
                push_chars(&mut out, whole.as_slice());
                proof {
                    assert(src@.subrange(0, last_emitted as int) + src@.subrange(last_emitted as int, block.start as int)
                        + src@.subrange(block.start as int, block.end as int) =~= src@.subrange(0, block.end as int));
                }
            },
        }
        last_emitted = block.end;
        cursor = block.end;
    }
    let rest = slice_chars(src, last_emitted, src.len());
    push_chars(&mut out, rest.as_slice());
    proof {
        assert(src@.subrange(0, last_emitted as int) + src@.subrange(last_emitted as int, src@.len() as int) =~= src@);
    }
    Ok(TagPassResult { code: out, dependencies })
}

} // verus!
