//! Reading the ESTree JSON text that the JavaScript parser produces.
use vstd::prelude::*;

use crate::estree::{EstreeField, EstreeNode, EstreeValue};
use crate::text::text_is;

verus! {

/// How positions in the parsed snippet map to positions in the component source:
/// `char_at_byte[b]` is the character index of UTF-8 byte offset `b` of the snippet,
/// and `base` is the character offset of the snippet in the component.
pub struct OffsetMap {
    pub base: usize,
    pub char_at_byte: Vec<usize>,
}

/// The number of bytes that `c` takes in UTF-8.
pub open spec fn spec_utf8_len(c: char) -> int {
    if (c as u32) < 0x80 {
        1
    } else if (c as u32) < 0x800 {
        2
    } else if (c as u32) < 0x10000 {
        3
    } else {
        4
    }
}

/// The number of bytes that `c` takes in UTF-8.
pub fn utf8_len(c: char) -> (n: usize)
    ensures
        n as int == spec_utf8_len(c),
        1 <= n <= 4,
{
    let v = c as u32;
    if v < 0x80 {
        1
    } else if v < 0x800 {
        2
    } else if v < 0x10000 {
        3
    } else {
        4
    }
}

/// For each byte of the UTF-8 form of `s[..i]`, the index of its character.
pub open spec fn byte_chars(s: Seq<char>, i: int) -> Seq<usize>
    decreases i,
{
    if 0 < i <= s.len() {
        byte_chars(s, i - 1) + Seq::new(spec_utf8_len(s[i - 1]) as nat, |b: int| (i - 1) as usize)
    } else {
        Seq::empty()
    }
}

/// The offset map of `s` at `base`, as plain values: each byte's character,
/// then the length for the end.
pub open spec fn spec_offset_bytes(s: Seq<char>) -> Seq<usize> {
    byte_chars(s, s.len() as int).push(s.len() as usize)
}

/// The offset map of a snippet that starts at character `base` of the component:
/// every byte of a character maps to that character's index, and the end maps to the length.
pub fn offset_map(snippet: &[char], base: usize) -> (m: OffsetMap)
    requires
        snippet@.len() * 4 + 1 <= usize::MAX,
    ensures
        m.base == base,
        m.char_at_byte@.len() >= 1,
        forall|b: int| 0 <= b < m.char_at_byte@.len() ==> m.char_at_byte@[b] <= snippet@.len(),
        m.char_at_byte@ == spec_offset_bytes(snippet@),
{
    let mut map: Vec<usize> = Vec::new();
    let mut i: usize = 0;
    while i < snippet.len()
        invariant
            i <= snippet@.len(),
            snippet@.len() * 4 + 1 <= usize::MAX,
            map@.len() <= 4 * i,
            forall|b: int| 0 <= b < map@.len() ==> map@[b] <= snippet@.len(),
            map@ == byte_chars(snippet@, i as int),
        decreases snippet.len() - i,
    {
        let ghost before = map@;
        let n = utf8_len(snippet[i]);
        let mut k: usize = 0;
        while k < n
            invariant
                k <= n <= 4,
                i < snippet@.len(),
                map@.len() <= 4 * i + k,
                forall|b: int| 0 <= b < map@.len() ==> map@[b] <= snippet@.len(),
                map@ == before + Seq::new(k as nat, |b: int| i),
            decreases n - k,
        {
            map.push(i);
            proof {
                assert(map@ =~= before + Seq::new((k + 1) as nat, |b: int| i));
            }
            k += 1;
        }
        proof {
            assert(byte_chars(snippet@, i + 1) =~= before + Seq::new(n as nat, |b: int| i));
        }
        i += 1;
    }
    map.push(snippet.len());
    OffsetMap { base, char_at_byte: map }
}

/// A JSON reader over the characters of a JSON text.
pub struct JsonReader<'a> {
    pub text: &'a [char],
    pub map: &'a OffsetMap,
}

/// The character for a Unicode scalar value: std's `char::from_u32`, which
/// gives a character exactly when `v` is a scalar value (not a surrogate and
/// at most 0x10FFFF).
#[verifier::external_body]
fn char_from_u32(v: u32) -> (r: Option<char>)
    ensures
        r matches Some(c) ==> c as u32 == v,
        r is None <==> (v > 0x10FFFF || (0xD800 <= v <= 0xDFFF)),
{
    char::from_u32(v)
}

/// Whether `c` is JSON white space.
pub open spec fn spec_is_json_space(c: char) -> bool {
    c == ' ' || c == '\n' || c == '\r' || c == '\t'
}

/// Whether `c` is JSON white space.
fn is_json_space(c: char) -> (r: bool)
    ensures
        r == spec_is_json_space(c),
{
    c == ' ' || c == '\n' || c == '\r' || c == '\t'
}

/// The value of a hexadecimal digit.
pub open spec fn spec_hex_value(c: char) -> Option<u32> {
    if '0' <= c <= '9' {
        Some((c as u32 - '0' as u32) as u32)
    } else if 'a' <= c <= 'f' {
        Some((c as u32 - 'a' as u32 + 10) as u32)
    } else if 'A' <= c <= 'F' {
        Some((c as u32 - 'A' as u32 + 10) as u32)
    } else {
        None
    }
}

/// The value of a hexadecimal digit.
fn hex_value(c: char) -> (r: Option<u32>)
    ensures
        r matches Some(v) ==> v < 16,
        r == spec_hex_value(c),
{
    if '0' <= c && c <= '9' {
        Some((c as u32) - ('0' as u32))
    } else if 'a' <= c && c <= 'f' {
        Some((c as u32) - ('a' as u32) + 10)
    } else if 'A' <= c && c <= 'F' {
        Some((c as u32) - ('A' as u32) + 10)
    } else {
        None
    }
}

/// The number that four hexadecimal digits at `i` spell, if there are four there.
pub open spec fn spec_hex4(text: Seq<char>, i: int) -> Option<u32> {
    if text.len() - i < 4 {
        None
    } else {
        match (
            spec_hex_value(text[i]),
            spec_hex_value(text[i + 1]),
            spec_hex_value(text[i + 2]),
            spec_hex_value(text[i + 3]),
        ) {
            (Some(a), Some(b), Some(c), Some(d)) => Some((((a * 16 + b) * 16 + c) * 16 + d) as u32),
            _ => None,
        }
    }
}

/// Where the offset map sends an offset value: a whole number that is a byte
/// offset of the snippet becomes the component's character offset when that
/// fits, and every other value is kept.
pub open spec fn spec_mapped_offset(map: OffsetMap, v: EstreeValue) -> EstreeValue {
    match v {
        EstreeValue::UInt(b) => if b < map.char_at_byte@.len() && map.char_at_byte@[b as int]
            + map.base <= usize::MAX {
            EstreeValue::UInt((map.char_at_byte@[b as int] + map.base) as u64)
        } else {
            EstreeValue::UInt(b)
        },
        other => other,
    }
}

/// The code point that a `\u` escape whose backslash is at `j` stands for, and
/// the position after it: a high surrogate followed by a `\u` escape of a low
/// surrogate takes both and stands for the pair's code point.
pub open spec fn unicode_escape(text: Seq<char>, j: int) -> Option<(u32, int)> {
    match spec_hex4(text, j + 2) {
        None => None,
        Some(hi) => {
            let next = j + 6;
            if 0xD800 <= hi <= 0xDBFF && next < text.len() - 1 && text[next] == '\\' && text[next
                + 1] == 'u' {
                match spec_hex4(text, next + 2) {
                    Some(lo) => if 0xDC00 <= lo <= 0xDFFF {
                        Some(((0x10000 + (hi - 0xD800) * 0x400 + (lo - 0xDC00)) as u32, next + 6))
                    } else {
                        Some((hi, next))
                    },
                    None => Some((hi, next)),
                }
            } else {
                Some((hi, next))
            }
        },
    }
}

/// The character for a code point, or U+FFFD where it is no scalar value.
pub open spec fn scalar_or_replacement(v: u32) -> char {
    if v > 0x10FFFF || (0xD800 <= v <= 0xDFFF) {
        '\u{FFFD}'
    } else {
        v as char
    }
}

/// The character that a one-letter escape `\e` stands for.
pub open spec fn escaped_char(e: char) -> char {
    if e == 'n' {
        '\n'
    } else if e == 't' {
        '\t'
    } else if e == 'r' {
        '\r'
    } else if e == 'b' {
        '\u{8}'
    } else if e == 'f' {
        '\u{c}'
    } else {
        e
    }
}

/// The rest of a JSON string read from `j`, after `acc` was read: its
/// characters and the position after the closing quote, if it is closed.
pub open spec fn string_from(text: Seq<char>, j: int, acc: Seq<char>) -> Option<(Seq<char>, int)>
    decreases text.len() - j,
{
    if j < 0 || j >= text.len() {
        None
    } else if text[j] == '"' {
        Some((acc, j + 1))
    } else if text[j] == '\\' {
        if j + 1 >= text.len() {
            None
        } else if text[j + 1] == 'u' {
            match unicode_escape(text, j) {
                None => None,
                Some((v, next)) => if j < next {
                    string_from(text, next, acc.push(scalar_or_replacement(v)))
                } else {
                    None
                },
            }
        } else {
            string_from(text, j + 2, acc.push(escaped_char(text[j + 1])))
        }
    } else {
        string_from(text, j + 1, acc.push(text[j]))
    }
}

/// The JSON string whose opening quote is at `i`: its characters and the
/// position after it.
pub open spec fn spec_read_string(text: Seq<char>, i: int) -> Option<(Seq<char>, int)> {
    if text[i] != '"' {
        None
    } else {
        string_from(text, i + 1, Seq::empty())
    }
}

/// Whether `c` is a decimal digit.
pub open spec fn spec_is_digit(c: char) -> bool {
    '0' <= c <= '9'
}

/// The end of the run of decimal digits from `j`.
pub open spec fn digit_run_end(text: Seq<char>, j: int) -> int
    decreases text.len() - j,
{
    if 0 <= j < text.len() && spec_is_digit(text[j]) {
        digit_run_end(text, j + 1)
    } else {
        j
    }
}

/// Whether `c` may continue a number after its whole part.
pub open spec fn spec_number_tail_char(c: char) -> bool {
    c == '.' || c == 'e' || c == 'E' || c == '+' || c == '-' || spec_is_digit(c)
}

/// The end of the fraction and exponent of a number from `j`.
pub open spec fn number_tail_end(text: Seq<char>, j: int) -> int
    decreases text.len() - j,
{
    if 0 <= j < text.len() && spec_number_tail_char(text[j]) {
        number_tail_end(text, j + 1)
    } else {
        j
    }
}

/// The value of the decimal digits in `start..end`.
pub open spec fn digits_value(text: Seq<char>, start: int, end: int) -> int
    decreases end - start,
{
    if end <= start {
        0
    } else {
        digits_value(text, start, end - 1) * 10 + (text[end - 1] as int - '0' as int)
    }
}

/// An offset map as plain values: the base, and each byte's character.
pub type OffsetView = (usize, Seq<usize>);

/// An offset map as plain values.
pub open spec fn offset_view(m: OffsetMap) -> OffsetView {
    (m.base, m.char_at_byte@)
}

/// A JSON value as plain values, with a node's members in order.
pub enum JsonView {
    Null,
    Bool(bool),
    Int(i64),
    UInt(u64),
    Number(Seq<char>),
    Str(Seq<char>),
    Array(Seq<JsonView>),
    Object(Seq<(Seq<char>, JsonView)>),
}

/// A value as plain values.
pub open spec fn value_view(v: EstreeValue) -> JsonView
    decreases v, 1int, 0int,
{
    match v {
        EstreeValue::Null => JsonView::Null,
        EstreeValue::Bool(b) => JsonView::Bool(b),
        EstreeValue::Int(n) => JsonView::Int(n),
        EstreeValue::UInt(n) => JsonView::UInt(n),
        EstreeValue::Number(s) => JsonView::Number(s@),
        EstreeValue::String(s) => JsonView::Str(s@),
        EstreeValue::Array(_) => JsonView::Array(items_view(v, 0)),
        EstreeValue::Object(n) => {
            proof {
                assert(decreases_to!(v => v->Object_0));
            }
            JsonView::Object(fields_view(n, 0))
        },
    }
}

/// The items `[i..]` of the array value `a`, as plain values.
pub open spec fn items_view(a: EstreeValue, i: int) -> Seq<JsonView>
    decreases a, 0int, (match a {
        EstreeValue::Array(items) => items@.len() as int,
        _ => 0,
    }) - i,
{
    match a {
        EstreeValue::Array(items) => if 0 <= i < items@.len() {
            proof {
                assert(decreases_to!(a => a->Array_0));
                assert(decreases_to!(a->Array_0 => items@));
                assert(decreases_to!(items@ => items@[i]));
            }
            seq![value_view(items@[i])] + items_view(a, i + 1)
        } else {
            Seq::empty()
        },
        _ => Seq::empty(),
    }
}

/// The members `[i..]` of a node, as plain values.
pub open spec fn fields_view(n: EstreeNode, i: int) -> Seq<(Seq<char>, JsonView)>
    decreases n, 0int, n.fields@.len() - i,
{
    if 0 <= i < n.fields@.len() {
        proof {
            assert(decreases_to!(n => n.fields));
            assert(decreases_to!(n.fields => n.fields@));
            assert(decreases_to!(n.fields@ => n.fields@[i]));
        }
        seq![(n.fields@[i].key@, value_view(n.fields@[i].value))] + fields_view(n, i + 1)
    } else {
        Seq::empty()
    }
}

/// Values as plain values.
pub open spec fn vals_view(vs: Seq<EstreeValue>) -> Seq<JsonView> {
    vs.map_values(|v: EstreeValue| value_view(v))
}

/// Members as plain values.
pub open spec fn members_view(fs: Seq<EstreeField>) -> Seq<(Seq<char>, JsonView)> {
    fs.map_values(|f: EstreeField| (f.key@, value_view(f.value)))
}

/// The first position at or after `i` that is not JSON white space.
pub open spec fn json_space_end(t: Seq<char>, i: int) -> int
    decreases t.len() - i,
{
    if 0 <= i < t.len() && spec_is_json_space(t[i]) {
        json_space_end(t, i + 1)
    } else {
        i
    }
}

/// The JSON number at `i`, with the position after it: a whole number when
/// it has no fraction or exponent and fits, else its text.
pub open spec fn spec_read_number(t: Seq<char>, i: int) -> Option<(JsonView, int)> {
    let negative = t[i] == '-';
    let ds = if negative {
        i + 1
    } else {
        i
    };
    let de = digit_run_end(t, ds);
    let end = number_tail_end(t, de);
    let v = digits_value(t, ds, de);
    let whole = end == de && v <= (if negative {
        i64::MAX as int
    } else {
        u64::MAX as int
    });
    if de <= ds {
        None
    } else if whole && negative {
        Some((JsonView::Int((-v) as i64), end))
    } else if whole {
        Some((JsonView::UInt(v as u64), end))
    } else {
        Some((JsonView::Number(t.subrange(i, end)), end))
    }
}

/// A `start` or `end` offset moved into the component's coordinates.
pub open spec fn map_view(map: OffsetView, v: JsonView) -> JsonView {
    match v {
        JsonView::UInt(b) => if b < map.1.len() && map.1[b as int] + map.0 <= usize::MAX {
            JsonView::UInt((map.1[b as int] + map.0) as u64)
        } else {
            JsonView::UInt(b)
        },
        other => other,
    }
}

/// Whether the text at `i` spells `word`.
pub open spec fn spec_at_word(t: Seq<char>, i: int, word: Seq<char>) -> bool {
    i + word.len() <= t.len() && t.subrange(i, i + word.len()) == word
}

/// The JSON value at `i`, a position that is not white space, and the
/// position after it.
pub open spec fn value_at(t: Seq<char>, m: OffsetView, i: int) -> Option<(JsonView, int)>
    decreases t.len() - i, 2int,
{
    if !(0 <= i < t.len()) {
        None
    } else if t[i] == '{' {
        object_at(t, m, i)
    } else if t[i] == '[' {
        array_at(t, m, i)
    } else if t[i] == '"' {
        match spec_read_string(t, i) {
            Some((s, j)) => Some((JsonView::Str(s), j)),
            None => None,
        }
    } else if spec_at_word(t, i, "true"@) {
        Some((JsonView::Bool(true), i + 4))
    } else if spec_at_word(t, i, "false"@) {
        Some((JsonView::Bool(false), i + 5))
    } else if spec_at_word(t, i, "null"@) {
        Some((JsonView::Null, i + 4))
    } else {
        spec_read_number(t, i)
    }
}

/// The JSON value after any white space at `i`.
pub open spec fn spec_json_value(t: Seq<char>, m: OffsetView, i: int) -> Option<(JsonView, int)> {
    value_at(t, m, json_space_end(t, i))
}

/// The JSON array whose `[` is at `i`, and the position after it.
pub open spec fn array_at(t: Seq<char>, m: OffsetView, i: int) -> Option<(JsonView, int)>
    decreases t.len() - i, 1int,
{
    if !(0 <= i < t.len()) || t[i] != '[' {
        None
    } else {
        let j = json_space_end(t, i + 1);
        if j < t.len() && t[j] == ']' {
            Some((JsonView::Array(Seq::empty()), j + 1))
        } else if i < j <= t.len() {
            match items_from(t, m, j) {
                Some((vs, e)) => Some((JsonView::Array(vs), e)),
                None => None,
            }
        } else {
            None
        }
    }
}

/// The items of an array from `j`, each a value followed by `,` or the
/// closing `]`, and the position after the `]`.
pub open spec fn items_from(t: Seq<char>, m: OffsetView, j: int) -> Option<(Seq<JsonView>, int)>
    decreases t.len() - j, 3int,
{
    if !(0 <= j < t.len()) {
        None
    } else {
        let p = json_space_end(t, j);
        if p < j || p > t.len() {
            None
        } else {
            match value_at(t, m, p) {
                None => None,
                Some((v, next)) => {
                    let k = json_space_end(t, next);
                    if k >= t.len() || k < 0 {
                        None
                    } else if t[k] == ',' {
                        if k + 1 > j {
                            match items_from(t, m, k + 1) {
                                Some((rest, e)) => Some((seq![v] + rest, e)),
                                None => None,
                            }
                        } else {
                            None
                        }
                    } else if t[k] == ']' {
                        Some((seq![v], k + 1))
                    } else {
                        None
                    }
                },
            }
        }
    }
}

/// The JSON object whose `{` is at `i`, read as a node, and the position
/// after it; the values of its `start` and `end` members are moved through `m`.
pub open spec fn object_at(t: Seq<char>, m: OffsetView, i: int) -> Option<(JsonView, int)>
    decreases t.len() - i, 1int,
{
    if !(0 <= i < t.len()) || t[i] != '{' {
        None
    } else {
        let j = json_space_end(t, i + 1);
        if j < t.len() && t[j] == '}' {
            Some((JsonView::Object(Seq::empty()), j + 1))
        } else if i < j <= t.len() {
            match members_from(t, m, j) {
                Some((fs, e)) => Some((JsonView::Object(fs), e)),
                None => None,
            }
        } else {
            None
        }
    }
}

/// The members of an object from `j`, each a string key, `:` and a value,
/// followed by `,` or the closing `}`, and the position after the `}`.
pub open spec fn members_from(t: Seq<char>, m: OffsetView, j: int) -> Option<(Seq<(Seq<char>, JsonView)>, int)>
    decreases t.len() - j, 3int,
{
    if !(0 <= j < t.len()) {
        None
    } else {
        let k = json_space_end(t, j);
        if k >= t.len() || k < 0 {
            None
        } else {
            match spec_read_string(t, k) {
                None => None,
                Some((key, after_key)) => {
                    let colon = json_space_end(t, after_key);
                    if colon >= t.len() || colon < 0 || t[colon] != ':' {
                        None
                    } else {
                        let p = json_space_end(t, colon + 1);
                        if p <= j || p > t.len() {
                            None
                        } else {
                            match value_at(t, m, p) {
                                None => None,
                                Some((v0, next)) => {
                                    let v = if key == "start"@ || key == "end"@ {
                                        map_view(m, v0)
                                    } else {
                                        v0
                                    };
                                    let q = json_space_end(t, next);
                                    if q >= t.len() || q < 0 {
                                        None
                                    } else if t[q] == ',' {
                                        if q + 1 > j {
                                            match members_from(t, m, q + 1) {
                                                Some((rest, e)) => Some((seq![(key, v)] + rest, e)),
                                                None => None,
                                            }
                                        } else {
                                            None
                                        }
                                    } else if t[q] == '}' {
                                        Some((seq![(key, v)], q + 1))
                                    } else {
                                        None
                                    }
                                },
                            }
                        }
                    }
                },
            }
        }
    }
}

/// The value of the first of the members `fs[i..]` named `key`.
pub open spec fn json_member(fs: Seq<(Seq<char>, JsonView)>, key: Seq<char>, i: int) -> Option<JsonView>
    decreases fs.len() - i,
{
    if 0 <= i < fs.len() {
        if fs[i].0 == key {
            Some(fs[i].1)
        } else {
            json_member(fs, key, i + 1)
        }
    } else {
        None
    }
}

/// The first member named `key` of a node is the view of its first member of
/// that name.
pub proof fn lemma_member_view(n: EstreeNode, key: Seq<char>, i: int)
    requires
        0 <= i <= n.fields@.len(),
    ensures
        json_member(members_view(n.fields@), key, i) == match crate::estree::first_key_index(n.fields@, key, i) {
            k => if 0 <= k < n.fields@.len() {
                Some(value_view(n.fields@[k].value))
            } else {
                None
            },
        },
    decreases n.fields@.len() - i,
{
    if i < n.fields@.len() {
        lemma_member_view(n, key, i + 1);
    }
}

/// The first statement of a program, where the program is an object whose
/// `body` is an array whose first item is an object.
pub open spec fn json_first_statement(program: Option<JsonView>) -> Option<JsonView> {
    match program {
        Some(JsonView::Object(fs)) => match json_member(fs, "body"@, 0) {
            Some(JsonView::Array(items)) => if items.len() > 0 {
                match items[0] {
                    JsonView::Object(st) => Some(JsonView::Object(st)),
                    _ => None,
                }
            } else {
                None
            },
            _ => None,
        },
        _ => None,
    }
}

/// The objects among `items`, in order.
pub open spec fn objects_of(items: Seq<JsonView>) -> Seq<JsonView>
    decreases items.len(),
{
    if items.len() == 0 {
        Seq::empty()
    } else {
        (match items[0] {
            JsonView::Object(fs) => seq![JsonView::Object(fs)],
            _ => Seq::empty(),
        }) + objects_of(items.subrange(1, items.len() as int))
    }
}

/// The parameters that are nodes of the arrow function that is a program's
/// expression.
pub open spec fn json_arrow_params(program: Option<JsonView>) -> Seq<JsonView> {
    match json_program_expression(program) {
        Some(JsonView::Object(fs)) => match json_member(fs, "params"@, 0) {
            Some(JsonView::Array(items)) => objects_of(items),
            _ => Seq::empty(),
        },
        _ => Seq::empty(),
    }
}

/// The expression of a program's first statement, where the program is an
/// object whose `body` is an array whose first item is an object with an
/// `expression` member that is an object.
pub open spec fn json_program_expression(program: Option<JsonView>) -> Option<JsonView> {
    match program {
        Some(JsonView::Object(fs)) => match json_member(fs, "body"@, 0) {
            Some(JsonView::Array(items)) => if items.len() > 0 {
                match items[0] {
                    JsonView::Object(st) => match json_member(st, "expression"@, 0) {
                        Some(JsonView::Object(e)) => Some(JsonView::Object(e)),
                        _ => None,
                    },
                    _ => None,
                }
            } else {
                None
            },
            _ => None,
        },
        _ => None,
    }
}

/// A read value and the position after it, as plain values.
pub open spec fn read_view(r: Option<(EstreeValue, usize)>) -> Option<(JsonView, int)> {
    match r {
        Some((v, j)) => Some((value_view(v), j as int)),
        None => None,
    }
}

/// A read node, as plain values.
pub open spec fn node_view(r: Option<EstreeNode>) -> Option<JsonView> {
    match r {
        Some(n) => Some(value_view(EstreeValue::Object(n))),
        None => None,
    }
}

/// What a whole JSON text holding one object reads as: that object.
pub open spec fn spec_json_object(t: Seq<char>, m: OffsetView) -> Option<JsonView> {
    match spec_json_value(t, m, 0) {
        Some((JsonView::Object(fs), _)) => Some(JsonView::Object(fs)),
        _ => None,
    }
}

proof fn lemma_space_end_bounds(t: Seq<char>, i: int)
    requires
        0 <= i <= t.len(),
    ensures
        i <= json_space_end(t, i) <= t.len(),
    decreases t.len() - i,
{
    if i < t.len() && spec_is_json_space(t[i]) {
        lemma_space_end_bounds(t, i + 1);
    }
}

proof fn lemma_items_view(a: EstreeValue, items: Vec<EstreeValue>, i: int)
    requires
        a == EstreeValue::Array(items),
        0 <= i <= items@.len(),
    ensures
        items_view(a, i) == vals_view(items@).subrange(i, items@.len() as int),
    decreases items@.len() - i,
{
    if i < items@.len() {
        lemma_items_view(a, items, i + 1);
        assert(items_view(a, i) =~= vals_view(items@).subrange(i, items@.len() as int));
    } else {
        assert(vals_view(items@).subrange(i, items@.len() as int) =~= Seq::<JsonView>::empty());
    }
}

/// An array value's view holds the views of its items, in order.
pub proof fn lemma_array_view(items: Vec<EstreeValue>)
    ensures
        value_view(EstreeValue::Array(items)) == JsonView::Array(vals_view(items@)),
{
    lemma_items_view(EstreeValue::Array(items), items, 0);
    assert(vals_view(items@).subrange(0, items@.len() as int) =~= vals_view(items@));
}

proof fn lemma_fields_view(n: EstreeNode, i: int)
    requires
        0 <= i <= n.fields@.len(),
    ensures
        fields_view(n, i) == members_view(n.fields@).subrange(i, n.fields@.len() as int),
    decreases n.fields@.len() - i,
{
    if i < n.fields@.len() {
        lemma_fields_view(n, i + 1);
        assert(fields_view(n, i) =~= members_view(n.fields@).subrange(i, n.fields@.len() as int));
    } else {
        assert(members_view(n.fields@).subrange(i, n.fields@.len() as int) =~= Seq::<(Seq<char>, JsonView)>::empty());
    }
}

/// A node's view holds the views of its members, in order.
pub proof fn lemma_object_view(n: EstreeNode)
    ensures
        value_view(EstreeValue::Object(n)) == JsonView::Object(members_view(n.fields@)),
{
    lemma_fields_view(n, 0);
    assert(members_view(n.fields@).subrange(0, n.fields@.len() as int) =~= members_view(n.fields@));
}

impl<'a> JsonReader<'a> {
    /// The first position at or after `i` that is not white space.
    pub fn skip_space(&self, i: usize) -> (j: usize)
        requires
            i <= self.text@.len(),
        ensures
            i <= j <= self.text@.len(),
            j < self.text@.len() ==> !spec_is_json_space(self.text@[j as int]),
            forall|k: int| i <= k < j ==> spec_is_json_space(self.text@[k]),
            j == json_space_end(self.text@, i as int),
    {
        let mut j = i;
        while j < self.text.len() && is_json_space(self.text[j])
            invariant
                i <= j <= self.text@.len(),
                forall|k: int| i <= k < j ==> spec_is_json_space(self.text@[k]),
                json_space_end(self.text@, i as int) == json_space_end(self.text@, j as int),
            decreases self.text.len() - j,
        {
            j += 1;
        }
        j
    }

    /// Whether the text at `i` spells `word`.
    fn at_word(&self, i: usize, word: &str) -> (r: bool)
        requires
            i <= self.text@.len(),
        ensures
            r == (i + word@.len() <= self.text@.len() && self.text@.subrange(
                i as int,
                i + word@.len(),
            ) == word@),
    {
        let w = crate::text::str_chars(word);
        if w.len() > self.text.len() - i {
            return false;
        }
        assert(i + w@.len() <= self.text@.len());
        let mut k: usize = 0;
        while k < w.len()
            invariant
                k <= w@.len(),
                w@ == word@,
                i + w@.len() <= self.text@.len(),
                i <= self.text@.len(),
                w@.len() <= self.text@.len() - i,
                self.text@.len() <= usize::MAX,
                forall|m: int| 0 <= m < k ==> self.text@[i + m] == w@[m],
            decreases w.len() - k,
        {
            let p = i + k;
            if self.text[p] != w[k] {
                assert(self.text@.subrange(i as int, i + word@.len())[k as int] != word@[k as int]);
                return false;
            }
            k += 1;
        }
        assert(self.text@.subrange(i as int, i + word@.len()) =~= word@);
        true
    }

    /// Four hexadecimal digits at `i`, as a number.
    fn read_hex4(&self, i: usize) -> (r: Option<u32>)
        requires
            i <= self.text@.len(),
        ensures
            r matches Some(v) ==> i + 4 <= self.text@.len() && v < 0x10000,
            r == spec_hex4(self.text@, i as int),
    {
        if self.text.len() - i < 4 {
            return None;
        }
        let a = hex_value(self.text[i])?;
        let b = hex_value(self.text[i + 1])?;
        let c = hex_value(self.text[i + 2])?;
        let d = hex_value(self.text[i + 3])?;
        Some(((a * 16 + b) * 16 + c) * 16 + d)
    }

    /// A JSON string whose opening quote is at `i`: its characters and the position after it.
    pub fn read_string(&self, i: usize) -> (r: Option<(Vec<char>, usize)>)
        requires
            i < self.text@.len(),
        ensures
            r matches Some((_, j)) ==> i < j <= self.text@.len(),
            match r {
                Some((s, j)) => spec_read_string(self.text@, i as int) == Some((s@, j as int)),
                None => spec_read_string(self.text@, i as int) is None,
            },
    {
        if self.text[i] != '"' {
            return None;
        }
        let mut out: Vec<char> = Vec::new();
        let mut j = i + 1;
        while j < self.text.len()
            invariant
                i < j <= self.text@.len(),
                self.text@[i as int] == '"',
                string_from(self.text@, j as int, out@) == spec_read_string(self.text@, i as int),
            decreases self.text.len() - j,
        {
            let c = self.text[j];
            if c == '"' {
                return Some((out, j + 1));
            } else if c == '\\' {
                if j + 1 >= self.text.len() {
                    return None;
                }
                let e = self.text[j + 1];
                if e == 'u' {
                    let hi = self.read_hex4(j + 2)?;
                    let mut next = j + 6;
                    let mut value = hi;
                    if 0xD800 <= hi && hi <= 0xDBFF && next < self.text.len() - 1
                        && self.text[next] == '\\' && self.text[next + 1] == 'u' {
                        if let Some(lo) = self.read_hex4(next + 2) {
                            if 0xDC00 <= lo && lo <= 0xDFFF {
                                value = 0x10000 + (hi - 0xD800) * 0x400 + (lo - 0xDC00);
                                next = next + 6;
                            }
                        }
                    }
                    match char_from_u32(value) {
                        Some(ch) => {
                            proof {
                                vstd::utf8::char_u32_cast(ch, value);
                            }
                            out.push(ch);
                        },
                        None => out.push('\u{FFFD}'),
                    }
                    j = next;
                } else {
                    let ch = if e == 'n' {
                        '\n'
                    } else if e == 't' {
                        '\t'
                    } else if e == 'r' {
                        '\r'
                    } else if e == 'b' {
                        '\u{8}'
                    } else if e == 'f' {
                        '\u{c}'
                    } else {
                        e
                    };
                    out.push(ch);
                    j = j + 2;
                }
            } else {
                out.push(c);
                j += 1;
            }
        }
        None
    }

    /// A JSON number at `i`: a whole number when it has no fraction or exponent
    /// and fits, else its text.
    pub fn read_number(&self, i: usize) -> (r: Option<(EstreeValue, usize)>)
        requires
            i < self.text@.len(),
        ensures
            r matches Some((_, j)) ==> i < j <= self.text@.len(),
            ({
                let t = self.text@;
                let negative = t[i as int] == '-';
                let ds = if negative {
                    i + 1
                } else {
                    i as int
                };
                let de = digit_run_end(t, ds);
                let end = number_tail_end(t, de);
                let v = digits_value(t, ds, de);
                let whole = end == de && v <= (if negative {
                    i64::MAX as int
                } else {
                    u64::MAX as int
                });
                &&& (r is Some <==> de > ds)
                &&& (r matches Some((val, j)) ==> j == end && match val {
                    EstreeValue::UInt(n) => whole && !negative && n == v,
                    EstreeValue::Int(n) => whole && negative && n == -v,
                    EstreeValue::Number(raw) => !whole && raw@ == t.subrange(i as int, end),
                    _ => false,
                })
            }),
            read_view(r) == spec_read_number(self.text@, i as int),
    {
        let mut j = i;
        let negative = self.text[j] == '-';
        if negative {
            j += 1;
        }
        let digits_start = j;
        let mut value: u64 = 0;
        let mut overflow = false;
        while j < self.text.len() && '0' <= self.text[j] && self.text[j] <= '9'
            invariant
                i <= digits_start <= j <= self.text@.len(),
                digit_run_end(self.text@, j as int) == digit_run_end(
                    self.text@,
                    digits_start as int,
                ),
                overflow <==> digits_value(self.text@, digits_start as int, j as int) > u64::MAX,
                !overflow ==> value == digits_value(self.text@, digits_start as int, j as int),
                digits_value(self.text@, digits_start as int, j as int) >= 0,
            decreases self.text.len() - j,
        {
            let d = (self.text[j] as u32 - '0' as u32) as u64;
            let ghost before = digits_value(self.text@, digits_start as int, j as int);
            assert(digits_value(self.text@, digits_start as int, j + 1) == before * 10 + d);
            if value > (u64::MAX - d) / 10 {
                overflow = true;
            } else {
                value = value * 10 + d;
            }
            j += 1;
        }
        let digits_end = j;
        if j == digits_start {
            return None;
        }
        let mut whole = true;
        while j < self.text.len() && (self.text[j] == '.' || self.text[j] == 'e' || self.text[j]
            == 'E' || self.text[j] == '+' || self.text[j] == '-' || ('0' <= self.text[j]
            && self.text[j] <= '9'))
            invariant
                i < j <= self.text@.len(),
                digits_end <= j,
                number_tail_end(self.text@, j as int) == number_tail_end(
                    self.text@,
                    digits_end as int,
                ),
                whole <==> j == digits_end,
            decreases self.text.len() - j,
        {
            whole = false;
            j += 1;
        }
        if whole && !overflow {
            if negative {
                if value <= i64::MAX as u64 {
                    return Some((EstreeValue::Int(-(value as i64)), j));
                }
            } else {
                return Some((EstreeValue::UInt(value), j));
            }
        }
        let mut raw: Vec<char> = Vec::new();
        let mut k = i;
        while k < j
            invariant
                i <= k <= j <= self.text@.len(),
                raw@ == self.text@.subrange(i as int, k as int),
            decreases j - k,
        {
            raw.push(self.text[k]);
            k += 1;
        }
        Some((EstreeValue::Number(raw), j))
    }

    /// Moves an offset of the snippet into the component's coordinates.
    fn map_offset(&self, v: EstreeValue) -> (r: EstreeValue)
        ensures
            r == spec_mapped_offset(*self.map, v),
            value_view(r) == map_view(offset_view(*self.map), value_view(v)),
    {
        match v {
            EstreeValue::UInt(b) => {
                if b < self.map.char_at_byte.len() as u64 {
                    let c = self.map.char_at_byte[b as usize];
                    if c <= usize::MAX - self.map.base && ((c + self.map.base) as u64) <= u64::MAX {
                        EstreeValue::UInt((c + self.map.base) as u64)
                    } else {
                        EstreeValue::UInt(b)
                    }
                } else {
                    EstreeValue::UInt(b)
                }
            },
            other => other,
        }
    }

    /// A JSON value at `i` (after white space): the value and the position after it.
    pub fn read_value(&self, i: usize) -> (r: Option<(EstreeValue, usize)>)
        requires
            i <= self.text@.len(),
        ensures
            r matches Some((_, j)) ==> i < j <= self.text@.len(),
            read_view(r) == spec_json_value(self.text@, offset_view(*self.map), i as int),
        decreases self.text@.len() - i, 2nat,
    {
        let i = self.skip_space(i);
        if i >= self.text.len() {
            return None;
        }
        let c = self.text[i];
        proof {
            reveal_strlit("true");
            reveal_strlit("false");
            reveal_strlit("null");
        }
        if c == '{' {
            self.read_object(i)
        } else if c == '[' {
            self.read_array(i)
        } else if c == '"' {
            let (s, j) = self.read_string(i)?;
            Some((EstreeValue::String(s), j))
        } else if self.at_word(i, "true") {
            Some((EstreeValue::Bool(true), i + 4))
        } else if self.at_word(i, "false") {
            Some((EstreeValue::Bool(false), i + 5))
        } else if self.at_word(i, "null") {
            Some((EstreeValue::Null, i + 4))
        } else {
            self.read_number(i)
        }
    }

    /// A JSON array whose `[` is at `i`.
    pub fn read_array(&self, i: usize) -> (r: Option<(EstreeValue, usize)>)
        requires
            i < self.text@.len(),
        ensures
            r matches Some((_, j)) ==> i < j <= self.text@.len(),
            read_view(r) == array_at(self.text@, offset_view(*self.map), i as int),
        decreases self.text@.len() - i, 1nat,
    {
        if self.text[i] != '[' {
            return None;
        }
        let mut items: Vec<EstreeValue> = Vec::new();
        let mut j = self.skip_space(i + 1);
        if j < self.text.len() && self.text[j] == ']' {
            proof {
                lemma_array_view(items);
                assert(vals_view(items@) =~= Seq::<JsonView>::empty());
            }
            return Some((EstreeValue::Array(items), j + 1));
        }
        let ghost t = self.text@;
        let ghost m = offset_view(*self.map);
        proof {
            assert(vals_view(items@) =~= Seq::<JsonView>::empty());
        }
        while j < self.text.len()
            invariant
                i < j <= self.text@.len(),
                t == self.text@,
                m == offset_view(*self.map),
                array_at(t, m, i as int) == match items_from(t, m, j as int) {
                    Some((rest, e)) => Some((JsonView::Array(vals_view(items@) + rest), e)),
                    None => None,
                },
            decreases self.text.len() - j,
        {
            let ghost before = items@;
            let ghost jj = j as int;
            let (v, next) = match self.read_value(j) {
                Some(x) => x,
                None => return None,
            };
            items.push(v);
            let k = self.skip_space(next);
            proof {
                assert(vals_view(items@) =~= vals_view(before).push(value_view(v)));
                lemma_space_end_bounds(t, jj);
                let p = json_space_end(t, jj);
                assert(value_at(t, m, p) == Some((value_view(v), next as int)));
                assert(k as int == json_space_end(t, next as int));
            }
            if k >= self.text.len() {
                return None;
            }
            if self.text[k] == ',' {
                j = k + 1;
                proof {
                    assert(items_from(t, m, jj) == match items_from(t, m, j as int) {
                        Some((rest, e)) => Some((seq![value_view(v)] + rest, e)),
                        None => None,
                    });
                    match items_from(t, m, j as int) {
                        Some((rest, e)) => {
                            assert(vals_view(before) + (seq![value_view(v)] + rest) =~= vals_view(items@) + rest);
                        },
                        None => {},
                    }
                }
            } else if self.text[k] == ']' {
                proof {
                    assert(items_from(t, m, jj) == Some((seq![value_view(v)], k + 1)));
                    lemma_array_view(items);
                    assert(vals_view(before) + seq![value_view(v)] =~= vals_view(items@));
                }
                return Some((EstreeValue::Array(items), k + 1));
            } else {
                return None;
            }
        }
        None
    }

    /// A JSON object whose `{` is at `i`, read as an ESTree node.
    pub fn read_object(&self, i: usize) -> (r: Option<(EstreeValue, usize)>)
        requires
            i < self.text@.len(),
        ensures
            r matches Some((_, j)) ==> i < j <= self.text@.len(),
            read_view(r) == object_at(self.text@, offset_view(*self.map), i as int),
        decreases self.text@.len() - i, 1nat,
    {
        if self.text[i] != '{' {
            return None;
        }
        let mut fields: Vec<EstreeField> = Vec::new();
        let mut j = self.skip_space(i + 1);
        if j < self.text.len() && self.text[j] == '}' {
            let node = EstreeNode { fields };
            proof {
                lemma_object_view(node);
                assert(members_view(node.fields@) =~= Seq::<(Seq<char>, JsonView)>::empty());
            }
            return Some((EstreeValue::Object(node), j + 1));
        }
        let ghost t = self.text@;
        let ghost m = offset_view(*self.map);
        proof {
            assert(members_view(fields@) =~= Seq::<(Seq<char>, JsonView)>::empty());
            reveal_strlit("start");
            reveal_strlit("end");
        }
        while j < self.text.len()
            invariant
                i < j <= self.text@.len(),
                t == self.text@,
                m == offset_view(*self.map),
                object_at(t, m, i as int) == match members_from(t, m, j as int) {
                    Some((rest, e)) => Some((JsonView::Object(members_view(fields@) + rest), e)),
                    None => None,
                },
            decreases self.text.len() - j,
        {
            let ghost before = fields@;
            let ghost jj = j as int;
            let k = self.skip_space(j);
            if k >= self.text.len() {
                return None;
            }
            let (key, after_key) = match self.read_string(k) {
                Some(x) => x,
                None => return None,
            };
            let colon = self.skip_space(after_key);
            if colon >= self.text.len() || self.text[colon] != ':' {
                return None;
            }
            let (value, next) = match self.read_value(colon + 1) {
                Some(x) => x,
                None => return None,
            };
            let ghost v0 = value_view(value);
            proof {
                lemma_space_end_bounds(t, colon + 1);
                assert(value_at(t, m, json_space_end(t, colon + 1)) == Some((v0, next as int)));
            }
            let is_offset = text_is(key.as_slice(), "start") || text_is(key.as_slice(), "end");
            let value = if is_offset {
                self.map_offset(value)
            } else {
                value
            };
            let ghost entry = (key@, value_view(value));
            fields.push(EstreeField { key, value });
            let q = self.skip_space(next);
            proof {
                assert(members_view(fields@) =~= members_view(before).push(entry));
                assert(entry.1 == (if key@ == "start"@ || key@ == "end"@ {
                    map_view(m, v0)
                } else {
                    v0
                }));
            }
            if q >= self.text.len() {
                return None;
            }
            if self.text[q] == ',' {
                j = q + 1;
                proof {
                    assert(members_from(t, m, jj) == match members_from(t, m, j as int) {
                        Some((rest, e)) => Some((seq![entry] + rest, e)),
                        None => None,
                    });
                    match members_from(t, m, j as int) {
                        Some((rest, e)) => {
                            assert(members_view(before) + (seq![entry] + rest) =~= members_view(fields@) + rest);
                        },
                        None => {},
                    }
                }
            } else if self.text[q] == '}' {
                let node = EstreeNode { fields };
                proof {
                    assert(members_from(t, m, jj) == Some((seq![entry], q + 1)));
                    lemma_object_view(node);
                    assert(members_view(before) + seq![entry] =~= members_view(node.fields@));
                }
                return Some((EstreeValue::Object(node), q + 1));
            } else {
                return None;
            }
        }
        None
    }
}

/// Reads a whole JSON text holding one object, moving every `start` and `end`
/// offset through `map`.
pub fn parse_json_object(text: &[char], map: &OffsetMap) -> (r: Option<EstreeNode>)
    ensures
        node_view(r) == spec_json_object(text@, offset_view(*map)),
{
    let reader = JsonReader { text, map };
    let (value, _end) = match reader.read_value(0) {
        Some(x) => x,
        None => return None,
    };
    match value {
        EstreeValue::Object(node) => {
            proof {
                lemma_object_view(node);
            }
            Some(node)
        },
        _ => None,
    }
}

} // verus!
