//! Lexical scanning of component source: white space, names, positions and
//! the extent of embedded JavaScript expressions.
use vstd::prelude::*;

use crate::ast::Position;
use crate::text::{is_space, spec_is_space};

verus! {

/// The first position at or after `k` that is not white space, or the end.
pub open spec fn space_end_from(src: Seq<char>, k: int) -> int
    decreases src.len() - k,
{
    if 0 <= k < src.len() && spec_is_space(src[k]) {
        space_end_from(src, k + 1)
    } else {
        k
    }
}

/// The end of the run of ASCII letters from `k`.
pub open spec fn word_end_from(src: Seq<char>, k: int) -> int
    decreases src.len() - k,
{
    if 0 <= k < src.len() && crate::text::spec_is_ascii_alpha(src[k]) {
        word_end_from(src, k + 1)
    } else {
        k
    }
}

/// The first position at or after `pos` that is not white space.
pub fn skip_space(src: &[char], pos: usize) -> (r: usize)
    requires
        pos <= src@.len(),
    ensures
        pos <= r <= src@.len(),
        r == space_end_from(src@, pos as int),
        r < src@.len() ==> !spec_is_space(src@[r as int]),
        forall|k: int| pos <= k < r ==> spec_is_space(src@[k]),
{
    let mut i = pos;
    while i < src.len() && is_space(src[i])
        invariant
            pos <= i <= src@.len(),
            forall|k: int| pos <= k < i ==> spec_is_space(src@[k]),
            space_end_from(src@, i as int) == space_end_from(src@, pos as int),
        decreases src.len() - i,
    {
        i += 1;
    }
    i
}

/// Where the white space that trails `src[start..e]` starts.
pub open spec fn space_trail_start(src: Seq<char>, start: int, e: int) -> int
    decreases e,
{
    if e > start && e > 0 && e <= src.len() && spec_is_space(src[e - 1]) {
        space_trail_start(src, start, e - 1)
    } else {
        e
    }
}

/// The last position in `start..end` after trailing white space is dropped.
pub fn trim_end(src: &[char], start: usize, end: usize) -> (r: usize)
    requires
        start <= end <= src@.len(),
    ensures
        start <= r <= end,
        r > start ==> !spec_is_space(src@[r - 1]),
        forall|k: int| r <= k < end ==> spec_is_space(src@[k]),
        r == space_trail_start(src@, start as int, end as int),
{
    let mut e = end;
    while e > start && is_space(src[e - 1])
        invariant
            start <= e <= end <= src@.len(),
            forall|k: int| e <= k < end ==> spec_is_space(src@[k]),
            space_trail_start(src@, start as int, e as int) == space_trail_start(src@, start as int, end as int),
        decreases e - start,
    {
        e -= 1;
    }
    e
}

/// Line (from 1), column (from 0) and offset of `offset` in `src`.
pub fn position_at(src: &[char], offset: usize) -> (p: Position)
    requires
        offset <= src@.len(),
    ensures
        p.character == offset,
        p.column <= offset,
{
    let mut line: usize = 1;
    let mut line_start: usize = 0;
    let mut i: usize = 0;
    while i < offset
        invariant
            i <= offset <= src@.len(),
            line_start <= i,
            line <= i + 1,
        decreases offset - i,
    {
        if src[i] == '\n' && line < usize::MAX {
            line += 1;
            line_start = i + 1;
        }
        i += 1;
    }
    Position { line, column: offset - line_start, character: offset }
}

/// Whether `c` opens a nested group in JavaScript text.
pub open spec fn spec_open_bracket(c: char) -> bool {
    c == '(' || c == '[' || c == '{'
}

/// Whether `c` closes a nested group in JavaScript text.
pub open spec fn spec_close_bracket(c: char) -> bool {
    c == ')' || c == ']' || c == '}'
}

/// Whether `c` starts a quoted string in JavaScript text.
pub open spec fn spec_quote(c: char) -> bool {
    c == '"' || c == '\'' || c == '`'
}

/// Whether `c` opens a nested group in JavaScript text.
fn is_open_bracket(c: char) -> (r: bool)
    ensures
        r == spec_open_bracket(c),
{
    c == '(' || c == '[' || c == '{'
}

/// Whether `c` closes a nested group in JavaScript text.
fn is_close_bracket(c: char) -> (r: bool)
    ensures
        r == spec_close_bracket(c),
{
    c == ')' || c == ']' || c == '}'
}

/// Where a string closed by `quote` ends when its body is scanned from `i`:
/// just after the closing quote, a backslash escaping the character after it,
/// or the end of the source.
pub open spec fn string_end_from(src: Seq<char>, quote: char, i: int) -> int
    decreases src.len() - i,
{
    if i < 0 || i >= src.len() {
        i
    } else if src[i] == '\\' {
        if i + 1 < src.len() {
            string_end_from(src, quote, i + 2)
        } else {
            string_end_from(src, quote, i + 1)
        }
    } else if src[i] == quote {
        i + 1
    } else {
        string_end_from(src, quote, i + 1)
    }
}

/// The position just after the quoted string whose quote is at `pos`.
pub open spec fn spec_skip_string(src: Seq<char>, pos: int) -> int {
    string_end_from(src, src[pos], pos + 1)
}

/// The position just after a quoted string whose quote is at `pos`, or the end of the source.
pub fn skip_string(src: &[char], pos: usize) -> (r: usize)
    requires
        pos < src@.len(),
    ensures
        pos < r <= src@.len(),
        r == spec_skip_string(src@, pos as int),
{
    let quote = src[pos];
    let mut i = pos + 1;
    while i < src.len()
        invariant
            pos < i <= src@.len(),
            quote == src@[pos as int],
            string_end_from(src@, quote, i as int) == spec_skip_string(src@, pos as int),
        decreases src.len() - i,
    {
        let c = src[i];
        if c == '\\' {
            if i + 1 < src.len() {
                i += 2;
            } else {
                i += 1;
            }
        } else if c == quote {
            return i + 1;
        } else {
            i += 1;
        }
    }
    i
}

/// The first line break at or after `k`, or the end of the source.
pub open spec fn line_end_from(src: Seq<char>, k: int) -> int
    decreases src.len() - k,
{
    if k < 0 || k >= src.len() || src[k] == '\n' {
        k
    } else {
        line_end_from(src, k + 1)
    }
}

/// The first `*/` at or after `k` (the position of its `*`), or the end of the source.
pub open spec fn comment_close_from(src: Seq<char>, k: int) -> int
    decreases src.len() - k,
{
    if k < 0 || k >= src.len() || (src[k] == '*' && k + 1 < src.len() && src[k + 1] == '/') {
        k
    } else {
        comment_close_from(src, k + 1)
    }
}

/// The nesting depth after one more opening bracket.
pub open spec fn deeper(depth: int) -> int {
    if depth < usize::MAX {
        depth + 1
    } else {
        depth
    }
}

/// The nesting depth after one more closing bracket.
pub open spec fn shallower(depth: int) -> int {
    if depth > 0 {
        depth - 1
    } else {
        depth
    }
}

/// Where the scan for the `}` closing an expression stops, scanning from `i` at
/// nesting depth `depth`: strings and comments are skipped whole, and the first
/// `}` met at depth zero is the answer; a `)` or `]` met there is passed over.
pub open spec fn expression_end_from(src: Seq<char>, i: int, depth: int) -> Option<int>
    decreases src.len() - i,
{
    if i < 0 || i >= src.len() {
        None
    } else {
        let c = src[i];
        if spec_quote(c) {
            let j = spec_skip_string(src, i);
            if i < j <= src.len() {
                expression_end_from(src, j, depth)
            } else {
                None
            }
        } else if c == '/' && i + 1 < src.len() && src[i + 1] == '/' {
            let k = line_end_from(src, i + 2);
            if i < k <= src.len() {
                expression_end_from(src, k, depth)
            } else {
                None
            }
        } else if c == '/' && i + 1 < src.len() && src[i + 1] == '*' {
            let k = comment_close_from(src, i + 2);
            let n = if k < src.len() {
                if k + 2 <= src.len() {
                    k + 2
                } else {
                    src.len() as int
                }
            } else {
                k
            };
            if i < n <= src.len() {
                expression_end_from(src, n, depth)
            } else {
                None
            }
        } else if spec_open_bracket(c) {
            expression_end_from(src, i + 1, deeper(depth))
        } else if spec_close_bracket(c) {
            if depth == 0 {
                if c == '}' {
                    Some(i)
                } else {
                    expression_end_from(src, i + 1, depth)
                }
            } else {
                expression_end_from(src, i + 1, depth - 1)
            }
        } else {
            expression_end_from(src, i + 1, depth)
        }
    }
}

/// The end of the line comment whose body starts at `k`.
fn skip_line_comment(src: &[char], k: usize) -> (r: usize)
    requires
        k <= src@.len(),
    ensures
        k <= r <= src@.len(),
        r == line_end_from(src@, k as int),
{
    let mut i = k;
    while i < src.len() && src[i] != '\n'
        invariant
            k <= i <= src@.len(),
            line_end_from(src@, i as int) == line_end_from(src@, k as int),
        decreases src.len() - i,
    {
        i += 1;
    }
    i
}

/// The position of the `*/` closing the block comment whose body starts at `k`.
fn find_comment_close(src: &[char], k: usize) -> (r: usize)
    requires
        k <= src@.len(),
    ensures
        k <= r <= src@.len(),
        r == comment_close_from(src@, k as int),
{
    let mut i = k;
    while i < src.len() && !(src[i] == '*' && i + 1 < src.len() && src[i + 1] == '/')
        invariant
            k <= i <= src@.len(),
            comment_close_from(src@, i as int) == comment_close_from(src@, k as int),
        decreases src.len() - i,
    {
        i += 1;
    }
    i
}

/// The position of the `}` that closes a JavaScript expression starting at `pos`
/// (strings, template literals and nested brackets skipped), if there is one.
pub fn find_expression_end(src: &[char], pos: usize) -> (r: Option<usize>)
    requires
        pos <= src@.len(),
    ensures
        r matches Some(e) ==> pos <= e < src@.len() && src@[e as int] == '}',
        match r {
            Some(e) => expression_end_from(src@, pos as int, 0) == Some(e as int),
            None => expression_end_from(src@, pos as int, 0) is None,
        },
{
    let mut depth: usize = 0;
    let mut i = pos;
    while i < src.len()
        invariant
            pos <= i <= src@.len(),
            expression_end_from(src@, i as int, depth as int) == expression_end_from(
                src@,
                pos as int,
                0,
            ),
        decreases src.len() - i,
    {
        let c = src[i];
        if c == '"' || c == '\'' || c == '`' {
            i = skip_string(src, i);
        } else if c == '/' && i + 1 < src.len() && src[i + 1] == '/' {
            i = skip_line_comment(src, i + 2);
        } else if c == '/' && i + 1 < src.len() && src[i + 1] == '*' {
            i = find_comment_close(src, i + 2);
            if i < src.len() {
                i = if src.len() - i >= 2 { i + 2 } else { src.len() };
            }
        } else if is_open_bracket(c) {
            if depth < usize::MAX {
                depth += 1;
            }
            i += 1;
        } else if is_close_bracket(c) {
            if depth == 0 {
                if c == '}' {
                    return Some(i);
                }
            } else {
                depth -= 1;
            }
            i += 1;
        } else {
            i += 1;
        }
    }
    None
}

/// Where the scan for the `)` closing a group stops, scanning `i..end` at
/// nesting depth `depth`: strings are skipped whole, and the first closing
/// bracket met at depth zero ends the scan, found when it is a `)`.
pub open spec fn closing_paren_from(src: Seq<char>, i: int, end: int, depth: int) -> Option<int>
    decreases end - i,
{
    if i < 0 || i >= end || end > src.len() {
        None
    } else {
        let c = src[i];
        if spec_quote(c) {
            let j = spec_skip_string(src, i);
            let n = if j <= end {
                j
            } else {
                end
            };
            if i < n {
                closing_paren_from(src, n, end, depth)
            } else {
                None
            }
        } else if spec_open_bracket(c) {
            closing_paren_from(src, i + 1, end, deeper(depth))
        } else if spec_close_bracket(c) {
            if depth == 0 {
                if c == ')' {
                    Some(i)
                } else {
                    closing_paren_from(src, i + 1, end, depth)
                }
            } else {
                closing_paren_from(src, i + 1, end, depth - 1)
            }
        } else {
            closing_paren_from(src, i + 1, end, depth)
        }
    }
}

/// The position of the first `)` at nesting depth zero in `pos..end`.
pub fn find_closing_paren(src: &[char], pos: usize, end: usize) -> (r: Option<usize>)
    requires
        pos <= end <= src@.len(),
    ensures
        r matches Some(e) ==> pos <= e < end && src@[e as int] == ')',
        match r {
            Some(e) => closing_paren_from(src@, pos as int, end as int, 0) == Some(e as int),
            None => closing_paren_from(src@, pos as int, end as int, 0) is None,
        },
{
    let mut depth: usize = 0;
    let mut i = pos;
    while i < end
        invariant
            pos <= i <= end <= src@.len(),
            closing_paren_from(src@, i as int, end as int, depth as int) == closing_paren_from(
                src@,
                pos as int,
                end as int,
                0,
            ),
        decreases end - i,
    {
        let c = src[i];
        if c == '"' || c == '\'' || c == '`' {
            let j = skip_string(src, i);
            i = if j <= end { j } else { end };
        } else if is_open_bracket(c) {
            if depth < usize::MAX {
                depth += 1;
            }
            i += 1;
        } else if is_close_bracket(c) {
            if depth == 0 {
                if c == ')' {
                    return Some(i);
                }
            } else {
                depth -= 1;
            }
            i += 1;
        } else {
            i += 1;
        }
    }
    None
}

/// Where the scan for `target` at nesting depth zero stops, scanning `i..end`
/// at depth `depth`: strings are skipped whole, and closing brackets at depth
/// zero leave the depth at zero.
pub open spec fn top_level_from(src: Seq<char>, i: int, end: int, target: char, depth: int) -> Option<int>
    decreases end - i,
{
    if i < 0 || i >= end || end > src.len() {
        None
    } else {
        let c = src[i];
        if depth == 0 && c == target {
            Some(i)
        } else if spec_quote(c) {
            let j = spec_skip_string(src, i);
            let n = if j <= end {
                j
            } else {
                end
            };
            if i < n {
                top_level_from(src, n, end, target, depth)
            } else {
                None
            }
        } else if spec_open_bracket(c) {
            top_level_from(src, i + 1, end, target, deeper(depth))
        } else if spec_close_bracket(c) {
            top_level_from(src, i + 1, end, target, shallower(depth))
        } else {
            top_level_from(src, i + 1, end, target, depth)
        }
    }
}

/// The first position in `pos..end` at nesting depth zero holding `target`.
pub fn find_top_level(src: &[char], pos: usize, end: usize, target: char) -> (r: Option<usize>)
    requires
        pos <= end <= src@.len(),
    ensures
        r matches Some(e) ==> pos <= e < end && src@[e as int] == target,
        match r {
            Some(e) => top_level_from(src@, pos as int, end as int, target, 0) == Some(e as int),
            None => top_level_from(src@, pos as int, end as int, target, 0) is None,
        },
{
    let mut depth: usize = 0;
    let mut i = pos;
    while i < end
        invariant
            pos <= i <= end <= src@.len(),
            top_level_from(src@, i as int, end as int, target, depth as int) == top_level_from(
                src@,
                pos as int,
                end as int,
                target,
                0,
            ),
        decreases end - i,
    {
        let c = src[i];
        if depth == 0 && c == target {
            return Some(i);
        }
        if c == '"' || c == '\'' || c == '`' {
            let j = skip_string(src, i);
            i = if j <= end { j } else { end };
        } else if is_open_bracket(c) {
            if depth < usize::MAX {
                depth += 1;
            }
            i += 1;
        } else if is_close_bracket(c) {
            if depth > 0 {
                depth -= 1;
            }
            i += 1;
        } else {
            i += 1;
        }
    }
    None
}

/// The last match that repeated top-level scans for `target` find in `i..end`,
/// each scan starting just after the previous match; `found` if there is none.
pub open spec fn last_top_level_from(
    src: Seq<char>,
    i: int,
    end: int,
    target: char,
    found: Option<int>,
) -> Option<int>
    decreases end - i,
{
    if i < 0 || i >= end {
        found
    } else {
        match top_level_from(src, i, end, target, 0) {
            Some(e) => if i <= e < end {
                last_top_level_from(src, e + 1, end, target, Some(e))
            } else {
                found
            },
            None => found,
        }
    }
}

/// The last position in `pos..end` at nesting depth zero holding `target`.
pub fn find_last_top_level(src: &[char], pos: usize, end: usize, target: char) -> (r: Option<usize>)
    requires
        pos <= end <= src@.len(),
    ensures
        r matches Some(e) ==> pos <= e < end && src@[e as int] == target,
        match r {
            Some(e) => last_top_level_from(src@, pos as int, end as int, target, None) == Some(e as int),
            None => last_top_level_from(src@, pos as int, end as int, target, None) is None,
        },
{
    let mut found: Option<usize> = None;
    let mut i = pos;
    while i < end
        invariant
            pos <= i <= end <= src@.len(),
            found matches Some(e) ==> pos <= e < end && src@[e as int] == target,
            last_top_level_from(
                src@,
                i as int,
                end as int,
                target,
                match found {
                    Some(e) => Some(e as int),
                    None => None::<int>,
                },
            ) == last_top_level_from(src@, pos as int, end as int, target, None),
        decreases end - i,
    {
        match find_top_level(src, i, end, target) {
            Some(e) => {
                found = Some(e);
                i = e + 1;
            },
            None => {
                i = end;
            },
        }
    }
    found
}

/// Where the scan for ` as ` at nesting depth zero stops, scanning `i..end` at
/// depth `depth`; the keyword needs white space before it, inside `pos..end`,
/// and after it.
pub open spec fn as_keyword_from(src: Seq<char>, pos: int, i: int, end: int, depth: int) -> Option<int>
    decreases end - i,
{
    if i < 0 || i >= end || end > src.len() {
        None
    } else {
        let c = src[i];
        if depth == 0 && c == 'a' && i > pos && spec_is_space(src[i - 1]) && end - i > 2
            && src[i + 1] == 's' && spec_is_space(src[i + 2]) {
            Some(i)
        } else if spec_quote(c) {
            let j = spec_skip_string(src, i);
            let n = if j <= end {
                j
            } else {
                end
            };
            if i < n {
                as_keyword_from(src, pos, n, end, depth)
            } else {
                None
            }
        } else if spec_open_bracket(c) {
            as_keyword_from(src, pos, i + 1, end, deeper(depth))
        } else if spec_close_bracket(c) {
            as_keyword_from(src, pos, i + 1, end, shallower(depth))
        } else {
            as_keyword_from(src, pos, i + 1, end, depth)
        }
    }
}

/// The position of the ` as ` keyword at nesting depth zero in `pos..end`: the
/// position of its `a`.
pub fn find_as_keyword(src: &[char], pos: usize, end: usize) -> (r: Option<usize>)
    requires
        pos <= end <= src@.len(),
    ensures
        r matches Some(e) ==> pos < e && e + 2 < end,
        match r {
            Some(e) => as_keyword_from(src@, pos as int, pos as int, end as int, 0) == Some(e as int),
            None => as_keyword_from(src@, pos as int, pos as int, end as int, 0) is None,
        },
{
    let mut depth: usize = 0;
    let mut i = pos;
    while i < end
        invariant
            pos <= i <= end <= src@.len(),
            as_keyword_from(src@, pos as int, i as int, end as int, depth as int)
                == as_keyword_from(src@, pos as int, pos as int, end as int, 0),
        decreases end - i,
    {
        let c = src[i];
        if depth == 0 && c == 'a' && i > pos && is_space(src[i - 1]) && end - i > 2
            && src[i + 1] == 's' && is_space(src[i + 2]) {
            return Some(i);
        }
        if c == '"' || c == '\'' || c == '`' {
            let j = skip_string(src, i);
            i = if j <= end { j } else { end };
        } else if is_open_bracket(c) {
            if depth < usize::MAX {
                depth += 1;
            }
            i += 1;
        } else if is_close_bracket(c) {
            if depth > 0 {
                depth -= 1;
            }
            i += 1;
        } else {
            i += 1;
        }
    }
    None
}

/// Whether `c` ends a tag name.
pub open spec fn spec_ends_tag_name(c: char) -> bool {
    spec_is_space(c) || c == '/' || c == '>'
}

/// The end of a tag name starting at `pos`: the first white space, `/`, `>` or the end.
pub fn tag_name_end(src: &[char], pos: usize) -> (r: usize)
    requires
        pos <= src@.len(),
    ensures
        pos <= r <= src@.len(),
        r < src@.len() ==> spec_ends_tag_name(src@[r as int]),
        forall|k: int| pos <= k < r ==> !spec_ends_tag_name(#[trigger] src@[k]),
{
    let mut i = pos;
    while i < src.len() && !is_space(src[i]) && src[i] != '/' && src[i] != '>'
        invariant
            pos <= i <= src@.len(),
            forall|k: int| pos <= k < i ==> !spec_ends_tag_name(#[trigger] src@[k]),
        decreases src.len() - i,
    {
        i += 1;
    }
    i
}

/// Whether `c` ends an attribute name.
pub open spec fn spec_ends_attribute_name(c: char) -> bool {
    spec_is_space(c) || c == '=' || c == '/' || c == '>' || c == '"' || c == '\''
}

/// The end of an attribute name starting at `pos`: the first white space, `=`, `/`, `>`, quote or the end.
pub fn attribute_name_end(src: &[char], pos: usize) -> (r: usize)
    requires
        pos <= src@.len(),
    ensures
        pos <= r <= src@.len(),
        r < src@.len() ==> spec_ends_attribute_name(src@[r as int]),
        forall|k: int| pos <= k < r ==> !spec_ends_attribute_name(#[trigger] src@[k]),
{
    let mut i = pos;
    while i < src.len() && !is_space(src[i]) && src[i] != '=' && src[i] != '/' && src[i] != '>'
        && src[i] != '"' && src[i] != '\''
        invariant
            pos <= i <= src@.len(),
            forall|k: int| pos <= k < i ==> !spec_ends_attribute_name(#[trigger] src@[k]),
        decreases src.len() - i,
    {
        i += 1;
    }
    i
}

/// The end of a word of letters starting at `pos`.
pub fn word_end(src: &[char], pos: usize) -> (r: usize)
    requires
        pos <= src@.len(),
    ensures
        pos <= r <= src@.len(),
        r == word_end_from(src@, pos as int),
{
    let mut i = pos;
    while i < src.len() && crate::text::is_ascii_alpha(src[i])
        invariant
            pos <= i <= src@.len(),
            word_end_from(src@, i as int) == word_end_from(src@, pos as int),
        decreases src.len() - i,
    {
        i += 1;
    }
    i
}

/// The first position at or after `pos` where `src` spells `lit`, if any.
pub fn find_str(src: &[char], pos: usize, lit: &str) -> (r: Option<usize>)
    requires
        pos <= src@.len(),
    ensures
        r matches Some(e) ==> pos <= e <= src@.len() && crate::text::spec_at(src@, e as int, lit@) && forall|k: int|
            pos <= k < e ==> !crate::text::spec_at(src@, k, lit@),
        r is None ==> forall|k: int| pos <= k < src@.len() ==> !crate::text::spec_at(src@, k, lit@),
{
    let mut i = pos;
    while i < src.len()
        invariant
            pos <= i <= src@.len(),
            forall|k: int| pos <= k < i ==> !crate::text::spec_at(src@, k, lit@),
        decreases src.len() - i,
    {
        if crate::text::at(src, i, lit) {
            return Some(i);
        }
        i += 1;
    }
    None
}

} // verus!
