//! Reading the style sheet of a `<style>` element into rules, at-rules,
//! selectors and declarations.
use vstd::prelude::*;

use crate::ast::{
    CssAtrule, CssAttributeSelector, CssBlock, CssBlockChild, CssBlockType, CssCombinator,
    CssCombinatorType, CssComplexSelector, CssComplexSelectorType, CssDeclaration, CssNameSelector,
    CssNode, CssPseudoClassSelector, CssRelativeSelector, CssRelativeSelectorType, CssRule,
    CssSelectorList, CssSelectorListType, CssSimpleSelector, CssValueSelector,
};
use crate::text::{at, chars_of, is_ascii_alpha, is_ascii_digit, is_space, slice_chars, spec_at, spec_is_space, str_chars};

verus! {

/// Unicode white space, as `char::is_whitespace` reads it.
pub open spec fn spec_is_white_space(c: char) -> bool {
    ('\u{9}' <= c && c <= '\u{d}') || c == ' ' || c == '\u{85}' || c == '\u{a0}' || c == '\u{1680}'
        || ('\u{2000}' <= c && c <= '\u{200a}') || c == '\u{2028}' || c == '\u{2029}' || c
        == '\u{202f}' || c == '\u{205f}' || c == '\u{3000}'
}

/// Whether `c` is Unicode white space.
pub fn is_white_space(c: char) -> (r: bool)
    ensures
        r == spec_is_white_space(c),
{
    ('\u{9}' <= c && c <= '\u{d}') || c == ' ' || c == '\u{85}' || c == '\u{a0}' || c == '\u{1680}'
        || ('\u{2000}' <= c && c <= '\u{200a}') || c == '\u{2028}' || c == '\u{2029}' || c
        == '\u{202f}' || c == '\u{205f}' || c == '\u{3000}'
}

/// The end of the white space that leads `s` from `a` on.
pub open spec fn white_lead_end(s: Seq<char>, a: int) -> int
    decreases s.len() - a,
{
    if 0 <= a < s.len() && spec_is_white_space(s[a]) {
        white_lead_end(s, a + 1)
    } else {
        a
    }
}

/// The start of the white space that trails `s[lo..b]`.
pub open spec fn white_trail_start(s: Seq<char>, lo: int, b: int) -> int
    decreases b,
{
    if b > lo && b > 0 && b <= s.len() && spec_is_white_space(s[b - 1]) {
        white_trail_start(s, lo, b - 1)
    } else {
        b
    }
}

/// `s` without the white space at either end.
pub open spec fn spec_trim(s: Seq<char>) -> Seq<char> {
    let a = white_lead_end(s, 0);
    s.subrange(a, white_trail_start(s, a, s.len() as int))
}

/// Whether `value` ends with `url`.
pub open spec fn spec_ends_with_url(value: Seq<char>) -> bool {
    value.len() >= 3 && value.subrange(value.len() - 3, value.len() as int) == seq!['u', 'r', 'l']
}

/// A declaration value read from `i`, before `end`, after `value` was read:
/// escapes are kept with their backslash, quotes and `url(...)` are followed,
/// and the value ends at `;`, `{` or `}` outside them. The raw value and
/// where the reading stops.
pub open spec fn css_value_from(
    src: Seq<char>,
    end: int,
    i: int,
    value: Seq<char>,
    escaped: bool,
    in_url: bool,
    quote: Option<char>,
) -> (Seq<char>, int)
    decreases end - i,
{
    if i < 0 || i >= end || end > src.len() {
        (value, i)
    } else {
        let ch = src[i];
        if escaped {
            css_value_from(src, end, i + 1, value.push('\\').push(ch), false, in_url, quote)
        } else if ch == '\\' {
            css_value_from(src, end, i + 1, value, true, in_url, quote)
        } else if quote == Some(ch) {
            css_value_from(src, end, i + 1, value.push(ch), false, in_url, None)
        } else if quote is None && (ch == '\'' || ch == '"') {
            css_value_from(src, end, i + 1, value.push(ch), false, in_url, Some(ch))
        } else if ch == ')' {
            css_value_from(src, end, i + 1, value.push(ch), false, false, quote)
        } else if ch == '(' && spec_ends_with_url(value) {
            css_value_from(src, end, i + 1, value.push(ch), false, true, quote)
        } else if (ch == ';' || ch == '{' || ch == '}') && !in_url && quote is None {
            (value, i)
        } else {
            css_value_from(src, end, i + 1, value.push(ch), false, in_url, quote)
        }
    }
}

/// An attribute selector value read from `i`, before `end`, after `value`
/// was read, inside `quote` if any: the raw value, where the reading stops,
/// and whether it stopped after a closing quote.
pub open spec fn css_attribute_value_from(
    src: Seq<char>,
    end: int,
    i: int,
    value: Seq<char>,
    escaped: bool,
    quote: Option<char>,
) -> (Seq<char>, int)
    decreases end - i,
{
    if i < 0 || i >= end || end > src.len() {
        (value, i)
    } else {
        let ch = src[i];
        if escaped {
            css_attribute_value_from(src, end, i + 1, value.push('\\').push(ch), false, quote)
        } else if ch == '\\' {
            css_attribute_value_from(src, end, i + 1, value, true, quote)
        } else if quote is Some {
            if ch == quote->0 {
                (value, i + 1)
            } else {
                css_attribute_value_from(src, end, i + 1, value.push(ch), false, quote)
            }
        } else if spec_is_space(ch) || ch == ']' {
            (value, i)
        } else {
            css_attribute_value_from(src, end, i + 1, value.push(ch), false, quote)
        }
    }
}

/// `s` without the white space at either end.
pub fn trim_white_space(s: &[char]) -> (out: Vec<char>)
    ensures
        exists|a: int, b: int|
            #![trigger s@.subrange(a, b)]
            0 <= a <= b <= s@.len() && out@ == s@.subrange(a, b) && (forall|k: int|
                0 <= k < a ==> spec_is_white_space(#[trigger] s@[k])) && (forall|k: int|
                b <= k < s@.len() ==> spec_is_white_space(#[trigger] s@[k])) && (a < b ==> !spec_is_white_space(s@[a])
                && !spec_is_white_space(s@[b - 1])),
        out@ == spec_trim(s@),
{
    let mut a: usize = 0;
    while a < s.len() && is_white_space(s[a])
        invariant
            a <= s@.len(),
            forall|k: int| 0 <= k < a ==> spec_is_white_space(#[trigger] s@[k]),
            white_lead_end(s@, a as int) == white_lead_end(s@, 0),
        decreases s.len() - a,
    {
        a += 1;
    }
    let mut b: usize = s.len();
    while b > a && is_white_space(s[b - 1])
        invariant
            a <= b <= s@.len(),
            forall|k: int| b <= k < s@.len() ==> spec_is_white_space(#[trigger] s@[k]),
            a == white_lead_end(s@, 0),
            white_trail_start(s@, a as int, b as int) == white_trail_start(s@, a as int, s@.len() as int),
        decreases b - a,
    {
        b -= 1;
    }
    let out = slice_chars(s, a, b);
    assert(out@ == s@.subrange(a as int, b as int));
    out
}

/// Whether `c` is an ASCII letter or digit.
fn is_ascii_alphanumeric(c: char) -> (r: bool)
    ensures
        r == (('a' <= c && c <= 'z') || ('A' <= c && c <= 'Z') || ('0' <= c && c <= '9')),
{
    is_ascii_alpha(c) || is_ascii_digit(c)
}

/// Whether `c` may stand in a style sheet identifier unescaped.
pub open spec fn spec_identifier_char(c: char) -> bool {
    ('a' <= c && c <= 'z') || ('A' <= c && c <= 'Z') || ('0' <= c && c <= '9') || c == '_' || c == '-'
}

/// The identifier read from `i` after `acc` was read: its characters, each
/// escaped one kept with its backslash, and where the reading stops.
pub open spec fn css_identifier_from(src: Seq<char>, i: int, acc: Seq<char>) -> (Seq<char>, int)
    decreases src.len() - i,
{
    if i < 0 || i >= src.len() {
        (acc, i)
    } else if src[i] == '\\' {
        if i + 1 < src.len() {
            css_identifier_from(src, i + 2, acc.push('\\').push(src[i + 1]))
        } else {
            (acc, i)
        }
    } else if spec_identifier_char(src[i]) {
        css_identifier_from(src, i + 1, acc.push(src[i]))
    } else {
        (acc, i)
    }
}

/// Where a percentage that starts at `start` ends (after its `%`): digits, then
/// a `.` and digits, with at least one digit in all.
pub open spec fn percentage_end(src: Seq<char>, start: int) -> Option<int> {
    let d = crate::json::digit_run_end(src, start);
    let (e, has_digit) = if d < src.len() && src[d] == '.' {
        let f = crate::json::digit_run_end(src, d + 1);
        (f, d > start || f > d + 1)
    } else {
        (d, d > start)
    };
    if has_digit && e < src.len() && src[e] == '%' {
        Some(e + 1)
    } else {
        None
    }
}

/// The first position at or after `k`, before `end`, where `close` stands
/// whole before `end`; `end` or `k` when there is none.
pub open spec fn css_comment_close(src: Seq<char>, end: int, k: int, close: Seq<char>) -> int
    decreases end - k,
{
    if k < end && !(k + close.len() <= end && spec_at(src, k, close)) {
        css_comment_close(src, end, k + 1, close)
    } else {
        k
    }
}

/// Where the white space and comments (`/* ... */` and `<!-- ... -->`) that
/// stand from `i` on end; a comment opens only where it fits before `end`.
pub open spec fn css_gap_end(src: Seq<char>, end: int, i: int) -> int
    decreases src.len() - i,
{
    let w = crate::scan::space_end_from(src, i);
    if w + 2 <= end && spec_at(src, w, "/*"@) {
        let c = css_comment_close(src, end, w + 2, "*/"@);
        let after = if c + 2 <= end && spec_at(src, c, "*/"@) {
            c + 2
        } else {
            c
        };
        if i < after <= src.len() {
            css_gap_end(src, end, after)
        } else {
            after
        }
    } else if w + 4 <= end && spec_at(src, w, "<!--"@) {
        let c = css_comment_close(src, end, w + 4, "-->"@);
        let after = if c + 3 <= end && spec_at(src, c, "-->"@) {
            c + 3
        } else {
            c
        };
        if i < after <= src.len() {
            css_gap_end(src, end, after)
        } else {
            after
        }
    } else {
        w
    }
}

/// The first position at or after `t`, before `end`, that is not Unicode white space.
pub open spec fn white_end_before(src: Seq<char>, t: int, end: int) -> int
    decreases end - t,
{
    if 0 <= t < end && t < src.len() && spec_is_white_space(src[t]) {
        white_end_before(src, t + 1, end)
    } else {
        t
    }
}

/// The first `)` or `,` at or after `k`, or `end`.
pub open spec fn nth_expression_end(src: Seq<char>, k: int, end: int) -> int
    decreases end - k,
{
    if 0 <= k < end && k < src.len() && src[k] != ')' && src[k] != ',' {
        nth_expression_end(src, k + 1, end)
    } else {
        k
    }
}

/// The first position of ` of ` at or after `p` that fits before `end`.
pub open spec fn of_from(src: Seq<char>, p: int, end: int) -> Option<int>
    decreases end - p,
{
    if p < end && end - p >= 4 {
        if of_at(src, p) {
            Some(p)
        } else {
            of_from(src, p + 1, end)
        }
    } else {
        None
    }
}

/// Whether `c` may follow a keyword of an `:nth-...` argument.
pub open spec fn spec_nth_follower(c: char) -> bool {
    spec_is_space(c) || c == ')' || c == ',' || c == 'o'
}

/// Whether `lit` stands at `i`, before `end`.
pub open spec fn text_at_before(src: Seq<char>, end: int, i: int, lit: Seq<char>) -> bool {
    i + lit.len() <= end && spec_at(src, i, lit)
}

/// The range of the argument of an `:nth-...` pseudo-class that a reader at
/// `start`, before `end`, reads, if one comes next.
pub open spec fn spec_nth_value(src: Seq<char>, start: int, end: int) -> Option<(int, int)> {
    if start > end {
        None
    } else {
        let t = white_end_before(src, start, end);
        if t == end {
            None
        } else {
            let first = src[t];
            let even_like = text_at_before(src, end, t, "even"@) && (end - t <= 4 || spec_nth_follower(src[t + 4]));
            let odd_like = text_at_before(src, end, t, "odd"@) && (end - t <= 3 || spec_nth_follower(src[t + 3]));
            let n_like = first == 'n' && (t + 1 >= end || {
                let c = src[t + 1];
                spec_is_space(c) || c == '+' || c == '-' || spec_nth_follower(c)
            });
            let nth_like = even_like || odd_like || first == '+' || first == '-' || n_like || ('0' <= first
                && first <= '9');
            if !nth_like {
                None
            } else {
                let expr_end = nth_expression_end(src, t, end);
                let token_end = match of_from(src, t, expr_end) {
                    Some(p) => p + 4,
                    None => crate::scan::space_trail_start(src, t, expr_end),
                };
                if token_end <= t {
                    None
                } else {
                    Some((t, token_end))
                }
            }
        }
    }
}

/// A reader over `source`, at `index`, that reads what stands before `end`.
pub struct CssParser<'a> {
    pub source: &'a [char],
    pub index: usize,
    pub end: usize,
}

impl<'a> CssParser<'a> {
    /// The reader's position and end lie within its source.
    pub open spec fn wf(&self) -> bool {
        &&& self.index <= self.source@.len()
        &&& self.end <= self.source@.len()
        &&& self.source@.len() < usize::MAX
    }

    /// The reader reads the same text as `before`, and has not moved back.
    pub open spec fn follows(&self, before: &Self) -> bool {
        &&& self.wf()
        &&& self.source@ == before.source@
        &&& self.end == before.end
        &&& before.index <= self.index
    }

    /// Whether the text from `index` on, before `end`, starts with `token`.
    pub open spec fn spec_matches(&self, token: Seq<char>) -> bool {
        self.index + token.len() <= self.end && spec_at(self.source@, self.index as int, token)
    }

    /// A reader of `source[start..end]`.
    pub fn new(source: &'a [char], start: usize, end: usize) -> (p: Self)
        requires
            start <= source@.len(),
            end <= source@.len(),
            source@.len() < usize::MAX,
        ensures
            p.wf(),
            p.source@ == source@,
            p.index == start,
            p.end == end,
    {
        CssParser { source, index: start, end }
    }

    /// The character at `i`, if the source has one there.
    fn char_at(&self, i: usize) -> (r: Option<char>)
        ensures
            r == (if i < self.source@.len() { Some(self.source@[i as int]) } else { None::<char> }),
    {
        if i < self.source.len() {
            Some(self.source[i])
        } else {
            None
        }
    }

    /// The character at the reader's position, if any.
    fn current(&self) -> (r: Option<char>)
        ensures
            r == (if self.index < self.source@.len() { Some(self.source@[self.index as int]) } else { None::<char> }),
    {
        self.char_at(self.index)
    }

    /// Whether the next character, before `end`, is `c`.
    fn match_char(&self, c: char) -> (r: bool)
        ensures
            r == (self.index < self.end && self.index < self.source@.len() && self.source@[self.index as int] == c),
    {
        self.index < self.end && self.index < self.source.len() && self.source[self.index] == c
    }

    /// Reads `c` if it is the next character before `end`.
    fn eat_char(&mut self, c: char) -> (r: bool)
        requires
            old(self).wf(),
        ensures
            final(self).follows(&*old(self)),
            r == (old(self).index < old(self).end && old(self).source@[old(self).index as int] == c),
            final(self).index == old(self).index + (if r { 1int } else { 0int }),
    {
        if self.match_char(c) {
            self.index = self.index + 1;
            true
        } else {
            false
        }
    }

    /// Whether the text from the reader's position, before `end`, starts with `token`.
    fn match_str(&self, token: &str) -> (r: bool)
        requires
            self.wf(),
        ensures
            r == self.spec_matches(token@),
    {
        let w = str_chars(token);
        if self.index > self.end || w.len() > self.end - self.index {
            false
        } else {
            at(self.source, self.index, token)
        }
    }

    /// Reads `token` if the text before `end` continues with it.
    fn eat_str(&mut self, token: &str) -> (r: bool)
        requires
            old(self).wf(),
        ensures
            final(self).follows(&*old(self)),
            r == old(self).spec_matches(token@),
            final(self).index == old(self).index + (if r { token@.len() as int } else { 0int }),
    {
        if self.match_str(token) {
            let n = str_chars(token).len();
            self.index = self.index + n;
            true
        } else {
            false
        }
    }

    /// Skips ASCII white space, whatever `end` is.
    fn allow_whitespace(&mut self)
        requires
            old(self).wf(),
        ensures
            final(self).follows(&*old(self)),
            forall|k: int| old(self).index <= k < final(self).index ==> spec_is_space(#[trigger] old(self).source@[k]),
            final(self).index == old(self).source@.len() || !spec_is_space(old(self).source@[final(self).index as int]),
            final(self).index == crate::scan::space_end_from(old(self).source@, old(self).index as int),
    {
        while self.index < self.source.len() && is_space(self.source[self.index])
            invariant
                self.follows(&*old(self)),
                forall|k: int| old(self).index <= k < self.index ==> spec_is_space(#[trigger] old(self).source@[k]),
                crate::scan::space_end_from(self.source@, self.index as int) == crate::scan::space_end_from(
                    old(self).source@,
                    old(self).index as int,
                ),
            decreases self.source@.len() - self.index,
        {
            self.index = self.index + 1;
        }
    }

    /// Skips white space and comments, `/* ... */` and `<!-- ... -->`.
    fn allow_comment_or_whitespace(&mut self)
        requires
            old(self).wf(),
        ensures
            final(self).follows(&*old(self)),
            final(self).index == css_gap_end(old(self).source@, old(self).end as int, old(self).index as int),
    {
        proof {
            reveal_strlit("/*");
            reveal_strlit("*/");
            reveal_strlit("<!--");
            reveal_strlit("-->");
        }
        let ghost g = self.index as int;
        self.allow_whitespace();
        loop
            invariant
                self.follows(&*old(self)),
                old(self).index <= g <= self.index,
                self.index == crate::scan::space_end_from(self.source@, g),
                css_gap_end(self.source@, self.end as int, g) == css_gap_end(
                    old(self).source@,
                    old(self).end as int,
                    old(self).index as int,
                ),
                "/*"@.len() == 2 && "*/"@.len() == 2 && "<!--"@.len() == 4 && "-->"@.len() == 3,
            ensures
                self.follows(&*old(self)),
                self.index == css_gap_end(old(self).source@, old(self).end as int, old(self).index as int),
            decreases self.source@.len() - self.index,
        {
            let before = self.index;
            if self.eat_str("/*") {
                while self.index < self.end && !self.match_str("*/")
                    invariant
                        self.follows(&*old(self)),
                        before < self.index,
                        "*/"@.len() == 2,
                        css_comment_close(self.source@, self.end as int, self.index as int, "*/"@)
                            == css_comment_close(self.source@, self.end as int, before + 2, "*/"@),
                    decreases self.end - self.index,
                {
                    self.index = self.index + 1;
                }
                let _ = self.eat_str("*/");
                proof {
                    g = self.index as int;
                }
                self.allow_whitespace();
                continue;
            }
            if self.eat_str("<!--") {
                while self.index < self.end && !self.match_str("-->")
                    invariant
                        self.follows(&*old(self)),
                        before < self.index,
                        "-->"@.len() == 3,
                        css_comment_close(self.source@, self.end as int, self.index as int, "-->"@)
                            == css_comment_close(self.source@, self.end as int, before + 4, "-->"@),
                    decreases self.end - self.index,
                {
                    self.index = self.index + 1;
                }
                let _ = self.eat_str("-->");
                proof {
                    g = self.index as int;
                }
                self.allow_whitespace();
                continue;
            }
            break;
        }
    }

    /// Whether a combinator, `||`, `+`, `~` or `>`, comes next.
    fn matches_combinator(&self) -> (r: bool)
        requires
            self.wf(),
    {
        self.match_str("||") || self.match_char('+') || self.match_char('~') || self.match_char('>')
    }

    /// Reads the statements of the style sheet up to `end`.
    pub fn read_body(&mut self) -> (r: Vec<CssNode>)
        requires
            old(self).wf(),
        ensures
            final(self).follows(&*old(self)),
    {
        let mut children: Vec<CssNode> = Vec::new();
        while self.index < self.end
            invariant
                self.follows(&*old(self)),
            decreases self.source@.len() - self.index,
        {
            self.allow_comment_or_whitespace();
            if self.index >= self.end {
                break;
            }
            if self.match_char('@') {
                children.push(CssNode::Atrule(self.read_at_rule()));
            } else {
                children.push(CssNode::Rule(self.read_rule()));
            }
        }
        children
    }

    /// Reads an at-rule whose `@` is at the reader's position.
    fn read_at_rule(&mut self) -> (r: CssAtrule)
        requires
            old(self).wf(),
            old(self).index < old(self).end,
            old(self).source@[old(self).index as int] == '@',
        ensures
            final(self).follows(&*old(self)),
            old(self).index < final(self).index,
            r.start == old(self).index,
            r.end == final(self).index,
        decreases old(self).source@.len() - old(self).index, 1nat,
    {
        let start = self.index;
        self.index = self.index + 1;
        let name = self.read_identifier();
        let prelude = self.read_value();
        let block = if self.match_char('{') {
            Some(self.read_block(start + 1))
        } else {
            let _ = self.eat_char(';');
            None
        };
        CssAtrule { start, end: self.index, name, prelude, block }
    }

    /// Reads a rule: a selector list and its block.
    fn read_rule(&mut self) -> (r: CssRule)
        requires
            old(self).wf(),
        ensures
            final(self).follows(&*old(self)),
            old(self).index < old(self).end ==> old(self).index < final(self).index,
            r.start == old(self).index,
            r.end == final(self).index,
        decreases old(self).source@.len() - old(self).index, 4nat,
    {
        let start = self.index;
        let prelude = self.read_selector_list(false);
        let block = self.read_block(start);
        CssRule { prelude, block, start, end: self.index }
    }

    /// Reads a block `{ ... }` of declarations and nested rules. An item at
    /// `floor`, the start of the rule the block belongs to, is read as a
    /// declaration: read as a rule, it would start that rule over.
    fn read_block(&mut self, floor: usize) -> (r: CssBlock)
        requires
            old(self).wf(),
            floor <= old(self).index,
        ensures
            final(self).follows(&*old(self)),
            old(self).index < old(self).end ==> old(self).index < final(self).index,
            r.start == old(self).index,
            r.end == final(self).index,
        decreases old(self).source@.len() - floor, 3nat,
    {
        let start = self.index;
        let _ = self.eat_char('{');
        let mut children: Vec<CssBlockChild> = Vec::new();
        let mut closed = false;
        while self.index < self.end
            invariant_except_break
                !closed,
            invariant
                self.follows(&*old(self)),
                floor <= start <= self.index,
                start == old(self).index,
            ensures
                self.follows(&*old(self)),
                closed ==> start < self.index,
                !closed ==> self.end <= self.index,
            decreases self.source@.len() - self.index,
        {
            self.allow_comment_or_whitespace();
            if self.match_char('}') {
                let _ = self.eat_char('}');
                closed = true;
                break;
            }
            if self.index >= self.end {
                let item = self.read_block_item(floor);
                children.push(item);
                break;
            }
            let item = self.read_block_item(floor);
            children.push(item);
        }
        if !closed {
            let _ = self.eat_char('}');
        }
        CssBlock { block_type: CssBlockType::Block, start, end: self.index, children }
    }

    /// Reads one item of a block: an at-rule, a nested rule or a declaration.
    fn read_block_item(&mut self, floor: usize) -> (r: CssBlockChild)
        requires
            old(self).wf(),
            floor <= old(self).index,
        ensures
            final(self).follows(&*old(self)),
            old(self).index < old(self).end ==> old(self).index < final(self).index,
        decreases old(self).source@.len() - floor, 2nat,
    {
        if self.match_char('@') {
            return CssBlockChild::Atrule(self.read_at_rule());
        }
        let start = self.index;
        let _ = self.read_value();
        let ch = self.current();
        self.index = start;
        if ch == Some('{') && start > floor {
            CssBlockChild::Rule(self.read_rule())
        } else {
            CssBlockChild::Declaration(self.read_declaration())
        }
    }

    /// Reads a declaration `property: value;`.
    fn read_declaration(&mut self) -> (r: CssDeclaration)
        requires
            old(self).wf(),
        ensures
            final(self).follows(&*old(self)),
            old(self).index < old(self).end ==> old(self).index < final(self).index,
            r.start == old(self).index,
    {
        let start = self.index;
        while self.index < self.source.len() && self.source[self.index] != ':' && !is_space(self.source[self.index])
            invariant
                self.follows(&*old(self)),
            decreases self.source@.len() - self.index,
        {
            self.index = self.index + 1;
        }
        let property = slice_chars(self.source, start, self.index);
        self.allow_whitespace();
        let _ = self.eat_char(':');
        self.allow_whitespace();
        let value = self.read_value();
        let end = self.index;
        if !self.match_char('}') {
            let _ = self.eat_char(';');
        }
        CssDeclaration { start, end, property, value }
    }

    /// Reads a value up to `;`, `{` or `}` outside quotes and `url(...)`, trimmed.
    fn read_value(&mut self) -> (r: Vec<char>)
        requires
            old(self).wf(),
        ensures
            final(self).follows(&*old(self)),
            ({
                let (v, e) = css_value_from(
                    old(self).source@,
                    old(self).end as int,
                    old(self).index as int,
                    Seq::empty(),
                    false,
                    false,
                    None,
                );
                r@ == spec_trim(v) && final(self).index == (if e < old(self).index {
                    old(self).index as int
                } else {
                    e
                })
            }),
    {
        let mut value: Vec<char> = Vec::new();
        let mut escaped = false;
        let mut in_url = false;
        let mut quote_mark: Option<char> = None;
        while self.index < self.end
            invariant
                self.follows(&*old(self)),
                css_value_from(self.source@, self.end as int, self.index as int, value@, escaped, in_url, quote_mark)
                    == css_value_from(
                    old(self).source@,
                    old(self).end as int,
                    old(self).index as int,
                    Seq::empty(),
                    false,
                    false,
                    None,
                ),
            decreases self.end - self.index,
        {
            let ch = self.source[self.index];
            if escaped {
                value.push('\\');
                value.push(ch);
                escaped = false;
                self.index = self.index + 1;
                continue;
            }
            if ch == '\\' {
                escaped = true;
                self.index = self.index + 1;
                continue;
            }
            if quote_mark == Some(ch) {
                quote_mark = None;
            } else if quote_mark.is_none() && (ch == '\'' || ch == '"') {
                quote_mark = Some(ch);
            } else if ch == ')' {
                in_url = false;
            } else if ch == '(' && ends_with_url(&value) {
                in_url = true;
            } else if (ch == ';' || ch == '{' || ch == '}') && !in_url && quote_mark.is_none() {
                return trim_white_space(value.as_slice());
            }
            value.push(ch);
            self.index = self.index + 1;
        }
        trim_white_space(value.as_slice())
    }

    /// Reads the value of an attribute selector, quoted or up to white space or `]`.
    fn read_attribute_value(&mut self) -> (r: Vec<char>)
        requires
            old(self).wf(),
        ensures
            final(self).follows(&*old(self)),
            ({
                let o = *old(self);
                let q = if o.index < o.end && o.source@[o.index as int] == '"' {
                    Some('"')
                } else if o.index < o.end && o.source@[o.index as int] == '\'' {
                    Some('\'')
                } else {
                    None
                };
                let start = if q is Some {
                    o.index + 1
                } else {
                    o.index as int
                };
                let (v, e) = css_attribute_value_from(o.source@, o.end as int, start, Seq::empty(), false, q);
                r@ == spec_trim(v) && final(self).index == e
            }),
    {
        let mut value: Vec<char> = Vec::new();
        let mut escaped = false;
        let quote_mark = if self.eat_char('"') {
            Some('"')
        } else if self.eat_char('\'') {
            Some('\'')
        } else {
            None
        };
        let ghost start = self.index as int;
        while self.index < self.end
            invariant
                self.follows(&*old(self)),
                start <= self.index,
                quote_mark == (if old(self).index < old(self).end && old(self).source@[old(self).index as int] == '"' {
                    Some('"')
                } else if old(self).index < old(self).end && old(self).source@[old(self).index as int] == '\'' {
                    Some('\'')
                } else {
                    None
                }),
                start == (if quote_mark is Some {
                    old(self).index + 1
                } else {
                    old(self).index as int
                }),
                css_attribute_value_from(self.source@, self.end as int, self.index as int, value@, escaped, quote_mark)
                    == css_attribute_value_from(self.source@, self.end as int, start, Seq::empty(), false, quote_mark),
            decreases self.end - self.index,
        {
            let ch = self.source[self.index];
            if escaped {
                value.push('\\');
                value.push(ch);
                escaped = false;
            } else if ch == '\\' {
                escaped = true;
            } else if let Some(quote) = quote_mark {
                if ch == quote {
                    self.index = self.index + 1;
                    return trim_white_space(value.as_slice());
                }
                value.push(ch);
            } else if is_space(ch) || ch == ']' {
                return trim_white_space(value.as_slice());
            } else {
                value.push(ch);
            }
            self.index = self.index + 1;
        }
        trim_white_space(value.as_slice())
    }

    /// Reads an identifier: ASCII letters, digits, `_`, `-` and escaped characters.
    /// Nothing is read when no such character comes next.
    fn read_identifier(&mut self) -> (r: Vec<char>)
        requires
            old(self).wf(),
        ensures
            final(self).follows(&*old(self)),
            r@.len() == 0 <==> final(self).index == old(self).index,
            ({
                let (v, e) = css_identifier_from(old(self).source@, old(self).index as int, Seq::empty());
                &&& r@ == v
                &&& final(self).index == (if v.len() == 0 {
                    old(self).index as int
                } else {
                    e
                })
            }),
    {
        let start = self.index;
        let mut out: Vec<char> = Vec::new();
        while self.index < self.source.len()
            invariant
                self.follows(&*old(self)),
                start == old(self).index,
                out@.len() == 0 <==> self.index == start,
                css_identifier_from(self.source@, self.index as int, out@) == css_identifier_from(
                    self.source@,
                    start as int,
                    Seq::empty(),
                ),
            ensures
                self.follows(&*old(self)),
                out@.len() == 0 <==> self.index == start,
                css_identifier_from(self.source@, self.index as int, out@) == (out@, self.index as int),
                css_identifier_from(self.source@, self.index as int, out@) == css_identifier_from(
                    self.source@,
                    start as int,
                    Seq::empty(),
                ),
            decreases self.source@.len() - self.index,
        {
            let ch = self.source[self.index];
            if ch == '\\' {
                if self.index + 1 < self.source.len() {
                    out.push('\\');
                    out.push(self.source[self.index + 1]);
                    self.index = self.index + 2;
                    continue;
                }
                break;
            }
            if is_ascii_alphanumeric(ch) || ch == '_' || ch == '-' {
                out.push(ch);
                self.index = self.index + 1;
            } else {
                break;
            }
        }
        if out.len() == 0 {
            self.index = start;
        }
        out
    }

    /// The matcher of an attribute selector that comes next, if any.
    pub open spec fn spec_attribute_matcher(&self) -> Option<Seq<char>> {
        if self.spec_matches("~="@) {
            Some("~="@)
        } else if self.spec_matches("^="@) {
            Some("^="@)
        } else if self.spec_matches("$="@) {
            Some("$="@)
        } else if self.spec_matches("*="@) {
            Some("*="@)
        } else if self.spec_matches("|="@) {
            Some("|="@)
        } else if self.index < self.end && self.source@[self.index as int] == '=' {
            Some("="@)
        } else {
            None
        }
    }

    /// Reads the matcher of an attribute selector: `~=`, `^=`, `$=`, `*=`, `|=` or `=`.
    fn read_attribute_matcher(&mut self) -> (r: Option<Vec<char>>)
        requires
            old(self).wf(),
        ensures
            final(self).follows(&*old(self)),
            match r {
                Some(v) => old(self).spec_attribute_matcher() == Some(v@) && final(self).index
                    == old(self).index + v@.len(),
                None => old(self).spec_attribute_matcher() is None && final(self).index == old(self).index,
            },
    {
        proof {
            reveal_strlit("=");
        }
        if self.eat_str("~=") {
            Some(chars_of("~="))
        } else if self.eat_str("^=") {
            Some(chars_of("^="))
        } else if self.eat_str("$=") {
            Some(chars_of("$="))
        } else if self.eat_str("*=") {
            Some(chars_of("*="))
        } else if self.eat_str("|=") {
            Some(chars_of("|="))
        } else if self.eat_char('=') {
            Some(chars_of("="))
        } else {
            None
        }
    }

    /// Reads a run of ASCII letters, if one comes next.
    fn read_alpha_identifier(&mut self) -> (r: Option<Vec<char>>)
        requires
            old(self).wf(),
        ensures
            final(self).follows(&*old(self)),
            r is None <==> final(self).index == old(self).index,
            ({
                let e = crate::scan::word_end_from(old(self).source@, old(self).index as int);
                if e > old(self).index {
                    r matches Some(v) && v@ == old(self).source@.subrange(old(self).index as int, e)
                        && final(self).index == e
                } else {
                    r is None
                }
            }),
    {
        let start = self.index;
        let mut out: Vec<char> = Vec::new();
        while self.index < self.source.len() && is_ascii_alpha(self.source[self.index])
            invariant
                self.follows(&*old(self)),
                start == old(self).index,
                out@.len() == self.index - start,
                out@ == self.source@.subrange(start as int, self.index as int),
                crate::scan::word_end_from(self.source@, self.index as int) == crate::scan::word_end_from(
                    self.source@,
                    start as int,
                ),
            decreases self.source@.len() - self.index,
        {
            out.push(self.source[self.index]);
            self.index = self.index + 1;
        }
        if out.len() == 0 {
            self.index = start;
            None
        } else {
            Some(out)
        }
    }

    /// Reads a percentage such as `50%` or `12.5%`, if one comes next.
    fn read_percentage_value(&mut self) -> (r: Option<Vec<char>>)
        requires
            old(self).wf(),
        ensures
            final(self).follows(&*old(self)),
            r is None <==> final(self).index == old(self).index,
            match percentage_end(old(self).source@, old(self).index as int) {
                Some(e) => r matches Some(v) && v@ == old(self).source@.subrange(old(self).index as int, e)
                    && final(self).index == e,
                None => r is None,
            },
    {
        let start = self.index;
        let mut idx = self.index;
        let mut has_digit = false;
        while idx < self.source.len() && is_ascii_digit(self.source[idx])
            invariant
                self.wf(),
                start <= idx <= self.source@.len(),
                has_digit <==> start < idx,
                crate::json::digit_run_end(self.source@, idx as int) == crate::json::digit_run_end(
                    self.source@,
                    start as int,
                ),
            decreases self.source@.len() - idx,
        {
            has_digit = true;
            idx += 1;
        }
        let ghost d = idx as int;
        if self.char_at(idx) == Some('.') {
            idx += 1;
            while idx < self.source.len() && is_ascii_digit(self.source[idx])
                invariant
                    self.wf(),
                    start <= idx <= self.source@.len(),
                    d + 1 <= idx,
                    has_digit <==> (d > start || idx > d + 1),
                    crate::json::digit_run_end(self.source@, idx as int) == crate::json::digit_run_end(
                        self.source@,
                        d + 1,
                    ),
                decreases self.source@.len() - idx,
            {
                has_digit = true;
                idx += 1;
            }
        }
        if !has_digit || self.char_at(idx) != Some('%') {
            return None;
        }
        idx += 1;
        self.index = idx;
        Some(slice_chars(self.source, start, idx))
    }

    /// Reads the argument of an `:nth-...` pseudo-class, such as `2n + 1`,
    /// `odd` or `n of .item`, if one comes next.
    fn read_nth_value(&mut self) -> (r: Option<Vec<char>>)
        requires
            old(self).wf(),
        ensures
            final(self).follows(&*old(self)),
            r is None ==> final(self).index == old(self).index,
            r is Some ==> old(self).index < final(self).index,
            match spec_nth_value(old(self).source@, old(self).index as int, old(self).end as int) {
                Some((t, e)) => r matches Some(v) && v@ == old(self).source@.subrange(t, e) && final(self).index == e,
                None => r is None,
            },
    {
        proof {
            reveal_strlit("even");
            reveal_strlit("odd");
        }
        let start = self.index;
        if start > self.end {
            return None;
        }
        let mut t = start;
        while t < self.end && is_white_space(self.source[t])
            invariant
                self.wf(),
                start <= t <= self.end,
                white_end_before(self.source@, t as int, self.end as int) == white_end_before(
                    self.source@,
                    start as int,
                    self.end as int,
                ),
            decreases self.end - t,
        {
            t += 1;
        }
        if t == self.end {
            return None;
        }
        let first = self.source[t];
        let second = if t + 1 < self.end { Some(self.source[t + 1]) } else { None };
        let even_like = self.text_at(t, "even") && (self.end - t <= 4 || nth_follower(self.source[t + 4]));
        let odd_like = self.text_at(t, "odd") && (self.end - t <= 3 || nth_follower(self.source[t + 3]));
        let n_like = first == 'n' && match second {
            None => true,
            Some(c) => is_space(c) || c == '+' || c == '-' || nth_follower(c),
        };
        let nth_like = even_like || odd_like || first == '+' || first == '-' || n_like || is_ascii_digit(first);
        if !nth_like {
            return None;
        }
        let expr_start = t;
        let mut expr_end = t;
        while expr_end < self.end && self.source[expr_end] != ')' && self.source[expr_end] != ','
            invariant
                self.wf(),
                expr_start <= expr_end <= self.end,
                nth_expression_end(self.source@, expr_end as int, self.end as int) == nth_expression_end(
                    self.source@,
                    expr_start as int,
                    self.end as int,
                ),
            decreases self.end - expr_end,
        {
            expr_end += 1;
        }
        let mut token_end = expr_end;
        match find_of(self.source, expr_start, expr_end) {
            Some(p) => {
                token_end = p + 4;
            },
            None => {
                while token_end > expr_start && is_space(self.source[token_end - 1])
                    invariant
                        self.wf(),
                        expr_start <= token_end <= expr_end <= self.end,
                        crate::scan::space_trail_start(self.source@, expr_start as int, token_end as int)
                            == crate::scan::space_trail_start(self.source@, expr_start as int, expr_end as int),
                    decreases token_end,
                {
                    token_end -= 1;
                }
            },
        }
        if token_end <= expr_start {
            return None;
        }
        self.index = token_end;
        Some(slice_chars(self.source, expr_start, token_end))
    }

    /// Whether `lit` stands at `i`, before `end`.
    fn text_at(&self, i: usize, lit: &str) -> (r: bool)
        requires
            self.wf(),
        ensures
            r ==> i + lit@.len() <= self.end,
            r == text_at_before(self.source@, self.end as int, i as int, lit@),
    {
        let w = str_chars(lit);
        if i > self.end || w.len() > self.end - i {
            false
        } else {
            at(self.source, i, lit)
        }
    }

    /// The combinator token that stands at `w`, before `end`, if any.
    pub open spec fn combinator_token_at(&self, w: int) -> Option<Seq<char>> {
        if w + 2 <= self.end && spec_at(self.source@, w, "||"@) {
            Some("||"@)
        } else if w < self.end && self.source@[w] == '+' {
            Some("+"@)
        } else if w < self.end && self.source@[w] == '~' {
            Some("~"@)
        } else if w < self.end && self.source@[w] == '>' {
            Some(">"@)
        } else {
            None
        }
    }

    /// Reads a combinator: `||`, `+`, `~`, `>`, or white space alone.
    fn read_combinator(&mut self) -> (r: Option<CssCombinator>)
        requires
            old(self).wf(),
        ensures
            final(self).follows(&*old(self)),
            r is Some ==> old(self).index < final(self).index,
            ({
                let src = old(self).source@;
                let w = crate::scan::space_end_from(src, old(self).index as int);
                match old(self).combinator_token_at(w) {
                    Some(t) => r matches Some(c) && c.combinator_type == CssCombinatorType::Combinator
                        && c.name@ == t && c.start == w && c.end == w + t.len() && final(self).index
                        == crate::scan::space_end_from(src, w + t.len()),
                    None => if w != old(self).index {
                        r matches Some(c) && c.combinator_type == CssCombinatorType::Combinator && c.name@
                            == " "@ && c.start == old(self).index && c.end == w && final(self).index == w
                    } else {
                        r is None && final(self).index == old(self).index
                    },
                }
            }),
    {
        proof {
            reveal_strlit("||");
            reveal_strlit("+");
            reveal_strlit("~");
            reveal_strlit(">");
        }
        let start = self.index;
        self.allow_whitespace();
        let whitespace_end = self.index;
        let name: Option<Vec<char>> = if self.eat_str("||") {
            proof {
                reveal_strlit("||");
            }
            Some(chars_of("||"))
        } else if self.eat_char('+') {
            Some(chars_of("+"))
        } else if self.eat_char('~') {
            Some(chars_of("~"))
        } else if self.eat_char('>') {
            Some(chars_of(">"))
        } else {
            None
        };
        match name {
            Some(n) => {
                let token_end = self.index;
                self.allow_whitespace();
                Some(
                    CssCombinator {
                        combinator_type: CssCombinatorType::Combinator,
                        name: n,
                        start: whitespace_end,
                        end: token_end,
                    },
                )
            },
            None => {
                if whitespace_end != start {
                    Some(
                        CssCombinator {
                            combinator_type: CssCombinatorType::Combinator,
                            name: chars_of(" "),
                            start,
                            end: whitespace_end,
                        },
                    )
                } else {
                    None
                }
            },
        }
    }

    /// Reads a selector list, up to `{` or, inside a pseudo-class, up to `)`.
    fn read_selector_list(&mut self, inside_pseudo_class: bool) -> (r: CssSelectorList)
        requires
            old(self).wf(),
        ensures
            final(self).follows(&*old(self)),
        decreases old(self).source@.len() - old(self).index, 2nat,
    {
        let mut children: Vec<CssComplexSelector> = Vec::new();
        self.allow_comment_or_whitespace();
        let start = self.index;
        while self.index < self.end
            invariant
                self.follows(&*old(self)),
                start <= self.index,
            decreases self.source@.len() - self.index,
        {
            children.push(self.read_selector(inside_pseudo_class));
            let selector_end = self.index;
            self.allow_comment_or_whitespace();
            let done = if inside_pseudo_class {
                self.match_char(')')
            } else {
                self.match_char('{')
            };
            if done || !self.eat_char(',') {
                return CssSelectorList {
                    list_type: CssSelectorListType::SelectorList,
                    start,
                    end: selector_end,
                    children,
                };
            }
            self.allow_comment_or_whitespace();
        }
        CssSelectorList { list_type: CssSelectorListType::SelectorList, start, end: self.index, children }
    }

    /// Reads one simple selector at the reader's position, if one comes next.
    fn read_simple_selector(&mut self, inside_pseudo_class: bool) -> (r: Option<CssSimpleSelector>)
        requires
            old(self).wf(),
        ensures
            final(self).follows(&*old(self)),
            r is Some ==> old(self).index < final(self).index,
            r is None ==> final(self).index == old(self).index,
        decreases old(self).source@.len() - old(self).index, 0nat,
    {
        proof {
            reveal_strlit("::");
        }
        let start = self.index;
        if self.eat_char('&') {
            return Some(CssSimpleSelector::NestingSelector(CssNameSelector { name: chars_of("&"), start, end: self.index }));
        }
        if self.eat_char('*') {
            let mut name = chars_of("*");
            if self.eat_char('|') {
                name = self.read_identifier();
            }
            return Some(CssSimpleSelector::TypeSelector(CssNameSelector { name, start, end: self.index }));
        }
        if self.eat_char('#') {
            let name = self.read_identifier();
            return Some(CssSimpleSelector::IdSelector(CssNameSelector { name, start, end: self.index }));
        }
        if self.eat_char('.') {
            let name = self.read_identifier();
            return Some(CssSimpleSelector::ClassSelector(CssNameSelector { name, start, end: self.index }));
        }
        if self.eat_str("::") {
            proof {
                reveal_strlit("::");
            }
            let name = self.read_identifier();
            let end = self.index;
            if self.eat_char('(') {
                let _ = self.read_selector_list(true);
                let _ = self.eat_char(')');
            }
            return Some(CssSimpleSelector::PseudoElementSelector(CssNameSelector { name, start, end }));
        }
        if self.eat_char(':') {
            let name = self.read_identifier();
            let mut args: Option<CssSelectorList> = None;
            if self.eat_char('(') {
                args = Some(self.read_selector_list(true));
                let _ = self.eat_char(')');
            }
            return Some(CssSimpleSelector::PseudoClassSelector(CssPseudoClassSelector { name, args, start, end: self.index }));
        }
        if self.eat_char('[') {
            self.allow_whitespace();
            let name = self.read_identifier();
            self.allow_whitespace();
            let matcher = self.read_attribute_matcher();
            let value = if matcher.is_some() {
                self.allow_whitespace();
                Some(self.read_attribute_value())
            } else {
                None
            };
            self.allow_whitespace();
            let flags = self.read_alpha_identifier();
            self.allow_whitespace();
            let _ = self.eat_char(']');
            return Some(CssSimpleSelector::AttributeSelector(CssAttributeSelector { start, end: self.index, name, matcher, value, flags }));
        }
        if inside_pseudo_class {
            if let Some(value) = self.read_nth_value() {
                return Some(CssSimpleSelector::Nth(CssValueSelector { value, start, end: self.index }));
            }
        }
        if let Some(value) = self.read_percentage_value() {
            return Some(CssSimpleSelector::Percentage(CssValueSelector { value, start, end: self.index }));
        }
        if !self.matches_combinator() {
            let mut name = self.read_identifier();
            if name.len() > 0 {
                if self.eat_char('|') {
                    name = self.read_identifier();
                }
                return Some(CssSimpleSelector::TypeSelector(CssNameSelector { name, start, end: self.index }));
            }
        }
        None
    }

    /// Reads a complex selector: compound selectors joined by combinators.
    fn read_selector(&mut self, inside_pseudo_class: bool) -> (r: CssComplexSelector)
        requires
            old(self).wf(),
        ensures
            final(self).follows(&*old(self)),
            r.start == old(self).index,
            r.end == final(self).index,
            r.children@.len() >= 1,
            r.children@.last().end == r.end,
        decreases old(self).source@.len() - old(self).index, 1nat,
    {
        let list_start = self.index;
        let mut children: Vec<CssRelativeSelector> = Vec::new();
        let mut combinator: Option<CssCombinator> = None;
        let mut relative_start = self.index;
        let mut selectors: Vec<CssSimpleSelector> = Vec::new();
        while self.index < self.end
            invariant
                self.follows(&*old(self)),
                list_start == old(self).index,
            decreases self.source@.len() - self.index,
        {
            let start = self.index;
            let simple = self.read_simple_selector(inside_pseudo_class);
            let parsed = simple.is_some();
            if let Some(s) = simple {
                selectors.push(s);
            }
            let index = self.index;
            self.allow_comment_or_whitespace();
            let done = self.match_char(',') || (inside_pseudo_class && self.match_char(')')) || (!inside_pseudo_class
                && self.match_char('{'));
            self.index = index;
            if done {
                children.push(
                    CssRelativeSelector {
                        selector_type: CssRelativeSelectorType::RelativeSelector,
                        combinator,
                        selectors,
                        start: relative_start,
                        end: index,
                    },
                );
                return CssComplexSelector {
                    selector_type: CssComplexSelectorType::ComplexSelector,
                    start: list_start,
                    end: index,
                    children,
                };
            }
            if let Some(c) = self.read_combinator() {
                if selectors.len() > 0 {
                    children.push(
                        CssRelativeSelector {
                            selector_type: CssRelativeSelectorType::RelativeSelector,
                            combinator,
                            selectors,
                            start: relative_start,
                            end: index,
                        },
                    );
                }
                relative_start = c.start;
                combinator = Some(c);
                selectors = Vec::new();
                self.allow_whitespace();
            }
            if !parsed && self.index == start {
                break;
            }
        }
        let end = self.index;
        children.push(
            CssRelativeSelector {
                selector_type: CssRelativeSelectorType::RelativeSelector,
                combinator,
                selectors,
                start: relative_start,
                end,
            },
        );
        CssComplexSelector { selector_type: CssComplexSelectorType::ComplexSelector, start: list_start, end, children }
    }
}

/// Whether `c` may follow `even`, `odd` or a lone `n` in an `:nth-...` argument.
fn nth_follower(c: char) -> (r: bool)
    ensures
        r == (spec_is_space(c) || c == ')' || c == ',' || c == 'o'),
{
    is_space(c) || c == ')' || c == ',' || c == 'o'
}

/// Whether `value` ends with `url`.
fn ends_with_url(value: &Vec<char>) -> (r: bool)
    ensures
        r == (value@.len() >= 3 && value@.subrange(value@.len() - 3, value@.len() as int) == seq!['u', 'r', 'l']),
{
    let n = value.len();
    if n < 3 {
        return false;
    }
    let r = value[n - 3] == 'u' && value[n - 2] == 'r' && value[n - 1] == 'l';
    assert(r == (value@.subrange(n - 3, n as int) =~= seq!['u', 'r', 'l']));
    r
}

/// Whether ` of ` stands at `p`.
pub open spec fn of_at(src: Seq<char>, p: int) -> bool {
    src[p] == ' ' && src[p + 1] == 'o' && src[p + 2] == 'f' && src[p + 3] == ' '
}

/// The first position of ` of ` within `src[start..end]`.
fn find_of(src: &[char], start: usize, end: usize) -> (r: Option<usize>)
    requires
        start <= end <= src@.len(),
    ensures
        r matches Some(p) ==> start <= p && p + 4 <= end,
        match r {
            Some(p) => of_at(src@, p as int) && forall|m: int| start <= m < p ==> !of_at(src@, m),
            None => forall|m: int| start <= m && m + 4 <= end ==> !of_at(src@, m),
        },
        match r {
            Some(p) => of_from(src@, start as int, end as int) == Some(p as int),
            None => of_from(src@, start as int, end as int) is None,
        },
{
    let mut i = start;
    while i < end && end - i >= 4
        invariant
            start <= i,
            end <= src@.len(),
            forall|m: int| start <= m < i ==> !of_at(src@, m),
            of_from(src@, i as int, end as int) == of_from(src@, start as int, end as int),
        decreases end - i,
    {
        if src[i] == ' ' && src[i + 1] == 'o' && src[i + 2] == 'f' && src[i + 3] == ' ' {
            return Some(i);
        }
        i += 1;
    }
    None
}

/// The rules and at-rules of the style sheet text `src[start..end]`.
pub fn parse_css_nodes(src: &[char], start: usize, end: usize) -> (r: Vec<CssNode>)
    requires
        start <= src@.len(),
        end <= src@.len(),
        src@.len() < usize::MAX,
{
    let mut parser = CssParser::new(src, start, end);
    parser.read_body()
}

} // verus!
