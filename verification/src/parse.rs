//! Reading a component's source into its tree: elements, attributes, blocks,
//! tags, text, scripts and styles, with the syntax errors it meets.
use vstd::prelude::*;
use vstd::string::StringSliceAdditionalSpecFns;

use crate::ast::{Alternate, AttachTag, AttrError, AttrErrorKind, Attribute, AttributeValue, AttributeValueList, AttributeValueSyntax, AwaitBlock, Comment, Component, ConstTag, Css, CssContent, CssType, DebugTag, DirectiveAttribute, DirectiveValueSyntax, EachBlock, Expression, ExpressionSyntax, ExpressionTag, ExpressionTagType, Fragment, FragmentType, HtmlTag, Identifier, IfBlock, KeyBlock, NameLocation, NamedAttribute, Node, Options, ParseError, ParseErrorKind, RegularElement, RenderTag, Script, ScriptContext, ScriptType, SlotElement, SnippetBlock, SnippetHeaderError, SnippetHeaderErrorKind, SpreadAttribute, StyleDirective, SvelteBody, SvelteBoundary, SvelteComponent, SvelteDocument, SvelteElement, SvelteFragment, SvelteHead, SvelteSelf, SvelteWindow, Text, TitleElement, TransitionDirective};
use crate::estree::{field_array, identifier_name, make_identifier, node_span, type_is, EstreeValue};
use crate::parse_js::{
    declaration_from_range, expression_from_range, params_from_range, pattern_from_range,
    placeholder_expression, program_from_range,
};
use crate::scan::{
    attribute_name_end, find_as_keyword, find_closing_paren, find_expression_end,
    find_last_top_level, find_str, find_top_level, position_at, skip_space, skip_string,
    tag_name_end, trim_end, word_end,
};
use crate::text::{at, chars_eq, chars_of, copy_chars, is_space, slice_chars, text_is};

verus! {

/// What the reader has gathered besides the template nodes.
pub struct ParseState {
    pub errors: Vec<ParseError>,
    pub halted: bool,
    pub scripts: Vec<Script>,
    pub styles: Vec<Css>,
    pub options: Option<Options>,
    pub open: Vec<Vec<char>>,
    pub first_instance: Option<usize>,
    pub first_module: Option<usize>,
    pub first_style: Option<usize>,
}

/// Why a fragment stopped.
pub enum Stop {
    Eof,
    CloseTag { start: usize, name: Vec<char>, after: usize },
    Continuation { start: usize },
    BlockClose { start: usize },
}

/// Records an error that ends the reading.
pub(crate) fn fail(st: &mut ParseState, kind: ParseErrorKind, start: usize, end: usize)
    ensures
        final(st).halted,
        final(st).open@ == old(st).open@,
{
    if !st.halted {
        st.errors.push(ParseError { kind, start, end });
    }
    st.halted = true;
}

/// The HTML void elements: those that have no content and no closing tag.
pub open spec fn spec_void_element_name(name: Seq<char>) -> bool {
    name == "area"@ || name == "base"@ || name == "br"@ || name == "col"@ || name == "command"@ || name
        == "embed"@ || name == "hr"@ || name == "img"@ || name == "input"@ || name == "keygen"@ || name
        == "link"@ || name == "meta"@ || name == "param"@ || name == "source"@ || name == "track"@ || name
        == "wbr"@
}

/// The void elements are exactly `area`, `base`, `br`, `col`, `command`,
/// `embed`, `hr`, `img`, `input`, `keygen`, `link`, `meta`, `param`,
/// `source`, `track` and `wbr`.
pub proof fn lemma_void_elements(name: Seq<char>)
    ensures
        spec_void_element_name(name) <==> (name == "area"@ || name == "base"@ || name == "br"@ || name == "col"@ || name
            == "command"@ || name == "embed"@ || name == "hr"@ || name == "img"@ || name == "input"@ || name
            == "keygen"@ || name == "link"@ || name == "meta"@ || name == "param"@ || name == "source"@ || name
            == "track"@ || name == "wbr"@),
{
}

/// Whether `name` is an HTML void element.
pub fn is_void_element_name(name: &[char]) -> (r: bool)
    ensures
        r == spec_void_element_name(name@),
{
    text_is(name, "area") || text_is(name, "base") || text_is(name, "br") || text_is(name, "col")
        || text_is(name, "command") || text_is(name, "embed") || text_is(name, "hr") || text_is(
        name,
        "img",
    ) || text_is(name, "input") || text_is(name, "keygen") || text_is(name, "link") || text_is(
        name,
        "meta",
    ) || text_is(name, "param") || text_is(name, "source") || text_is(name, "track") || text_is(
        name,
        "wbr",
    )
}

/// Whether an element with this name is a component: a capitalised name or a dotted one.
pub fn is_component_name(name: &[char]) -> (r: bool)
    ensures
        r == (name@.len() > 0 && (('A' <= name@[0] <= 'Z') || (name@[0] as u32 > 0x7F && !name@.contains(':')
            && !name@.contains('-')) || (name@.contains('.') && !name@.contains(':')))),
{
    if name.len() == 0 {
        return false;
    }
    let c = name[0];
    if 'A' <= c && c <= 'Z' {
        return true;
    }
    if (c as u32) > 0x7F && !crate::text::contains_char(name, ':') && !crate::text::contains_char(name, '-') {
        return true;
    }
    crate::text::contains_char(name, '.') && !crate::text::contains_char(name, ':')
}

/// The location of `start..end` as a name location.
fn name_location(src: &[char], start: usize, end: usize) -> (r: NameLocation)
    requires
        src@.len() < usize::MAX,
        start <= end <= src@.len(),
{
    NameLocation { start: position_at(src, start), end: position_at(src, end) }
}

/// Whether the innermost open element is `name`.
fn innermost_open_is(st: &ParseState, name: &str) -> (r: bool) {
    if st.open.len() == 0 {
        false
    } else {
        text_is(st.open[st.open.len() - 1].as_slice(), name)
    }
}

/// Whether an element named `name` is open.
fn is_open(st: &ParseState, name: &[char]) -> (r: bool)
    ensures
        r == crate::bindings::has_name(st.open@, name@),
{
    let mut i: usize = 0;
    while i < st.open.len()
        invariant
            i <= st.open@.len(),
            forall|j: int| 0 <= j < i ==> (#[trigger] st.open@[j])@ != name@,
        decreases st.open.len() - i,
    {
        if chars_eq(st.open[i].as_slice(), name) {
            return true;
        }
        i += 1;
    }
    false
}

/// The text of an attribute value, when it is plain text.
pub fn attribute_static_text(value: &AttributeValueList) -> (r: Option<&Vec<char>>)
    ensures
        r matches Some(t) ==> spec_static_text(*value) == Some(t@),
        r is None ==> spec_static_text(*value) is None,
{
    match value {
        AttributeValueList::Values(parts) => {
            if parts.len() == 1 {
                match &parts[0] {
                    AttributeValue::Text(t) => Some(&t.data),
                    _ => None,
                }
            } else {
                None
            }
        },
        _ => None,
    }
}

/// The text of an attribute value, when it is a single piece of text.
pub open spec fn spec_static_text(value: AttributeValueList) -> Option<Seq<char>> {
    match value {
        AttributeValueList::Values(parts) => if parts@.len() == 1 {
            match parts@[0] {
                AttributeValue::Text(t) => Some(t.data@),
                _ => None,
            }
        } else {
            None
        },
        _ => None,
    }
}

/// Reads the parts of an attribute value from `pos`: up to the closing `quote`
/// when there is one, else up to white space or the end of the tag.
fn read_value_parts(src: &[char], pos: usize, quote: Option<char>, st: &mut ParseState) -> (r: (
    Vec<AttributeValue>,
    usize,
    Option<AttrError>,
))
    requires
        src@.len() < usize::MAX,
        pos <= src@.len(),
    ensures
        pos <= r.1 <= src@.len(),
        final(st).open@ == old(st).open@,
{
    proof {
        reveal_strlit("/>");
        reveal_strlit("{#");
        reveal_strlit("{@html");
    }
    let mut parts: Vec<AttributeValue> = Vec::new();
    let mut error: Option<AttrError> = None;
    let mut text_start = pos;
    let mut i = pos;
    while i < src.len()
        invariant
            src@.len() < usize::MAX,
            pos <= text_start <= i <= src@.len(),
            st.open@ == old(st).open@,
        decreases src.len() - i,
    {
        let c = src[i];
        let closes = match quote {
            Some(q) => c == q,
            None => is_space(c) || c == '>' || at(src, i, "/>"),
        };
        if closes {
            if i > text_start {
                let raw = slice_chars(src, text_start, i);
                let data = copy_chars(raw.as_slice());
                parts.push(AttributeValue::Text(Text { start: text_start, end: i, raw, data }));
            }
            let end = match quote {
                Some(_) => i + 1,
                None => i,
            };
            return (parts, end, error);
        }
        if c == '{' && error.is_none() {
            if i > text_start {
                let raw = slice_chars(src, text_start, i);
                let data = copy_chars(raw.as_slice());
                parts.push(AttributeValue::Text(Text { start: text_start, end: i, raw, data }));
            }
            let e = match find_expression_end(src, i + 1) {
                Some(e) => e,
                None => {
                    fail(st, ParseErrorKind::ExpectedTokenRightBrace, src.len(), src.len());
                    return (parts, src.len(), error);
                },
            };
            if at(src, i, "{@html") {
                error = Some(AttrError { kind: AttrErrorKind::HtmlTag, start: i, end: e + 1 });
            } else if at(src, i, "{#") {
                let we = word_end(src, i + 2);
                error = Some(
                    AttrError {
                        kind: AttrErrorKind::Block { name: slice_chars(src, i + 2, we) },
                        start: i,
                        end: e + 1,
                    },
                );
            } else {
                let expression = expression_from_range(src, i + 1, e, &mut st.errors);
                parts.push(
                    AttributeValue::ExpressionTag(
                        ExpressionTag {
                            tag_type: ExpressionTagType::ExpressionTag,
                            start: i,
                            end: e + 1,
                            expression,
                        },
                    ),
                );
            }
            i = e + 1;
            text_start = i;
        } else {
            i += 1;
            if error.is_some() {
                text_start = i;
            }
        }
    }
    if quote.is_some() {
        fail(st, ParseErrorKind::UnexpectedEof, src.len(), src.len());
    }
    if i > text_start {
        let raw = slice_chars(src, text_start, i);
        let data = copy_chars(raw.as_slice());
        parts.push(AttributeValue::Text(Text { start: text_start, end: i, raw, data }));
    }
    (parts, i, error)
}

/// Reads an attribute value at `pos` (just after `=` and white space).
fn read_attribute_value(src: &[char], pos: usize, st: &mut ParseState) -> (r: (
    AttributeValueList,
    AttributeValueSyntax,
    usize,
    Option<AttrError>,
))
    requires
        src@.len() < usize::MAX,
        pos < src@.len(),
    ensures
        pos <= r.2 <= src@.len(),
        final(st).open@ == old(st).open@,
{
    proof {
        reveal_strlit("/>");
    }
    let c = src[pos];
    if c == '"' || c == '\'' {
        let (parts, end, error) = read_value_parts(src, pos + 1, Some(c), st);
        return (AttributeValueList::Values(parts), AttributeValueSyntax::Quoted, end, error);
    }
    if c == '{' {
        let e = match find_expression_end(src, pos + 1) {
            Some(e) => e,
            None => {
                fail(st, ParseErrorKind::ExpectedTokenRightBrace, src.len(), src.len());
                return (AttributeValueList::Boolean(true), AttributeValueSyntax::Boolean, src.len(), None);
            },
        };
        let expression = expression_from_range(src, pos + 1, e, &mut st.errors);
        let tag = ExpressionTag {
            tag_type: ExpressionTagType::ExpressionTag,
            start: pos,
            end: e + 1,
            expression,
        };
        let n = e + 1;
        if n >= src.len() || is_space(src[n]) || src[n] == '>' || at(src, n, "/>") {
            return (AttributeValueList::ExpressionTag(tag), AttributeValueSyntax::Expression, n, None);
        }
        let (rest, end, error) = read_value_parts(src, n, None, st);
        let mut parts: Vec<AttributeValue> = Vec::new();
        parts.push(AttributeValue::ExpressionTag(tag));
        let mut rest = rest;
        while rest.len() > 0
            decreases rest.len(),
        {
            parts.push(rest.remove(0));
        }
        return (AttributeValueList::Values(parts), AttributeValueSyntax::Unquoted, end, error);
    }
    let (parts, end, error) = read_value_parts(src, pos, None, st);
    (AttributeValueList::Values(parts), AttributeValueSyntax::Unquoted, end, error)
}

/// The expression of a directive's value and where its tag starts: that of a
/// lone `{...}`, quoted or not.
pub open spec fn spec_directive_expression(value: AttributeValueList) -> Option<(Expression, usize)> {
    match value {
        AttributeValueList::ExpressionTag(tag) => Some((tag.expression, tag.start)),
        AttributeValueList::Values(parts) => if parts@.len() == 1 {
            match parts@[0] {
                AttributeValue::ExpressionTag(tag) => Some((tag.expression, tag.start)),
                _ => None,
            }
        } else {
            None
        },
        AttributeValueList::Boolean(_) => None,
    }
}

/// The expression of a directive's value: the expression of a lone `{...}`, quoted or not.
fn directive_expression(value: AttributeValueList) -> (r: Option<(Expression, usize)>)
    ensures
        r == spec_directive_expression(value),
{
    match value {
        AttributeValueList::ExpressionTag(tag) => Some((tag.expression, tag.start)),
        AttributeValueList::Values(parts) => {
            let mut parts = parts;
            if parts.len() == 1 {
                match parts.remove(0) {
                    AttributeValue::ExpressionTag(tag) => Some((tag.expression, tag.start)),
                    _ => None,
                }
            } else {
                None
            }
        },
        AttributeValueList::Boolean(_) => None,
    }
}

/// The directive kinds, by their prefix.
#[derive(Clone, Copy, PartialEq, Eq, Structural)]
pub enum DirectivePrefix {
    Bind,
    On,
    Class,
    Let,
    Style,
    Transition,
    In,
    Out,
    Animate,
    Use,
}

/// The directive kind that a prefix names.
pub open spec fn spec_directive_prefix(prefix: Seq<char>) -> Option<DirectivePrefix> {
    if prefix == "bind"@ {
        Some(DirectivePrefix::Bind)
    } else if prefix == "on"@ {
        Some(DirectivePrefix::On)
    } else if prefix == "class"@ {
        Some(DirectivePrefix::Class)
    } else if prefix == "let"@ {
        Some(DirectivePrefix::Let)
    } else if prefix == "style"@ {
        Some(DirectivePrefix::Style)
    } else if prefix == "transition"@ {
        Some(DirectivePrefix::Transition)
    } else if prefix == "in"@ {
        Some(DirectivePrefix::In)
    } else if prefix == "out"@ {
        Some(DirectivePrefix::Out)
    } else if prefix == "animate"@ {
        Some(DirectivePrefix::Animate)
    } else if prefix == "use"@ {
        Some(DirectivePrefix::Use)
    } else {
        None
    }
}

/// The directive kind that a prefix names.
pub fn directive_prefix(prefix: &[char]) -> (r: Option<DirectivePrefix>)
    ensures
        r == spec_directive_prefix(prefix@),
{
    if text_is(prefix, "bind") {
        Some(DirectivePrefix::Bind)
    } else if text_is(prefix, "on") {
        Some(DirectivePrefix::On)
    } else if text_is(prefix, "class") {
        Some(DirectivePrefix::Class)
    } else if text_is(prefix, "let") {
        Some(DirectivePrefix::Let)
    } else if text_is(prefix, "style") {
        Some(DirectivePrefix::Style)
    } else if text_is(prefix, "transition") {
        Some(DirectivePrefix::Transition)
    } else if text_is(prefix, "in") {
        Some(DirectivePrefix::In)
    } else if text_is(prefix, "out") {
        Some(DirectivePrefix::Out)
    } else if text_is(prefix, "animate") {
        Some(DirectivePrefix::Animate)
    } else if text_is(prefix, "use") {
        Some(DirectivePrefix::Use)
    } else {
        None
    }
}

/// The pieces of `name[i..]` split at `|`, after `cur` was read into the
/// current piece and the pieces `done` were finished.
pub open spec fn bar_pieces_from(name: Seq<char>, i: int, cur: Seq<char>, done: Seq<Seq<char>>) -> Seq<Seq<char>>
    decreases name.len() - i,
{
    if i < 0 || i >= name.len() {
        done.push(cur)
    } else if name[i] == '|' {
        bar_pieces_from(name, i + 1, Seq::empty(), done.push(cur))
    } else {
        bar_pieces_from(name, i + 1, cur.push(name[i]), done)
    }
}

/// Splits `name[from..]` at `|` into the directive name and its modifiers.
fn split_modifiers(name: &[char], from: usize) -> (r: (Vec<char>, Vec<Vec<char>>))
    requires
        from <= name@.len(),
    ensures
        ({
            let pieces = bar_pieces_from(name@, from as int, Seq::empty(), Seq::empty());
            &&& r.0@ == pieces[0]
            &&& r.1@.len() + 1 == pieces.len()
            &&& forall|k: int| 0 <= k < r.1@.len() ==> (#[trigger] r.1@[k])@ == pieces[k + 1]
        }),
{
    let ghost pieces = bar_pieces_from(name@, from as int, Seq::empty(), Seq::empty());
    let mut parts: Vec<Vec<char>> = Vec::new();
    let mut cur: Vec<char> = Vec::new();
    let ghost mut done: Seq<Seq<char>> = Seq::empty();
    let mut i = from;
    while i < name.len()
        invariant
            from <= i <= name@.len(),
            parts@.len() == done.len(),
            forall|k: int| 0 <= k < parts@.len() ==> (#[trigger] parts@[k])@ == done[k],
            bar_pieces_from(name@, i as int, cur@, done) == pieces,
        decreases name.len() - i,
    {
        if name[i] == '|' {
            proof {
                done = done.push(cur@);
            }
            parts.push(cur);
            cur = Vec::new();
        } else {
            cur.push(name[i]);
        }
        i += 1;
    }
    proof {
        done = done.push(cur@);
    }
    parts.push(cur);
    assert(done == pieces);
    let first = parts.remove(0);
    (first, parts)
}

/// The position of the first `:` in `name[i..]`.
pub open spec fn colon_from(name: Seq<char>, i: int) -> Option<int>
    decreases name.len() - i,
{
    if 0 <= i < name.len() {
        if name[i] == ':' {
            Some(i)
        } else {
            colon_from(name, i + 1)
        }
    } else {
        None
    }
}

/// Whether `r` is the directive of `kind` at `start..end` named `dname`.
pub open spec fn built_directive(r: Attribute, kind: DirectivePrefix, start: usize, end: usize, dname: Seq<char>) -> bool {
    match kind {
        DirectivePrefix::Style => r matches Attribute::StyleDirective(d) && d.start == start && d.end == end && d.name@
            == dname,
        DirectivePrefix::Transition | DirectivePrefix::In | DirectivePrefix::Out => r matches Attribute::TransitionDirective(
            d,
        ) && d.start == start && d.end == end && d.name@ == dname && d.intro == (kind != DirectivePrefix::Out)
            && d.outro == (kind != DirectivePrefix::In),
        DirectivePrefix::Bind => r matches Attribute::BindDirective(d) && d.start == start && d.end == end && d.name@
            == dname,
        DirectivePrefix::On => r matches Attribute::OnDirective(d) && d.start == start && d.end == end && d.name@
            == dname,
        DirectivePrefix::Class => r matches Attribute::ClassDirective(d) && d.start == start && d.end == end && d.name@
            == dname,
        DirectivePrefix::Let => r matches Attribute::LetDirective(d) && d.start == start && d.end == end && d.name@
            == dname,
        DirectivePrefix::Animate => r matches Attribute::AnimateDirective(d) && d.start == start && d.end == end
            && d.name@ == dname,
        DirectivePrefix::Use => r matches Attribute::UseDirective(d) && d.start == start && d.end == end && d.name@
            == dname,
    }
}

/// Builds the attribute for `name` with its value.
fn build_attribute(
    src: &[char],
    start: usize,
    end: usize,
    name_start: usize,
    name_end: usize,
    value: AttributeValueList,
    value_syntax: AttributeValueSyntax,
    error: Option<AttrError>,
) -> (r: Attribute)
    requires
        src@.len() < usize::MAX,
        start <= end <= src@.len(),
        name_start <= name_end <= src@.len(),
    ensures
        ({
            let nm = src@.subrange(name_start as int, name_end as int);
            let plain = r matches Attribute::Attribute(a) && a.start == start && a.end == end && a.name@ == nm
                && a.value == value && a.value_syntax == value_syntax && a.error == error;
            match colon_from(nm, 0) {
                Some(c) => match spec_directive_prefix(nm.subrange(0, c)) {
                    Some(kind) => built_directive(
                        r,
                        kind,
                        start,
                        end,
                        bar_pieces_from(nm, c + 1, Seq::empty(), Seq::empty())[0],
                    ),
                    None => plain,
                },
                None => plain,
            }
        }),
{
    let name = slice_chars(src, name_start, name_end);
    let name_loc = name_location(src, name_start, name_end);
    let mut colon: usize = 0;
    let mut found = false;
    while colon < name.len()
        invariant_except_break
            !found,
        invariant
            src@.len() < usize::MAX,
            colon <= name@.len(),
            colon_from(name@, colon as int) == colon_from(name@, 0),
        ensures
            colon <= name@.len(),
            found ==> colon < name@.len() && colon_from(name@, 0) == Some(colon as int),
            !found ==> colon_from(name@, 0) is None,
        decreases name.len() - colon,
    {
        if name[colon] == ':' {
            found = true;
            break;
        }
        colon += 1;
    }
    if found && colon < name.len() {
        let prefix = slice_chars(name.as_slice(), 0, colon);
        if let Some(kind) = directive_prefix(prefix.as_slice()) {
            let (dname, modifiers) = split_modifiers(name.as_slice(), colon + 1);
            if kind == DirectivePrefix::Style {
                return Attribute::StyleDirective(
                    StyleDirective { start, end, name: dname, name_loc, modifiers, value, value_syntax },
                );
            }
            let implicit = match value {
                AttributeValueList::Boolean(_) => true,
                _ => false,
            };
            let (expression, syntax, value_start) = if implicit {
                let e = if kind == DirectivePrefix::Bind || kind == DirectivePrefix::Class {
                    Expression(
                        make_identifier(copy_chars(dname.as_slice()), name_start + colon + 1, name_end),
                        ExpressionSyntax { parens: 0 },
                    )
                } else {
                    placeholder_expression(name_end, name_end)
                };
                (e, DirectiveValueSyntax::Implicit, name_end)
            } else {
                match directive_expression(value) {
                    Some((e, vs)) => (e, DirectiveValueSyntax::Expression, vs),
                    None => (placeholder_expression(name_end, end), DirectiveValueSyntax::Invalid, name_end),
                }
            };
            if kind == DirectivePrefix::Transition || kind == DirectivePrefix::In || kind
                == DirectivePrefix::Out {
                return Attribute::TransitionDirective(
                    TransitionDirective {
                        start,
                        end,
                        name: dname,
                        name_loc,
                        expression,
                        modifiers,
                        intro: kind != DirectivePrefix::Out,
                        outro: kind != DirectivePrefix::In,
                        value_syntax: syntax,
                        value_start,
                    },
                );
            }
            let d = DirectiveAttribute {
                start,
                end,
                name: dname,
                name_loc,
                expression,
                modifiers,
                value_syntax: syntax,
                value_start,
            };
            return match kind {
                DirectivePrefix::Bind => Attribute::BindDirective(d),
                DirectivePrefix::On => Attribute::OnDirective(d),
                DirectivePrefix::Class => Attribute::ClassDirective(d),
                DirectivePrefix::Let => Attribute::LetDirective(d),
                DirectivePrefix::Animate => Attribute::AnimateDirective(d),
                _ => Attribute::UseDirective(d),
            };
        }
    }
    Attribute::Attribute(NamedAttribute { start, end, name, name_loc, value, value_syntax, error })
}

/// Reads one attribute at `pos`.
fn parse_attribute(src: &[char], pos: usize, st: &mut ParseState) -> (r: (Option<Attribute>, usize))
    requires
        src@.len() < usize::MAX,
        pos < src@.len(),
    ensures
        pos < r.1 <= src@.len(),
        final(st).open@ == old(st).open@,
{
    proof {
        reveal_strlit("...");
        reveal_strlit("/>");
        reveal_strlit("@attach");
    }
    if src[pos] == '{' {
        let e = match find_expression_end(src, pos + 1) {
            Some(e) => e,
            None => {
                fail(st, ParseErrorKind::ExpectedTokenRightBrace, src.len(), src.len());
                return (None, src.len());
            },
        };
        let inner = skip_space(src, pos + 1);
        let inner = if inner > e { e } else { inner };
        if at(src, inner, "...") {
            let s3 = if e - inner >= 3 { inner + 3 } else { e };
            let expression = expression_from_range(src, s3, e, &mut st.errors);
            return (Some(Attribute::SpreadAttribute(SpreadAttribute { start: pos, end: e + 1, expression })), e + 1);
        }
        if at(src, inner, "@attach") {
            let s7 = if e - inner >= 7 { inner + 7 } else { e };
            let expression = expression_from_range(src, s7, e, &mut st.errors);
            return (Some(Attribute::AttachTag(AttachTag { start: pos, end: e + 1, expression })), e + 1);
        }
        let name_end = trim_end(src, inner, e);
        let expression = expression_from_range(src, pos + 1, e, &mut st.errors);
        let value = AttributeValueList::ExpressionTag(
            ExpressionTag { tag_type: ExpressionTagType::ExpressionTag, start: pos, end: e + 1, expression },
        );
        return (
            Some(Attribute::Attribute(NamedAttribute {
                start: pos,
                end: e + 1,
                name: slice_chars(src, inner, name_end),
                name_loc: name_location(src, inner, name_end),
                value,
                value_syntax: AttributeValueSyntax::Expression,
                error: None,
            })),
            e + 1,
        );
    }
    let ne = attribute_name_end(src, pos);
    if ne == pos {
        return (None, pos + 1);
    }
    let j = skip_space(src, ne);
    if j < src.len() && src[j] == '=' {
        let v = skip_space(src, j + 1);
        if v >= src.len() {
            fail(st, ParseErrorKind::UnexpectedEof, src.len(), src.len());
            return (None, src.len());
        }
        if src[v] == '>' || at(src, v, "/>") {
            let error = Some(AttrError { kind: AttrErrorKind::ExpectedValue, start: v, end: v });
            return (
                Some(build_attribute(src, pos, v, pos, ne, AttributeValueList::Boolean(true), AttributeValueSyntax::Boolean, error)),
                v,
            );
        }
        let (value, syntax, end, error) = read_attribute_value(src, v, st);
        let end = if end > v { end } else { v + 1 };
        return (Some(build_attribute(src, pos, end, pos, ne, value, syntax, error)), end);
    }
    if j < src.len() && (src[j] == '"' || src[j] == '\'') {
        let after = skip_string(src, j);
        let error = Some(AttrError { kind: AttrErrorKind::ExpectedEquals, start: j, end: j });
        return (
            Some(build_attribute(src, pos, ne, pos, ne, AttributeValueList::Boolean(true), AttributeValueSyntax::Boolean, error)),
            after,
        );
    }
    (
        Some(build_attribute(src, pos, ne, pos, ne, AttributeValueList::Boolean(true), AttributeValueSyntax::Boolean, None)),
        ne,
    )
}

/// Reads the attributes of a start tag from `pos`: the attributes, the position
/// after the tag, whether it closed itself, and whether the tag was complete.
fn parse_attributes(src: &[char], pos: usize, st: &mut ParseState) -> (r: (Vec<Attribute>, usize, bool, bool))
    requires
        src@.len() < usize::MAX,
        pos <= src@.len(),
    ensures
        pos <= r.1 <= src@.len(),
        r.3 ==> pos < r.1,
        final(st).open@ == old(st).open@,
{
    proof {
        reveal_strlit("/>");
    }
    let mut attrs: Vec<Attribute> = Vec::new();
    let mut i = pos;
    while i < src.len()
        invariant
            src@.len() < usize::MAX,
            pos <= i <= src@.len(),
            st.open@ == old(st).open@,
        decreases src.len() - i,
    {
        if st.halted {
            return (attrs, i, false, false);
        }
        let k = skip_space(src, i);
        if k >= src.len() {
            return (attrs, src.len(), false, false);
        }
        if src[k] == '>' {
            return (attrs, k + 1, false, true);
        }
        if at(src, k, "/>") {
            proof {
                reveal_strlit("/>");
            }
            return (attrs, k + 2, true, true);
        }
        if src[k] == '/' {
            i = k + 1;
        } else {
            let (attr, j) = parse_attribute(src, k, st);
            if let Some(a) = attr {
                attrs.push(a);
            }
            i = j;
        }
    }
    (attrs, src.len(), false, false)
}

/// The position of the first plain attribute named `this` among `attrs[i..]`.
pub open spec fn this_index_from(attrs: Seq<Attribute>, i: int) -> Option<int>
    decreases attrs.len() - i,
{
    if 0 <= i < attrs.len() {
        match attrs[i] {
            Attribute::Attribute(a) => if a.name@ == "this"@ {
                Some(i)
            } else {
                this_index_from(attrs, i + 1)
            },
            _ => this_index_from(attrs, i + 1),
        }
    } else {
        None
    }
}

/// The expression of the `this` attribute, taken out of the attributes.
fn take_this_attribute(attrs: &mut Vec<Attribute>) -> (r: Option<Expression>)
    ensures
        match this_index_from(old(attrs)@, 0) {
            Some(k) => final(attrs)@ == old(attrs)@.remove(k) && r == match old(attrs)@[k] {
                Attribute::Attribute(named) => match spec_directive_expression(named.value) {
                    Some((e, _)) => Some(e),
                    None => None,
                },
                _ => None,
            },
            None => final(attrs)@ == old(attrs)@ && r is None,
        },
{
    let ghost orig = attrs@;
    let mut i: usize = 0;
    while i < attrs.len()
        invariant
            i <= attrs@.len(),
            attrs@ == orig,
            old(attrs)@ == orig,
            this_index_from(orig, i as int) == this_index_from(orig, 0),
        decreases attrs.len() - i,
    {
        let is_this = match &attrs[i] {
            Attribute::Attribute(a) => text_is(a.name.as_slice(), "this"),
            _ => false,
        };
        if is_this {
            assert(this_index_from(orig, i as int) == Some(i as int));
            let a = attrs.remove(i);
            assert(a == orig[i as int]);
            assert(attrs@ == orig.remove(i as int));
            let r = match a {
                Attribute::Attribute(named) => match directive_expression(named.value) {
                    Some((e, _)) => Some(e),
                    None => None,
                },
                _ => None,
            };
            assert(r == match orig[i as int] {
                Attribute::Attribute(named) => match spec_directive_expression(named.value) {
                    Some((e, _)) => Some(e),
                    None => None,
                },
                _ => None,
            });
            return r;
        }
        i += 1;
    }
    None
}

/// The first plain attribute among `attrs[i..]` whose name is `name`.
pub open spec fn spec_named_attribute_from(attrs: Seq<Attribute>, i: int, name: Seq<char>) -> Option<NamedAttribute>
    decreases attrs.len() - i,
{
    if 0 <= i < attrs.len() {
        match attrs[i] {
            Attribute::Attribute(a) => if a.name@ == name {
                Some(a)
            } else {
                spec_named_attribute_from(attrs, i + 1, name)
            },
            _ => spec_named_attribute_from(attrs, i + 1, name),
        }
    } else {
        None
    }
}

/// The named attribute `name`, if the tag has one.
pub fn find_named_attribute<'a>(attrs: &'a Vec<Attribute>, name: &str) -> (r: Option<&'a NamedAttribute>)
    ensures
        r matches Some(a) ==> spec_named_attribute_from(attrs@, 0, name@) == Some(*a),
        r is None ==> spec_named_attribute_from(attrs@, 0, name@) is None,
{
    let mut i: usize = 0;
    while i < attrs.len()
        invariant
            i <= attrs@.len(),
            spec_named_attribute_from(attrs@, 0, name@) == spec_named_attribute_from(attrs@, i as int, name@),
        decreases attrs.len() - i,
    {
        match &attrs[i] {
            Attribute::Attribute(a) => {
                if text_is(a.name.as_slice(), name) {
                    return Some(a);
                }
            },
            _ => {},
        }
        i += 1;
    }
    None
}

/// Whether a script's attributes mark it as the module script.
pub open spec fn spec_script_is_module(attrs: Seq<Attribute>) -> bool {
    spec_named_attribute_from(attrs, 0, "module"@) is Some || (spec_named_attribute_from(attrs, 0, "context"@) matches Some(a)
        && spec_static_text(a.value) == Some("module"@))
}

/// Whether a script's attributes mark it as the module script.
fn script_is_module(attrs: &Vec<Attribute>) -> (r: bool)
    ensures
        r == spec_script_is_module(attrs@),
{
    if find_named_attribute(attrs, "module").is_some() {
        return true;
    }
    match find_named_attribute(attrs, "context") {
        Some(a) => match attribute_static_text(&a.value) {
            Some(t) => text_is(t.as_slice(), "module"),
            None => false,
        },
        None => false,
    }
}

/// A script is the module script when it has a `module` attribute, or when
/// its first `context` attribute is the static text `module`.
pub proof fn lemma_script_module(attrs: Seq<Attribute>)
    ensures
        spec_named_attribute_from(attrs, 0, "module"@) is Some ==> spec_script_is_module(attrs),
        (spec_named_attribute_from(attrs, 0, "context"@) matches Some(a) && spec_static_text(a.value) == Some("module"@))
            ==> spec_script_is_module(attrs),
        (spec_named_attribute_from(attrs, 0, "module"@) is None && !(spec_named_attribute_from(attrs, 0, "context"@) matches Some(a)
            && spec_static_text(a.value) == Some("module"@))) ==> !spec_script_is_module(attrs),
{
}

/// Whether a script's attributes ask for TypeScript: its first `lang`
/// attribute is the static text `ts` or `typescript`.
pub open spec fn spec_script_is_typescript(attrs: Seq<Attribute>) -> bool {
    match spec_named_attribute_from(attrs, 0, "lang"@) {
        Some(a) => match spec_static_text(a.value) {
            Some(t) => t == "ts"@ || t == "typescript"@,
            None => false,
        },
        None => false,
    }
}

/// A script is read as TypeScript exactly when its first `lang` attribute
/// has the static value `ts` or `typescript`; `lang="typescript"` counts as
/// much as `lang="ts"`, and any other value, a dynamic one, or no `lang`
/// leaves it JavaScript.
pub proof fn lemma_script_language(attrs: Seq<Attribute>)
    ensures
        (spec_named_attribute_from(attrs, 0, "lang"@) matches Some(a) && spec_static_text(a.value) == Some("typescript"@))
            ==> spec_script_is_typescript(attrs),
        (spec_named_attribute_from(attrs, 0, "lang"@) matches Some(a) && spec_static_text(a.value) == Some("ts"@))
            ==> spec_script_is_typescript(attrs),
        spec_script_is_typescript(attrs) ==> (spec_named_attribute_from(attrs, 0, "lang"@) matches Some(a) && (
        spec_static_text(a.value) == Some("ts"@) || spec_static_text(a.value) == Some("typescript"@))),
{
}

/// Whether a script's attributes ask for TypeScript.
fn script_is_typescript(attrs: &Vec<Attribute>) -> (r: bool)
    ensures
        r == spec_script_is_typescript(attrs@),
{
    match find_named_attribute(attrs, "lang") {
        Some(a) => match attribute_static_text(&a.value) {
            Some(t) => text_is(t.as_slice(), "ts") || text_is(t.as_slice(), "typescript"),
            None => false,
        },
        None => false,
    }
}

/// Reads a top-level `<script>` whose `<` is at `start`, its name ending at `name_end`.
pub(crate) fn parse_script(src: &[char], start: usize, name_end: usize, st: &mut ParseState) -> (r: (Option<Script>, usize))
    requires
        src@.len() < usize::MAX,
        start < name_end <= src@.len(),
    ensures
        start < r.1 <= src@.len(),
        final(st).open@ == old(st).open@,
        r.0 matches Some(sc) ==> sc.content_start <= sc.content_end <= src@.len() && (sc.content_end - sc.content_start
            <= (usize::MAX - 1) / 4 ==> match crate::json::spec_json_object(
            crate::js::oxc_parse(
                src@.subrange(sc.content_start as int, sc.content_end as int),
                spec_script_is_typescript(sc.attributes@),
            ).0,
            (sc.content_start, crate::json::spec_offset_bytes(src@.subrange(sc.content_start as int, sc.content_end as int))),
        ) {
            Some(v) => crate::json::value_view(crate::estree::EstreeValue::Object(sc.content)) == v,
            None => sc.content.fields@.len() == 0,
        }),
{
    proof {
        reveal_strlit("</script>");
    }
    let (attrs, j, self_closing, ok) = parse_attributes(src, name_end, st);
    if !ok {
        if !st.halted {
            fail(st, ParseErrorKind::UnexpectedEof, src.len(), src.len());
        }
        return (None, if j > start { j } else { src.len() });
    }
    let (content_start, content_end, end) = if self_closing {
        (j, j, j)
    } else {
        match find_str(src, j, "</script>") {
            Some(e) => {
                proof {
                    reveal_strlit("</script>");
                }
                (j, e, e + 9)
            },
            None => {
                fail(st, ParseErrorKind::ElementUnclosed { name: chars_of("script") }, start, start + 1);
                return (None, src.len());
            },
        }
    };
    let module = script_is_module(&attrs);
    let typescript = script_is_typescript(&attrs);
    let (content, _errors) = program_from_range(src, content_start, content_end, typescript);
    (
        Some(Script {
            script_type: ScriptType::Script,
            start,
            end,
            content_start,
            content_end,
            context: if module { ScriptContext::Module } else { ScriptContext::Default },
            content,
            attributes: attrs,
        }),
        end,
    )
}

/// Reads a top-level `<style>` whose `<` is at `start`, its name ending at `name_end`.
pub(crate) fn parse_style(src: &[char], start: usize, name_end: usize, st: &mut ParseState) -> (r: (Option<Css>, usize))
    requires
        src@.len() < usize::MAX,
        start < name_end <= src@.len(),
    ensures
        start < r.1 <= src@.len(),
        final(st).open@ == old(st).open@,
{
    proof {
        reveal_strlit("</style>");
    }
    let (attrs, j, _self_closing, ok) = parse_attributes(src, name_end, st);
    if !ok {
        if !st.halted {
            fail(st, ParseErrorKind::UnexpectedEof, src.len(), src.len());
        }
        return (None, if j > start { j } else { src.len() });
    }
    match find_str(src, j, "</style>") {
        Some(e) => {
            proof {
                reveal_strlit("</style>");
            }
            let children = crate::css_parser::parse_css_nodes(src, j, e);
            (
                Some(Css {
                    css_type: CssType::StyleSheet,
                    start,
                    end: e + 8,
                    attributes: attrs,
                    children,
                    content: CssContent { start: j, end: e, styles: slice_chars(src, j, e), comment: None },
                }),
                e + 8,
            )
        },
        None => {
            fail(st, ParseErrorKind::CssExpectedIdentifier, j, j);
            (None, src.len())
        },
    }
}

} // verus!

verus! {

/// Builds the node for an element named `name` (at `start..end`, name at `ns..ne`).
fn build_element(
    src: &[char],
    start: usize,
    end: usize,
    ns: usize,
    ne: usize,
    name: Vec<char>,
    attrs: Vec<Attribute>,
    self_closing: bool,
    has_end_tag: bool,
    fragment: Fragment,
    in_head: bool,
) -> (r: Node)
    requires
        src@.len() < usize::MAX,
        ns <= ne <= src@.len(),
    ensures
        (if name@ == "svelte:head"@ {
            r is SvelteHead
        } else if name@ == "svelte:body"@ {
            r is SvelteBody
        } else if name@ == "svelte:window"@ {
            r is SvelteWindow
        } else if name@ == "svelte:document"@ {
            r is SvelteDocument
        } else if name@ == "svelte:component"@ {
            r is SvelteComponent
        } else if name@ == "svelte:element"@ {
            r is SvelteElement
        } else if name@ == "svelte:self"@ {
            r is SvelteSelf
        } else if name@ == "svelte:fragment"@ {
            r is SvelteFragment
        } else if name@ == "svelte:boundary"@ {
            r is SvelteBoundary
        } else if name@ == "slot"@ {
            r is SlotElement
        } else if in_head && name@ == "title"@ {
            r is TitleElement
        } else if name@.len() > 0 && (('A' <= name@[0] <= 'Z') || (name@[0] as u32 > 0x7F && !name@.contains(':')
            && !name@.contains('-')) || (name@.contains('.') && !name@.contains(':'))) {
            r is Component
        } else {
            r matches Node::RegularElement(e) && e.self_closing == self_closing && e.has_end_tag == has_end_tag
        }),
        crate::ast::spec_element(&r) matches Some(el) && el.start == start && el.end == end && *el.name == name
            && *el.fragment == fragment,
{
    let name_loc = name_location(src, ns, ne);
    let mut attrs = attrs;
    if text_is(name.as_slice(), "svelte:head") {
        Node::SvelteHead(SvelteHead { start, end, name, name_loc, attributes: attrs, fragment })
    } else if text_is(name.as_slice(), "svelte:body") {
        Node::SvelteBody(SvelteBody { start, end, name, name_loc, attributes: attrs, fragment })
    } else if text_is(name.as_slice(), "svelte:window") {
        Node::SvelteWindow(SvelteWindow { start, end, name, name_loc, attributes: attrs, fragment })
    } else if text_is(name.as_slice(), "svelte:document") {
        Node::SvelteDocument(SvelteDocument { start, end, name, name_loc, attributes: attrs, fragment })
    } else if text_is(name.as_slice(), "svelte:component") {
        let expression = take_this_attribute(&mut attrs);
        Node::SvelteComponent(SvelteComponent { start, end, name, name_loc, attributes: attrs, fragment, expression })
    } else if text_is(name.as_slice(), "svelte:element") {
        let expression = take_this_attribute(&mut attrs);
        Node::SvelteElement(SvelteElement { start, end, name, name_loc, attributes: attrs, fragment, expression })
    } else if text_is(name.as_slice(), "svelte:self") {
        Node::SvelteSelf(SvelteSelf { start, end, name, name_loc, attributes: attrs, fragment })
    } else if text_is(name.as_slice(), "svelte:fragment") {
        Node::SvelteFragment(SvelteFragment { start, end, name, name_loc, attributes: attrs, fragment })
    } else if text_is(name.as_slice(), "svelte:boundary") {
        Node::SvelteBoundary(SvelteBoundary { start, end, name, name_loc, attributes: attrs, fragment })
    } else if text_is(name.as_slice(), "slot") {
        Node::SlotElement(SlotElement { start, end, name, name_loc, attributes: attrs, fragment })
    } else if in_head && text_is(name.as_slice(), "title") {
        Node::TitleElement(TitleElement { start, end, name, name_loc, attributes: attrs, fragment })
    } else if is_component_name(name.as_slice()) {
        Node::Component(Component { start, end, name, name_loc, attributes: attrs, fragment })
    } else {
        Node::RegularElement(
            RegularElement { start, end, name, name_loc, self_closing, has_end_tag, attributes: attrs, fragment },
        )
    }
}

/// The position after the `}` of a `{/name}` closing tag at `pos`, and whether it closes `kw`.
fn read_block_close(src: &[char], pos: usize, kw: &str, st: &mut ParseState) -> (r: usize)
    requires
        src@.len() < usize::MAX,
        pos + 2 <= src@.len(),
    ensures
        pos < r <= src@.len(),
        r == spec_block_close_end(src@, pos as int),
        final(st).open@ == old(st).open@,
{
    let we = word_end(src, pos + 2);
    let name = slice_chars(src, pos + 2, we);
    let k = skip_space(src, we);
    if !text_is(name.as_slice(), kw) {
        fail(st, ParseErrorKind::BlockUnclosed, pos, pos);
    }
    if k < src.len() && src[k] == '}' {
        k + 1
    } else {
        fail(st, ParseErrorKind::ExpectedTokenRightBrace, k, k);
        if k > pos { k } else { src.len() }
    }
}

/// Where a block's closing tag `{/name}` whose `{` is at `pos` ends: after its
/// `}`, or where a `}` was expected.
pub open spec fn spec_block_close_end(src: Seq<char>, pos: int) -> int {
    let k = crate::scan::space_end_from(src, crate::scan::word_end_from(src, pos + 2));
    if k < src.len() && src[k] == '}' {
        k + 1
    } else if k > pos {
        k
    } else {
        src.len() as int
    }
}

/// A fragment made of `nodes`.
fn fragment_of(nodes: Vec<Node>) -> (f: Fragment) {
    Fragment { fragment_type: FragmentType::Fragment, nodes }
}

/// Reads template nodes from `pos` until the end, a closing tag, `{:...}` or `{/...}`.
pub fn parse_fragment(src: &[char], pos: usize, st: &mut ParseState, root: bool) -> (r: (Vec<Node>, usize, Stop))
    requires
        src@.len() < usize::MAX,
        pos <= src@.len(),
    ensures
        pos <= r.1 <= src@.len(),
        final(st).open@ == old(st).open@,
        r.2 matches Stop::Continuation { start } ==> pos <= start && start + 2 <= src@.len(),
        r.2 matches Stop::BlockClose { start } ==> pos <= start && start + 2 <= src@.len(),
        r.2 matches Stop::CloseTag { start, after, .. } ==> pos <= start < after <= src@.len(),
    decreases src@.len() - pos, 3nat,
{
    proof {
        reveal_strlit("-->");
        reveal_strlit("<!--");
        reveal_strlit("</");
        reveal_strlit("{#");
        reveal_strlit("{/");
        reveal_strlit("{:");
        reveal_strlit("{@");
    }
    let mut nodes: Vec<Node> = Vec::new();
    let mut i = pos;
    while i < src.len()
        invariant
            src@.len() < usize::MAX,
            pos <= i <= src@.len(),
            st.open@ == old(st).open@,
        decreases src.len() - i,
    {
        proof {
            reveal_strlit("</");
            reveal_strlit("<!--");
            reveal_strlit("{:");
            reveal_strlit("{/");
            reveal_strlit("{#");
            reveal_strlit("{@");
            reveal_strlit("-->");
        }
        if st.halted {
            return (nodes, i, Stop::Eof);
        }
        let c = src[i];
        if c == '<' {
            if at(src, i, "</") {
                let ns = i + 2;
                let ne = tag_name_end(src, ns);
                let k = skip_space(src, ne);
                let after = if k < src.len() && src[k] == '>' { k + 1 } else { k };
                let after = if after > i { after } else { i + 1 };
                let after = if after <= src.len() { after } else { src.len() };
                return (nodes, i, Stop::CloseTag { start: i, name: slice_chars(src, ns, ne), after });
            }
            if at(src, i, "<!--") {
                match find_str(src, i + 4, "-->") {
                    Some(e) => {
                        proof {
                            reveal_strlit("-->");
                        }
                        nodes.push(Node::Comment(Comment { start: i, end: e + 3, data: slice_chars(src, i + 4, e) }));
                        i = e + 3;
                    },
                    None => {
                        fail(st, ParseErrorKind::ExpectedTokenCommentClose, src.len(), src.len());
                        return (nodes, src.len(), Stop::Eof);
                    },
                }
            } else {
                let (node, j) = parse_element(src, i, st, root);
                if let Some(n) = node {
                    nodes.push(n);
                }
                i = j;
            }
        } else if c == '{' {
            if at(src, i, "{:") {
                return (nodes, i, Stop::Continuation { start: i });
            }
            if at(src, i, "{/") {
                return (nodes, i, Stop::BlockClose { start: i });
            }
            let (node, j) = if at(src, i, "{#") {
                parse_block(src, i, st)
            } else if at(src, i, "{@") {
                parse_tag(src, i, st)
            } else {
                parse_expression_tag(src, i, st)
            };
            if let Some(n) = node {
                nodes.push(n);
            }
            i = j;
        } else {
            let mut j = i;
            while j < src.len() && src[j] != '<' && src[j] != '{'
                invariant
                    src@.len() < usize::MAX,
                    i <= j <= src@.len(),
                decreases src.len() - j,
            {
                j += 1;
            }
            let j = if j > i { j } else { i + 1 };
            let raw = slice_chars(src, i, j);
            let data = copy_chars(raw.as_slice());
            nodes.push(Node::Text(Text { start: i, end: j, raw, data }));
            i = j;
        }
    }
    (nodes, i, Stop::Eof)
}

/// Reads an element whose `<` is at `pos`.
fn parse_element(src: &[char], pos: usize, st: &mut ParseState, root: bool) -> (r: (Option<Node>, usize))
    requires
        src@.len() < usize::MAX,
        pos < src@.len(),
    ensures
        pos < r.1 <= src@.len(),
        final(st).open@ == old(st).open@,
    decreases src@.len() - pos, 2nat,
{
    let ns = pos + 1;
    let ne = tag_name_end(src, ns);
    if ne == ns {
        let raw = slice_chars(src, pos, pos + 1);
        let data = copy_chars(raw.as_slice());
        return (Some(Node::Text(Text { start: pos, end: pos + 1, raw, data })), pos + 1);
    }
    let name = slice_chars(src, ns, ne);
    if root && text_is(name.as_slice(), "script") {
        let (script, end) = parse_script(src, pos, ne, st);
        if let Some(s) = script {
            match s.context {
                ScriptContext::Module => {
                    if st.first_module.is_none() {
                        st.first_module = Some(pos);
                    }
                },
                ScriptContext::Default => {
                    if st.first_instance.is_none() {
                        st.first_instance = Some(pos);
                    }
                },
            }
            st.scripts.push(s);
        }
        return (None, end);
    }
    if root && text_is(name.as_slice(), "style") {
        let (style, end) = parse_style(src, pos, ne, st);
        if let Some(s) = style {
            if st.first_style.is_none() {
                st.first_style = Some(pos);
            }
            st.styles.push(s);
        }
        return (None, end);
    }
    let (attrs, j, self_closing, ok) = parse_attributes(src, ne, st);
    if !ok {
        if !st.halted {
            fail(st, ParseErrorKind::UnexpectedEof, src.len(), src.len());
        }
        return (None, src.len());
    }
    let in_head = innermost_open_is(st, "svelte:head");
    let void = is_void_element_name(name.as_slice());
    let (fragment, end, has_end_tag) = if self_closing || void {
        (Fragment::empty(), j, false)
    } else {
        st.open.push(copy_chars(name.as_slice()));
        let (children, k, stop) = parse_fragment(src, j, st, false);
        let _ = st.open.pop();
        proof {
            assert(st.open@ =~= old(st).open@);
        }
        let (end, closed) = match stop {
            Stop::CloseTag { start, name: close_name, after } => {
                if chars_eq(close_name.as_slice(), name.as_slice()) {
                    (after, true)
                } else if is_open(st, close_name.as_slice()) {
                    (if start > pos { start } else { after }, false)
                } else {
                    fail(st, ParseErrorKind::ElementInvalidClosingTag { name: close_name }, start, after);
                    (after, false)
                }
            },
            Stop::Continuation { start } => {
                fail(st, ParseErrorKind::BlockInvalidContinuationPlacement, start + 1, start + 1);
                (if k > pos { k } else { src.len() }, false)
            },
            Stop::BlockClose { start } => {
                fail(st, ParseErrorKind::ElementUnclosed { name: copy_chars(name.as_slice()) }, pos, pos + 1);
                (if k > pos { k } else { src.len() }, false)
            },
            Stop::Eof => {
                fail(st, ParseErrorKind::ElementUnclosed { name: copy_chars(name.as_slice()) }, pos, pos + 1);
                (src.len(), false)
            },
        };
        (fragment_of(children), end, closed)
    };
    if root && text_is(name.as_slice(), "svelte:options") {
        let runes = options_runes(&attrs);
        let custom_element = options_custom_element(&attrs);
        st.options = Some(Options { start: pos, end, attributes: attrs, fragment, custom_element, runes });
        return (None, end);
    }
    (Some(build_element(src, pos, end, ns, ne, name, attrs, self_closing, has_end_tag, fragment, in_head)), end)
}

/// The boolean an attribute value states: `true` for a bare attribute, the
/// value of a boolean literal written in braces, else nothing.
pub open spec fn spec_boolean_value(value: AttributeValueList) -> Option<bool> {
    match value {
        AttributeValueList::Boolean(b) => Some(b),
        AttributeValueList::ExpressionTag(tag) => if crate::estree::spec_type_is(tag.expression.0, "Literal"@) {
            match crate::estree::spec_field(tag.expression.0, "value"@) {
                Some(EstreeValue::Bool(b)) => Some(b),
                _ => None,
            }
        } else {
            None
        },
        _ => None,
    }
}

/// The boolean an attribute value states.
fn boolean_value(value: &AttributeValueList) -> (r: Option<bool>)
    ensures
        r == spec_boolean_value(*value),
{
    match value {
        AttributeValueList::Boolean(b) => Some(*b),
        AttributeValueList::ExpressionTag(tag) => {
            if type_is(&tag.expression.0, "Literal") {
                crate::estree::field_bool(&tag.expression.0, crate::estree::RawField::Value)
            } else {
                None
            }
        },
        _ => None,
    }
}

/// The value of the last `runes` option among `attrs[..i]` that states a boolean.
pub open spec fn runes_option_before(attrs: Seq<Attribute>, i: int) -> Option<bool>
    decreases i,
{
    if i <= 0 || i > attrs.len() {
        None
    } else {
        match attrs[i - 1] {
            Attribute::Attribute(a) => if a.name@ == "runes"@ && spec_boolean_value(a.value) is Some {
                spec_boolean_value(a.value)
            } else {
                runes_option_before(attrs, i - 1)
            },
            _ => runes_option_before(attrs, i - 1),
        }
    }
}

/// The runes mode that `<svelte:options>` states: the last `runes` attribute
/// that is bare or a boolean literal.
fn options_runes(attrs: &Vec<Attribute>) -> (r: Option<bool>)
    ensures
        r == runes_option_before(attrs@, attrs@.len() as int),
{
    let mut i = attrs.len();
    while i > 0
        invariant
            i <= attrs@.len(),
            runes_option_before(attrs@, attrs@.len() as int) == runes_option_before(attrs@, i as int),
        decreases i,
    {
        if let Attribute::Attribute(a) = &attrs[i - 1] {
            if text_is(a.name.as_slice(), "runes") {
                if let Some(b) = boolean_value(&a.value) {
                    return Some(b);
                }
            }
        }
        i -= 1;
    }
    None
}

/// The plain text of the first `customElement` attribute among `attrs[i..]`
/// whose value is plain text.
pub open spec fn custom_element_from(attrs: Seq<Attribute>, i: int) -> Option<Seq<char>>
    decreases attrs.len() - i,
{
    if 0 <= i < attrs.len() {
        match attrs[i] {
            Attribute::Attribute(a) => if a.name@ == "customElement"@ && spec_static_text(a.value) is Some {
                spec_static_text(a.value)
            } else {
                custom_element_from(attrs, i + 1)
            },
            _ => custom_element_from(attrs, i + 1),
        }
    } else {
        None
    }
}

/// The custom element tag that `<svelte:options>` states as plain text, if any.
fn options_custom_element(attrs: &Vec<Attribute>) -> (r: Option<crate::ast::CustomElement>)
    ensures
        match r {
            Some(ce) => custom_element_from(attrs@, 0) == Some(ce.tag@),
            None => custom_element_from(attrs@, 0) is None,
        },
{
    let mut i: usize = 0;
    while i < attrs.len()
        invariant
            i <= attrs@.len(),
            custom_element_from(attrs@, i as int) == custom_element_from(attrs@, 0),
        decreases attrs.len() - i,
    {
        if let Attribute::Attribute(a) = &attrs[i] {
            if text_is(a.name.as_slice(), "customElement") {
                if let Some(t) = attribute_static_text(&a.value) {
                    return Some(crate::ast::CustomElement { tag: copy_chars(t.as_slice()) });
                }
            }
        }
        i += 1;
    }
    None
}

/// Reads an expression tag `{...}` at `pos`.
fn parse_expression_tag(src: &[char], pos: usize, st: &mut ParseState) -> (r: (Option<Node>, usize))
    requires
        src@.len() < usize::MAX,
        pos < src@.len(),
    ensures
        pos < r.1 <= src@.len(),
        final(st).open@ == old(st).open@,
{
    match find_expression_end(src, pos + 1) {
        Some(e) => {
            let expression = expression_from_range(src, pos + 1, e, &mut st.errors);
            (
                Some(Node::ExpressionTag(ExpressionTag { tag_type: ExpressionTagType::ExpressionTag, start: pos, end: e + 1, expression })),
                e + 1,
            )
        },
        None => {
            fail(st, ParseErrorKind::ExpectedTokenRightBrace, src.len(), src.len());
            (None, src.len())
        },
    }
}

/// The tags `{@name ...}` that have a meaning of their own.
enum TagKeyword {
    Html,
    Debug,
    Const,
    Render,
    Other,
}

/// The keyword of a tag whose name starts at `ks`, read as a prefix of what
/// follows (so `{@htmlfoo}` is an `html` tag that lacks its white space), and
/// where it ends.
fn tag_keyword(src: &[char], ks: usize) -> (r: (TagKeyword, usize))
    requires
        src@.len() < usize::MAX,
        ks <= src@.len(),
    ensures
        ks <= r.1 <= src@.len(),
{
    proof {
        reveal_strlit("html");
        reveal_strlit("debug");
        reveal_strlit("const");
        reveal_strlit("render");
    }
    if at(src, ks, "html") {
        (TagKeyword::Html, ks + 4)
    } else if at(src, ks, "debug") {
        (TagKeyword::Debug, ks + 5)
    } else if at(src, ks, "const") {
        (TagKeyword::Const, ks + 5)
    } else if at(src, ks, "render") {
        (TagKeyword::Render, ks + 6)
    } else {
        (TagKeyword::Other, word_end(src, ks))
    }
}

/// Reads a tag `{@name ...}` at `pos`.
fn parse_tag(src: &[char], pos: usize, st: &mut ParseState) -> (r: (Option<Node>, usize))
    requires
        src@.len() < usize::MAX,
        pos + 2 <= src@.len(),
    ensures
        pos < r.1 <= src@.len(),
        final(st).open@ == old(st).open@,
{
    let ks = pos + 2;
    let (kw, ke) = tag_keyword(src, ks);
    let e = match find_expression_end(src, ke) {
        Some(e) => e,
        None => {
            fail(st, ParseErrorKind::ExpectedTokenRightBrace, src.len(), src.len());
            return (None, src.len());
        },
    };
    let needs_space = match kw {
        TagKeyword::Html | TagKeyword::Const | TagKeyword::Render => true,
        _ => false,
    };
    if needs_space && ke < e && !is_space(src[ke]) {
        fail(st, ParseErrorKind::ExpectedWhitespace, ke, ke);
        return (None, e + 1);
    }
    match kw {
        TagKeyword::Html => {
            let expression = expression_from_range(src, ke, e, &mut st.errors);
            (Some(Node::HtmlTag(HtmlTag { start: pos, end: e + 1, expression })), e + 1)
        },
        TagKeyword::Render => {
            let expression = expression_from_range(src, ke, e, &mut st.errors);
            (Some(Node::RenderTag(RenderTag { start: pos, end: e + 1, expression })), e + 1)
        },
        TagKeyword::Const => {
            let declaration = declaration_from_range(src, ks, e, &mut st.errors);
            (Some(Node::ConstTag(ConstTag { start: pos, end: e + 1, declaration })), e + 1)
        },
        TagKeyword::Debug => {
            let (arguments, identifiers) = debug_arguments(src, ke, e, st);
            (Some(Node::DebugTag(DebugTag { start: pos, end: e + 1, arguments, identifiers })), e + 1)
        },
        TagKeyword::Other => {
            let expression = expression_from_range(src, pos + 1, e, &mut st.errors);
            (
                Some(Node::ExpressionTag(ExpressionTag { tag_type: ExpressionTagType::ExpressionTag, start: pos, end: e + 1, expression })),
                e + 1,
            )
        },
    }
}

/// The arguments of `{@debug ...}` written at `start..end`, and those that are identifiers.
fn debug_arguments(src: &[char], start: usize, end: usize, st: &mut ParseState) -> (r: (Vec<Expression>, Vec<Identifier>))
    requires
        src@.len() < usize::MAX,
        start <= end <= src@.len(),
    ensures
        final(st).open@ == old(st).open@,
{
    let mut arguments: Vec<Expression> = Vec::new();
    let mut identifiers: Vec<Identifier> = Vec::new();
    let s = skip_space(src, start);
    if s >= end {
        return (arguments, identifiers);
    }
    let expression = expression_from_range(src, start, end, &mut st.errors);
    if type_is(&expression.0, "SequenceExpression") && !expression.is_parenthesized() {
        match crate::estree::take_array(expression.0, "expressions") {
            Some(items) => {
                let mut items = items;
                while items.len() > 0
                    decreases items.len(),
                {
                    match items.remove(0) {
                        EstreeValue::Object(n) => arguments.push(Expression(n, ExpressionSyntax { parens: 0 })),
                        _ => {},
                    }
                }
            },
            None => {},
        }
    } else {
        arguments.push(expression);
    }
    let mut i: usize = 0;
    while i < arguments.len()
        invariant
            src@.len() < usize::MAX,
            i <= arguments@.len(),
        decreases arguments.len() - i,
    {
        if let Some(name) = identifier_name(&arguments[i].0) {
            if let Some((s, e)) = node_span(&arguments[i].0) {
                identifiers.push(Identifier { start: s, end: e, name: copy_chars(name.as_slice()) });
            }
        }
        i += 1;
    }
    (arguments, identifiers)
}

} // verus!

verus! {

/// The end of a block header whose text starts at `pos`: the `}` that closes it,
/// or, when it is missing, the white space before a `<` that starts an element.
/// The second value tells whether the `}` was found.
fn block_header_end(src: &[char], pos: usize) -> (r: (usize, bool))
    requires
        src@.len() < usize::MAX,
        pos <= src@.len(),
    ensures
        pos <= r.0 <= src@.len(),
        r.1 ==> r.0 < src@.len() && src@[r.0 as int] == '}',
{
    let limit = match find_top_level(src, pos, src.len(), '<') {
        Some(l) => l,
        None => src.len(),
    };
    match find_expression_end(src, pos) {
        Some(e) => {
            if e < limit {
                return (e, true);
            }
        },
        None => {},
    }
    if limit < src.len() && limit > pos && is_space(src[limit - 1]) {
        (trim_end(src, pos, limit), false)
    } else {
        (src.len(), false)
    }
}

/// Reads a block `{#name ...}` at `pos`.
fn parse_block(src: &[char], pos: usize, st: &mut ParseState) -> (r: (Option<Node>, usize))
    requires
        src@.len() < usize::MAX,
        pos + 2 <= src@.len(),
    ensures
        pos < r.1 <= src@.len(),
        final(st).open@ == old(st).open@,
    decreases src@.len() - pos, 2nat,
{
    let ks = pos + 2;
    let ke = word_end(src, ks);
    let kw = slice_chars(src, ks, ke);
    if text_is(kw.as_slice(), "snippet") {
        return parse_snippet(src, pos, ke, st);
    }
    let (he, found) = block_header_end(src, ke);
    if !found {
        if he >= src.len() {
            fail(st, ParseErrorKind::ExpectedTokenRightBrace, src.len(), src.len());
            return (None, src.len());
        }
        st.errors.push(ParseError { kind: ParseErrorKind::ExpectedTokenRightBrace, start: he, end: he });
    }
    let body_start = if found { he + 1 } else { skip_space(src, he) };
    let body_start = if body_start > pos { body_start } else { pos + 1 };
    let body_start = if body_start <= src.len() { body_start } else { src.len() };
    if text_is(kw.as_slice(), "if") {
        let test = expression_from_range(src, ke, he, &mut st.errors);
        let (block, end) = parse_if_rest(src, body_start, st, test, pos, false);
        (Some(Node::IfBlock(block)), end)
    } else if text_is(kw.as_slice(), "each") {
        parse_each(src, pos, ke, he, body_start, st)
    } else if text_is(kw.as_slice(), "await") {
        parse_await(src, pos, ke, he, body_start, st)
    } else if text_is(kw.as_slice(), "key") {
        let expression = expression_from_range(src, ke, he, &mut st.errors);
        let (nodes, k, stop) = parse_fragment(src, body_start, st, false);
        let end = close_block(src, k, stop, "key", pos, st);
        (Some(Node::KeyBlock(KeyBlock { start: pos, end, expression, fragment: fragment_of(nodes) })), end)
    } else {
        fail(st, ParseErrorKind::BlockUnexpectedCharacter, ks, ks);
        (None, body_start)
    }
}

/// The end of a block after its last fragment stopped with `stop` at `k`.
fn close_block(src: &[char], k: usize, stop: Stop, kw: &str, start: usize, st: &mut ParseState) -> (r: usize)
    requires
        src@.len() < usize::MAX,
        k <= src@.len(),
        start < k,
        stop matches Stop::Continuation { start } ==> start + 2 <= src@.len(),
        stop matches Stop::BlockClose { start } ==> start + 2 <= src@.len(),
    ensures
        start < r <= src@.len(),
        final(st).open@ == old(st).open@,
        r == match stop {
            Stop::BlockClose { start: s } => if spec_block_close_end(src@, s as int) > start {
                spec_block_close_end(src@, s as int)
            } else {
                k as int
            },
            _ => k as int,
        },
{
    match stop {
        Stop::BlockClose { start: s } => {
            let r = read_block_close(src, s, kw, st);
            if r > start { r } else { k }
        },
        Stop::Continuation { start: s } => {
            fail(st, ParseErrorKind::BlockInvalidContinuationPlacement, s + 1, s + 1);
            k
        },
        _ => {
            fail(st, ParseErrorKind::BlockUnclosed, start, start + 1);
            k
        },
    }
}

/// Reads the rest of an `{#if}` (or `{:else if}`) block from its body at `pos`.
fn parse_if_rest(src: &[char], pos: usize, st: &mut ParseState, test: Expression, start: usize, elseif: bool) -> (r: (IfBlock, usize))
    requires
        src@.len() < usize::MAX,
        start < pos <= src@.len(),
    ensures
        pos <= r.1 <= src@.len(),
        start < r.1,
        final(st).open@ == old(st).open@,
    decreases src@.len() - pos, 4nat,
{
    proof {
        reveal_strlit("else");
        reveal_strlit("if");
    }
    let (nodes, k, stop) = parse_fragment(src, pos, st, false);
    let consequent = fragment_of(nodes);
    match stop {
        Stop::Continuation { start: s } => {
            let ws = skip_space(src, s + 2);
            if at(src, ws, "else") {
                let t = skip_space(src, ws + 4);
                if at(src, t, "if") && t + 2 < src.len() && is_space(src[t + 2]) {
                    let (he, found) = block_header_end(src, t + 2);
                    if !found {
                        fail(st, ParseErrorKind::ExpectedTokenRightBrace, he, he);
                        return (IfBlock { elseif, start, end: src.len(), test, consequent, alternate: None }, src.len());
                    }
                    let test2 = expression_from_range(src, t + 2, he, &mut st.errors);
                    let (inner, end) = parse_if_rest(src, he + 1, st, test2, s, true);
                    let end = if end >= pos { end } else { pos };
                    return (
                        IfBlock { elseif, start, end, test, consequent, alternate: Some(Box::new(Alternate::IfBlock(inner))) },
                        end,
                    );
                }
                if t < src.len() && src[t] == '}' {
                    let (alt_nodes, k2, stop2) = parse_fragment(src, t + 1, st, false);
                    let end = close_block(src, k2, stop2, "if", start, st);
                    let end = if end >= pos { end } else { pos };
                    return (
                        IfBlock {
                            elseif,
                            start,
                            end,
                            test,
                            consequent,
                            alternate: Some(Box::new(Alternate::Fragment(fragment_of(alt_nodes)))),
                        },
                        end,
                    );
                }
                fail(st, ParseErrorKind::ExpectedTokenRightBrace, t, t);
                (IfBlock { elseif, start, end: k, test, consequent, alternate: None }, k)
            } else {
                fail(st, ParseErrorKind::ExpectedTokenElse, s + 1, s + 1);
                (IfBlock { elseif, start, end: k, test, consequent, alternate: None }, k)
            }
        },
        _ => {
            let end = close_block(src, k, stop, "if", start, st);
            let end = if end >= pos { end } else { pos };
            (IfBlock { elseif, start, end, test, consequent, alternate: None }, end)
        },
    }
}

/// Reads an `{#each ...}` block whose header text is `hs..he`.
fn parse_each(src: &[char], pos: usize, hs: usize, he: usize, body_start: usize, st: &mut ParseState) -> (r: (Option<Node>, usize))
    requires
        src@.len() < usize::MAX,
        pos < body_start <= src@.len(),
        hs <= he <= src@.len(),
    ensures
        pos < r.1 <= src@.len(),
        final(st).open@ == old(st).open@,
    decreases src@.len() - pos, 1nat,
{
    proof {
        reveal_strlit("else");
    }
    let he_trim = trim_end(src, hs, he);
    let mut key: Option<Expression> = None;
    let mut context: Option<Expression> = None;
    let mut index: Option<Vec<char>> = None;
    let mut invalid_key_without_as = false;
    let (expression, has_as) = match find_as_keyword(src, hs, he) {
        Some(a) => {
            let expression = expression_from_range(src, hs, a, &mut st.errors);
            let mut ctx_end = he_trim;
            if a + 2 < he_trim && src[he_trim - 1] == ')' {
                if let Some(open) = find_last_top_level(src, a + 2, he_trim, '(') {
                    key = Some(expression_from_range(src, open + 1, he_trim - 1, &mut st.errors));
                    ctx_end = open;
                }
            }
            let ctx_start = a + 2;
            if ctx_start <= ctx_end {
                match find_top_level(src, ctx_start, ctx_end, ',') {
                    Some(comma) => {
                        let is = skip_space(src, comma + 1);
                        let is = if is > ctx_end { ctx_end } else { is };
                        let ie = trim_end(src, is, ctx_end);
                        index = Some(slice_chars(src, is, ie));
                        context = pattern_from_range(src, ctx_start, comma, &mut st.errors);
                    },
                    None => {
                        context = pattern_from_range(src, ctx_start, ctx_end, &mut st.errors);
                    },
                }
            }
            (expression, true)
        },
        None => {
            let mut expr_end = he_trim;
            if hs < he_trim && src[he_trim - 1] == ')' {
                if let Some(open) = find_last_top_level(src, hs, he_trim, '(') {
                    if open > hs && is_space(src[open - 1]) {
                        key = Some(expression_from_range(src, open + 1, he_trim - 1, &mut st.errors));
                        invalid_key_without_as = true;
                        expr_end = open;
                    }
                }
            }
            (expression_from_range(src, hs, expr_end, &mut st.errors), false)
        },
    };
    let (nodes, k, stop) = parse_fragment(src, body_start, st, false);
    let body = fragment_of(nodes);
    let (fallback, end) = match stop {
        Stop::Continuation { start: s } => {
            let ws = skip_space(src, s + 2);
            let t = if at(src, ws, "else") { skip_space(src, ws + 4) } else { ws };
            if at(src, ws, "else") && t < src.len() && src[t] == '}' {
                let (alt, k2, stop2) = parse_fragment(src, t + 1, st, false);
                let end = close_block(src, k2, stop2, "each", pos, st);
                (Some(fragment_of(alt)), end)
            } else {
                fail(st, ParseErrorKind::BlockInvalidContinuationPlacement, s + 1, s + 1);
                (None, k)
            }
        },
        _ => (None, close_block(src, k, stop, "each", pos, st)),
    };
    let end = if end > pos { end } else { body_start };
    (
        Some(Node::EachBlock(EachBlock {
            start: pos,
            end,
            expression,
            body,
            has_as_clause: has_as,
            invalid_key_without_as,
            context,
            context_error: None,
            index,
            key,
            fallback,
        })),
        end,
    )
}

/// Where the search for the word `kw` from `i` stops: each space at nesting
/// depth zero in `i..end` is tried in turn, and the word found just after one
/// counts when it is a whole word of letters followed by white space, `}` or `end`.
pub open spec fn keyword_from(src: Seq<char>, i: int, end: int, kw: &str) -> Option<int>
    decreases end - i,
{
    if i < 0 || i >= end {
        None
    } else {
        match crate::scan::top_level_from(src, i, end, ' ', 0) {
            Some(s) => if i <= s < end {
                let k = s + 1;
                let w = crate::scan::word_end_from(src, k);
                if k < end && crate::text::spec_at(src, k, kw@) && w > k && w - k == (
                kw.spec_bytes().len() as usize) && (w >= end || crate::text::spec_is_space(src[w])
                    || src[w] == '}') {
                    Some(k)
                } else {
                    keyword_from(src, s + 1, end, kw)
                }
            } else {
                None
            },
            None => None,
        }
    }
}

/// The position of the word `kw` at nesting depth zero in `pos..end`, surrounded by white space.
fn find_keyword(src: &[char], pos: usize, end: usize, kw: &str) -> (r: Option<usize>)
    requires
        src@.len() < usize::MAX,
        pos <= end <= src@.len(),
    ensures
        r matches Some(k) ==> pos < k < end,
        match r {
            Some(k) => keyword_from(src@, pos as int, end as int, kw) == Some(k as int),
            None => keyword_from(src@, pos as int, end as int, kw) is None,
        },
{
    let mut i = pos;
    while i < end
        invariant
            src@.len() < usize::MAX,
            pos <= i <= end <= src@.len(),
            keyword_from(src@, i as int, end as int, kw) == keyword_from(src@, pos as int, end as int, kw),
        decreases end - i,
    {
        match find_top_level(src, i, end, ' ') {
            Some(s) => {
                let k = s + 1;
                if k < end && at(src, k, kw) {
                    let w = word_end(src, k);
                    if w > k && w - k == kw.len() && (w >= end || is_space(src[w]) || src[w] == '}') {
                        return Some(k);
                    }
                }
                i = s + 1;
            },
            None => {
                i = end;
            },
        }
    }
    None
}

/// Reads an `{#await ...}` block whose header text is `hs..he`.
fn parse_await(src: &[char], pos: usize, hs: usize, he: usize, body_start: usize, st: &mut ParseState) -> (r: (Option<Node>, usize))
    requires
        src@.len() < usize::MAX,
        pos < body_start <= src@.len(),
        hs <= he <= src@.len(),
    ensures
        pos < r.1 <= src@.len(),
        final(st).open@ == old(st).open@,
    decreases src@.len() - pos, 1nat,
{
    proof {
        reveal_strlit("catch");
        reveal_strlit("then");
    }
    let mut value: Option<Expression> = None;
    let mut error: Option<Expression> = None;
    let mut pending: Option<Fragment> = None;
    let mut then_branch: Option<Fragment> = None;
    let mut catch: Option<Fragment> = None;
    let then_kw = find_keyword(src, hs, he, "then");
    let catch_kw = find_keyword(src, hs, he, "catch");
    let (expression, mut branch) = match then_kw {
        Some(t) => {
            value = pattern_from_range(src, if he - t >= 4 { t + 4 } else { he }, he, &mut st.errors);
            (expression_from_range(src, hs, t, &mut st.errors), 1u8)
        },
        None => match catch_kw {
            Some(c) => {
                error = pattern_from_range(src, if he - c >= 5 { c + 5 } else { he }, he, &mut st.errors);
                (expression_from_range(src, hs, c, &mut st.errors), 2u8)
            },
            None => (expression_from_range(src, hs, he, &mut st.errors), 0u8),
        },
    };
    let mut i = body_start;
    while i < src.len()
        invariant
            src@.len() < usize::MAX,
            pos < body_start <= i <= src@.len(),
            st.open@ == old(st).open@,
        decreases src.len() - i,
    {
        let (nodes, k, stop) = parse_fragment(src, i, st, false);
        let f = fragment_of(nodes);
        if branch == 0 {
            pending = Some(f);
        } else if branch == 1 {
            then_branch = Some(f);
        } else {
            catch = Some(f);
        }
        match stop {
            Stop::Continuation { start: s } => {
                let ws = skip_space(src, s + 2);
                let (he2, found) = block_header_end(src, ws);
                if !found {
                    fail(st, ParseErrorKind::ExpectedTokenRightBrace, he2, he2);
                    i = src.len();
                } else if at(src, ws, "then") {
                    value = pattern_from_range(src, if he2 - ws >= 4 { ws + 4 } else { he2 }, he2, &mut st.errors);
                    branch = 1;
                    i = if he2 + 1 > i { he2 + 1 } else { src.len() };
                } else if at(src, ws, "catch") {
                    error = pattern_from_range(src, if he2 - ws >= 5 { ws + 5 } else { he2 }, he2, &mut st.errors);
                    branch = 2;
                    i = if he2 + 1 > i { he2 + 1 } else { src.len() };
                } else {
                    fail(st, ParseErrorKind::ExpectedTokenAwaitBranch, s + 1, s + 1);
                    i = src.len();
                }
            },
            _ => {
                let end = close_block(src, k, stop, "await", pos, st);
                return (
                    Some(Node::AwaitBlock(AwaitBlock { start: pos, end, expression, value, error, pending, then_branch, catch })),
                    end,
                );
            },
        }
    }
    (
        Some(Node::AwaitBlock(AwaitBlock { start: pos, end: src.len(), expression, value, error, pending, then_branch, catch })),
        src.len(),
    )
}

/// Whether a block or tag opens at `k`: a `{` followed by `#`, `:`, `/` or `@`.
pub open spec fn block_tag_at(src: Seq<char>, k: int) -> bool {
    0 <= k && k + 1 < src.len() && src[k] == '{' && (src[k + 1] == '#' || src[k + 1] == ':'
        || src[k + 1] == '/' || src[k + 1] == '@')
}

/// The first position at or after `pos` where a block or tag opens: a `{`
/// followed by `#`, `:`, `/` or `@`.
fn find_block_tag(src: &[char], pos: usize) -> (r: Option<usize>)
    requires
        src@.len() < usize::MAX,
        pos <= src@.len(),
    ensures
        r matches Some(k) ==> pos <= k && k + 1 < src@.len() && src@[k as int] == '{',
        match r {
            Some(k) => block_tag_at(src@, k as int) && forall|m: int| pos <= m < k ==> !block_tag_at(src@, m),
            None => forall|m: int| pos <= m && m + 1 < src@.len() ==> !block_tag_at(src@, m),
        },
{
    let mut k = pos;
    while k + 1 < src.len()
        invariant
            src@.len() < usize::MAX,
            pos <= k <= src@.len(),
            forall|m: int| pos <= m < k ==> !block_tag_at(src@, m),
        decreases src.len() - k,
    {
        if src[k] == '{' {
            let c = src[k + 1];
            if c == '#' || c == ':' || c == '/' || c == '@' {
                return Some(k);
            }
        }
        k += 1;
    }
    None
}

/// Reads a `{#snippet name(params)}` block whose name starts after `hs`.
fn parse_snippet(src: &[char], pos: usize, hs: usize, st: &mut ParseState) -> (r: (Option<Node>, usize))
    requires
        src@.len() < usize::MAX,
        pos < hs <= src@.len(),
    ensures
        pos < r.1 <= src@.len(),
        final(st).open@ == old(st).open@,
    decreases src@.len() - pos, 1nat,
{
    proof {
        reveal_strlit(">");
    }
    let ns = skip_space(src, hs);
    let mut ne = ns;
    while ne < src.len() && src[ne] != '(' && src[ne] != '<' && src[ne] != '}' && !is_space(src[ne])
        && src[ne] != '{'
        invariant
            src@.len() < usize::MAX,
            ns <= ne <= src@.len(),
        decreases src.len() - ne,
    {
        ne += 1;
    }
    let name = slice_chars(src, ns, ne);
    let expression = Expression(make_identifier(name, ns, ne), ExpressionSyntax { parens: 0 });
    let mut i = ne;
    let mut type_params: Option<Vec<char>> = None;
    if i < src.len() && src[i] == '<' {
        match find_str(src, i + 1, ">") {
            Some(g) => {
                type_params = Some(slice_chars(src, i + 1, g));
                i = g + 1;
            },
            None => {},
        }
    }
    let i = skip_space(src, i);
    let mut header_error: Option<SnippetHeaderError> = None;
    let mut parameters: Vec<Expression> = Vec::new();
    let mut body_start = i;
    if i < src.len() && src[i] == '(' {
        let limit = match find_block_tag(src, i + 1) {
            Some(l) => l,
            None => src.len(),
        };
        match find_closing_paren(src, i + 1, limit) {
            Some(close) => {
                parameters = params_from_range(src, i + 1, close, &mut st.errors);
                let after = skip_space(src, close + 1);
                if after < src.len() && src[after] == '}' {
                    body_start = after + 1;
                } else {
                    header_error = Some(SnippetHeaderError { kind: SnippetHeaderErrorKind::ExpectedRightBrace, start: after, end: after });
                    body_start = after;
                }
            },
            None => {
                header_error = Some(SnippetHeaderError { kind: SnippetHeaderErrorKind::ExpectedRightParen, start: limit, end: limit });
                body_start = limit;
            },
        }
    } else if i < src.len() && src[i] == '}' {
        body_start = i + 1;
    } else {
        header_error = Some(SnippetHeaderError { kind: SnippetHeaderErrorKind::ExpectedRightParen, start: i, end: i });
    }
    let body_start = if body_start > pos { body_start } else { pos + 1 };
    let body_start = if body_start <= src.len() { body_start } else { src.len() };
    let (nodes, k, stop) = parse_fragment(src, body_start, st, false);
    let k = if k > pos { k } else { body_start };
    let end = close_block(src, k, stop, "snippet", pos, st);
    (
        Some(Node::SnippetBlock(SnippetBlock { start: pos, end, expression, type_params, parameters, body: fragment_of(nodes), header_error })),
        end,
    )
}

} // verus!
