//! Checks of a component's style sheet: syntax errors that lightningcss
//! reports, and the rules of `:global`, nesting selectors, combinators and
//! empty declarations.
use vstd::prelude::*;

use lightningcss::error::{ParserError, SelectorError};
use lightningcss::properties::custom::Token;
use lightningcss::stylesheet::{ParserOptions, StyleSheet};

use crate::ast::{
    Css, CssBlock, CssBlockChild, CssComplexSelector, CssDeclaration, CssNameSelector, CssNode, CssPseudoClassSelector,
    CssRelativeSelector, CssRule, CssSelectorList, CssSimpleSelector, Root,
};
use crate::diagnostics::{
    compile_error_custom, compile_error_with_range, first_error, kind_error_view, option_error_view, CompileError,
    CompilerDiagnosticKind, ErrorView,
};
use crate::text::{chars_of, spec_at, text_is};

verus! {

/// The kinds of lightningcss parse errors that the compiler tells apart.
#[derive(Debug, Clone, Copy, PartialEq, Eq, Structural)]
pub enum CssProblem {
    EndOfInput,
    BadString,
    InvalidSelector,
    Other,
}

/// A lightningcss parse error: its kind, and its line (from 0) and column
/// (from 1) when it has a location.
#[derive(Debug, Clone, Copy)]
pub struct CssSyntaxError {
    pub problem: CssProblem,
    pub location: Option<(u32, u32)>,
}

/// What lightningcss's `StyleSheet::parse`, with default options, reports
/// for a style sheet: `None` when it parses.
pub uninterp spec fn lightningcss_parse_outcome(content: Seq<char>) -> Option<CssSyntaxError>;

/// lightningcss's `StyleSheet::parse` with default options on `content`.
/// The contract names the outcome: no error, or the error's kind and location.
#[verifier::external_body]
fn lightningcss_syntax_error(content: &[char]) -> (r: Option<CssSyntaxError>)
    ensures
        r == lightningcss_parse_outcome(content@),
{
    let text: String = content.iter().collect();
    let e = StyleSheet::parse(&text, ParserOptions::default()).err()?;
    let problem = match &e.kind {
        ParserError::EndOfInput => CssProblem::EndOfInput,
        ParserError::UnexpectedToken(Token::BadString(_) | Token::BadUrl(_)) => CssProblem::BadString,
        ParserError::SelectorError(SelectorError::DanglingCombinator | SelectorError::EmptySelector) => CssProblem::InvalidSelector,
        _ => CssProblem::Other,
    };
    Some(CssSyntaxError { problem, location: e.loc.map(|l| (l.line, l.column)) })
}

/// Where the line `lines` lines below the one starting at `from` starts, if
/// `content` has that many more lines.
pub open spec fn line_start_after(content: Seq<char>, lines: int, from: int) -> Option<int>
    decreases lines,
{
    if lines <= 0 {
        Some(from)
    } else {
        let k = crate::scan::line_end_from(content, from);
        if k >= content.len() {
            None
        } else {
            line_start_after(content, lines - 1, k + 1)
        }
    }
}

/// The offset `remaining` characters after `offset`, stopping at the end
/// of its line.
pub open spec fn column_offset(content: Seq<char>, offset: int, remaining: int) -> int
    decreases remaining,
{
    if remaining <= 0 {
        offset
    } else if offset >= content.len() {
        content.len() as int
    } else if content[offset] == '\n' {
        offset
    } else {
        column_offset(content, offset + 1, remaining - 1)
    }
}

/// The offset in `content` of a line (from 0) and column (from 1).
pub open spec fn spec_css_error_offset(content: Seq<char>, line: int, column: int) -> int {
    match line_start_after(content, line, 0) {
        Some(o) => column_offset(
            content,
            o,
            if column > 0 {
                column - 1
            } else {
                0
            },
        ),
        None => content.len() as int,
    }
}

/// The offset in `content` of a line (from 0) and column (from 1), or the
/// end of `content` when there is no such line; a column past the end of
/// its line gives the line's end.
pub fn css_error_offset(content: &[char], line: u32, column: u32) -> (r: usize)
    ensures
        r <= content@.len(),
        r == spec_css_error_offset(content@, line as int, column as int),
{
    let mut offset: usize = 0;
    let mut l: u32 = 0;
    while l < line
        invariant
            offset <= content@.len(),
            l <= line,
            line_start_after(content@, line - l, offset as int) == line_start_after(content@, line as int, 0),
        decreases line - l,
    {
        let mut k = offset;
        while k < content.len() && content[k] != '\n'
            invariant
                offset <= k <= content@.len(),
                crate::scan::line_end_from(content@, k as int) == crate::scan::line_end_from(content@, offset as int),
            decreases content.len() - k,
        {
            k += 1;
        }
        if k >= content.len() {
            return content.len();
        }
        offset = k + 1;
        l += 1;
    }
    let mut remaining: u32 = if column > 0 { column - 1 } else { 0 };
    while remaining > 0
        invariant
            offset <= content@.len(),
            column_offset(content@, offset as int, remaining as int) == spec_css_error_offset(
                content@,
                line as int,
                column as int,
            ),
        decreases remaining,
    {
        if offset >= content.len() {
            return content.len();
        }
        if content[offset] == '\n' {
            return offset;
        }
        offset += 1;
        remaining -= 1;
    }
    offset
}

/// The range of a simple selector.
pub open spec fn spec_simple_selector_span(selector: CssSimpleSelector) -> (usize, usize) {
    match selector {
        CssSimpleSelector::TypeSelector(s) | CssSimpleSelector::IdSelector(s) | CssSimpleSelector::ClassSelector(s)
        | CssSimpleSelector::PseudoElementSelector(s) | CssSimpleSelector::NestingSelector(s) => (s.start, s.end),
        CssSimpleSelector::PseudoClassSelector(s) => (s.start, s.end),
        CssSimpleSelector::AttributeSelector(s) => (s.start, s.end),
        CssSimpleSelector::Nth(s) | CssSimpleSelector::Percentage(s) => (s.start, s.end),
    }
}

/// The range of a simple selector.
pub fn css_simple_selector_span(selector: &CssSimpleSelector) -> (r: (usize, usize))
    ensures
        r == spec_simple_selector_span(*selector),
{
    match selector {
        CssSimpleSelector::TypeSelector(s) | CssSimpleSelector::IdSelector(s) | CssSimpleSelector::ClassSelector(s)
        | CssSimpleSelector::PseudoElementSelector(s) | CssSimpleSelector::NestingSelector(s) => (s.start, s.end),
        CssSimpleSelector::PseudoClassSelector(s) => (s.start, s.end),
        CssSimpleSelector::AttributeSelector(s) => (s.start, s.end),
        CssSimpleSelector::Nth(s) | CssSimpleSelector::Percentage(s) => (s.start, s.end),
    }
}

/// Whether a simple selector is `:global(...)` with arguments.
pub open spec fn spec_global_function(selector: CssSimpleSelector) -> bool {
    selector matches CssSimpleSelector::PseudoClassSelector(p) && p.name@ == "global"@ && p.args is Some
}

/// The index of the first `:global(...)` with arguments among `selectors[i..]`.
pub open spec fn global_function_from(selectors: Seq<CssSimpleSelector>, i: int) -> Option<int>
    decreases selectors.len() - i,
{
    if 0 <= i < selectors.len() {
        if spec_global_function(selectors[i]) {
            Some(i)
        } else {
            global_function_from(selectors, i + 1)
        }
    } else {
        None
    }
}

/// The first `:global(...)` with arguments in a compound selector, with its index.
pub fn find_global_selector_in_relative(relative: &CssRelativeSelector) -> (r: Option<(usize, &CssPseudoClassSelector)>)
    ensures
        r matches Some((i, _)) ==> i < relative.selectors@.len(),
        match r {
            Some((i, p)) => global_function_from(relative.selectors@, 0) == Some(i as int)
                && relative.selectors@[i as int] == CssSimpleSelector::PseudoClassSelector(*p),
            None => global_function_from(relative.selectors@, 0) is None,
        },
{
    let mut i: usize = 0;
    while i < relative.selectors.len()
        invariant
            i <= relative.selectors@.len(),
            global_function_from(relative.selectors@, 0) == global_function_from(relative.selectors@, i as int),
        decreases relative.selectors.len() - i,
    {
        if let CssSimpleSelector::PseudoClassSelector(p) = &relative.selectors[i] {
            if text_is(p.name.as_slice(), "global") && p.args.is_some() {
                return Some((i, p));
            }
        }
        i += 1;
    }
    None
}

/// Whether a compound selector starts with `:global`.
pub open spec fn spec_global_relative(relative: CssRelativeSelector) -> bool {
    relative.selectors@.len() > 0 && (relative.selectors@[0] matches CssSimpleSelector::PseudoClassSelector(p)
        && p.name@ == "global"@)
}

/// Whether a compound selector starts with `:global`.
pub fn is_global_relative_selector(relative: &CssRelativeSelector) -> (r: bool)
    ensures
        r ==> relative.selectors@.len() > 0,
        r == spec_global_relative(*relative),
{
    if relative.selectors.len() == 0 {
        return false;
    }
    match &relative.selectors[0] {
        CssSimpleSelector::PseudoClassSelector(p) => text_is(p.name.as_slice(), "global"),
        _ => false,
    }
}

/// Whether a compound selector is a `:global(...)` alone.
pub open spec fn spec_pure_global_function(relative: CssRelativeSelector) -> bool {
    global_function_from(relative.selectors@, 0) == Some(0int) && relative.selectors@.len() == 1
}

/// Whether a compound selector is a `:global(...)` alone.
pub fn is_pure_global_function_relative(relative: &CssRelativeSelector) -> (r: bool)
    ensures
        r == spec_pure_global_function(*relative),
{
    match find_global_selector_in_relative(relative) {
        Some((0, _)) => relative.selectors.len() == 1,
        _ => false,
    }
}

/// Whether compound selector `index` stands between local compound selectors
/// on both sides: some compound before it and some after it are not a
/// `:global(...)` alone.
pub open spec fn spec_in_local_middle(relatives: Seq<CssRelativeSelector>, index: int) -> bool {
    (exists|i: int| 0 <= i < index && !spec_pure_global_function(#[trigger] relatives[i])) && (exists|j: int|
        index < j < relatives.len() && !spec_pure_global_function(#[trigger] relatives[j]))
}

/// Whether compound selector `index` stands between local compound selectors
/// on both sides.
pub fn pure_global_function_is_in_local_middle(relatives: &Vec<CssRelativeSelector>, index: usize) -> (r: bool)
    requires
        index < relatives@.len(),
    ensures
        r == spec_in_local_middle(relatives@, index as int),
{
    let mut before = false;
    let mut i: usize = 0;
    while i < index
        invariant
            i <= index < relatives@.len(),
            before == exists|k: int| 0 <= k < i && !spec_pure_global_function(#[trigger] relatives@[k]),
        decreases index - i,
    {
        if !is_pure_global_function_relative(&relatives[i]) {
            before = true;
        }
        i += 1;
    }
    let mut after = false;
    let n = relatives.len();
    let mut j: usize = index + 1;
    while j < relatives.len()
        invariant
            index < j <= relatives@.len(),
            before == exists|k: int| 0 <= k < index && !spec_pure_global_function(#[trigger] relatives@[k]),
            after == exists|k: int| index < k < j && !spec_pure_global_function(#[trigger] relatives@[k]),
        decreases relatives.len() - j,
    {
        if !is_pure_global_function_relative(&relatives[j]) {
            after = true;
        }
        j += 1;
    }
    before && after
}

/// The first type selector among `selectors[i..]`.
pub open spec fn type_selector_from(selectors: Seq<CssSimpleSelector>, i: int) -> Option<CssNameSelector>
    decreases selectors.len() - i,
{
    if 0 <= i < selectors.len() {
        match selectors[i] {
            CssSimpleSelector::TypeSelector(t) => Some(t),
            _ => type_selector_from(selectors, i + 1),
        }
    } else {
        None
    }
}

/// The first type selector of a compound selector from `start` on.
pub fn first_type_selector_after(relative: &CssRelativeSelector, start: usize) -> (r: Option<&CssNameSelector>)
    ensures
        match r {
            Some(t) => type_selector_from(relative.selectors@, start as int) == Some(*t),
            None => type_selector_from(relative.selectors@, start as int) is None,
        },
{
    let mut i = start;
    while i < relative.selectors.len()
        invariant
            start <= i,
            type_selector_from(relative.selectors@, start as int) == type_selector_from(relative.selectors@, i as int),
        decreases relative.selectors.len() - i,
    {
        if let CssSimpleSelector::TypeSelector(s) = &relative.selectors[i] {
            return Some(s);
        }
        i += 1;
    }
    None
}

/// Whether every character of `s` is Unicode white space.
fn blank(s: &Vec<char>) -> (r: bool)
    ensures
        r == crate::template::spec_blank(s@),
{
    crate::template::is_blank(s.as_slice())
}

/// The index of the first character of `s` from `i` on that is not white space.
pub open spec fn skip_white_space(s: Seq<char>, i: int) -> int
    decreases s.len() - i,
{
    if 0 <= i < s.len() && crate::css_parser::spec_is_white_space(s[i]) {
        skip_white_space(s, i + 1)
    } else {
        i
    }
}

/// Whether a declaration is a custom property `--name` with an empty value:
/// its value is blank and its property, past leading white space, starts
/// with `--`.
pub open spec fn spec_empty_custom_property(declaration: CssDeclaration) -> bool {
    crate::template::spec_blank(declaration.value@) && spec_at(
        declaration.property@,
        skip_white_space(declaration.property@, 0),
        "--"@,
    )
}

/// Whether a declaration is a custom property `--name` with an empty value.
pub fn is_empty_custom_property_declaration(declaration: &CssDeclaration) -> (r: bool)
    ensures
        r == spec_empty_custom_property(*declaration),
{
    if !blank(&declaration.value) {
        return false;
    }
    let mut i: usize = 0;
    while i < declaration.property.len() && crate::css_parser::is_white_space(declaration.property[i])
        invariant
            i <= declaration.property@.len(),
            skip_white_space(declaration.property@, 0) == skip_white_space(declaration.property@, i as int),
        decreases declaration.property.len() - i,
    {
        i += 1;
    }
    crate::text::at(declaration.property.as_slice(), i, "--")
}

proof fn lemma_white_space_end(s: Seq<char>, i: int, k: int)
    requires
        0 <= i <= k < s.len(),
        !crate::css_parser::spec_is_white_space(s[k]),
        forall|j: int| i <= j < k ==> crate::css_parser::spec_is_white_space(#[trigger] s[j]),
    ensures
        skip_white_space(s, i) == k,
    decreases k - i,
{
    if i < k {
        lemma_white_space_end(s, i + 1, k);
    }
}

proof fn lemma_white_space_end_bounds(s: Seq<char>, i: int)
    requires
        0 <= i,
    ensures
        i <= skip_white_space(s, i),
        skip_white_space(s, i) < s.len() ==> !crate::css_parser::spec_is_white_space(s[skip_white_space(s, i)]),
        forall|j: int| i <= j < skip_white_space(s, i) ==> crate::css_parser::spec_is_white_space(#[trigger] s[j]),
    decreases s.len() - i,
{
    if 0 <= i < s.len() && crate::css_parser::spec_is_white_space(s[i]) {
        lemma_white_space_end_bounds(s, i + 1);
    }
}

/// A declaration is an empty custom property exactly when its value is
/// blank and its property name, past any leading white space, starts with
/// `--`. So a blank declaration of any other property, such as `color: ;`,
/// is not one.
pub proof fn lemma_empty_custom_property(declaration: CssDeclaration)
    ensures
        spec_empty_custom_property(declaration) <==> (crate::template::spec_blank(declaration.value@) && exists|k: int|
            #![trigger declaration.property@[k]]
            0 <= k && k + 2 <= declaration.property@.len() && declaration.property@[k] == '-' && declaration.property@[k
                + 1] == '-' && forall|j: int|
                0 <= j < k ==> crate::css_parser::spec_is_white_space(#[trigger] declaration.property@[j])),
{
    let p = declaration.property@;
    reveal_strlit("--");
    lemma_white_space_end_bounds(p, 0);
    let k0 = skip_white_space(p, 0);
    if spec_empty_custom_property(declaration) {
        assert(p.subrange(k0, k0 + 2) == "--"@);
        assert(p[k0] == p.subrange(k0, k0 + 2)[0]);
        assert(p[k0 + 1] == p.subrange(k0, k0 + 2)[1]);
        assert(p[k0] == '-');
    }
    if crate::template::spec_blank(declaration.value@) && exists|k: int|
        #![trigger p[k]]
        0 <= k && k + 2 <= p.len() && p[k] == '-' && p[k + 1] == '-' && forall|j: int|
            0 <= j < k ==> crate::css_parser::spec_is_white_space(#[trigger] p[j]) {
        let k = choose|k: int|
            #![trigger p[k]]
            0 <= k && k + 2 <= p.len() && p[k] == '-' && p[k + 1] == '-' && forall|j: int|
                0 <= j < k ==> crate::css_parser::spec_is_white_space(#[trigger] p[j]);
        assert(!crate::css_parser::spec_is_white_space('-'));
        lemma_white_space_end(p, 0, k);
        assert(p.subrange(k, k + 2) =~= "--"@);
    }
}

/// The placement error of the first `:global(...)` of compound selector `k`
/// of complex selector `c`: between local selectors, or followed by a type selector.
pub open spec fn hp_global_error(l: CssSelectorList, c: int, k: int) -> Option<ErrorView> {
    let rel = l.children@[c].children@[k];
    match global_function_from(rel.selectors@, 0) {
        Some(gi) => {
            let p = rel.selectors@[gi]->PseudoClassSelector_0;
            if gi == 0 && spec_in_local_middle(l.children@[c].children@, k) {
                Some(kind_error_view(CompilerDiagnosticKind::CssGlobalInvalidPlacement, p.start as int, p.end as int))
            } else {
                match type_selector_from(rel.selectors@, gi + 1) {
                    Some(t) => Some(
                        kind_error_view(
                            CompilerDiagnosticKind::CssTypeSelectorInvalidPlacement,
                            t.start as int,
                            t.end as int,
                        ),
                    ),
                    None => None,
                }
            }
        },
        None => None,
    }
}

/// The first high-priority error of a selector list.
pub open spec fn hp_list(l: CssSelectorList) -> Option<ErrorView>
    decreases l, 3int, 0int,
{
    hp_complex_from(l, 0)
}

/// The first high-priority error among the complex selectors `l.children[c..]`.
pub open spec fn hp_complex_from(l: CssSelectorList, c: int) -> Option<ErrorView>
    decreases l, 2int, l.children@.len() - c,
{
    if 0 <= c < l.children@.len() {
        first_error(hp_relative_from(l, c, 0), hp_complex_from(l, c + 1))
    } else {
        None
    }
}

/// The first high-priority error among the compound selectors `[k..]` of
/// complex selector `c`: the placement of its `:global(...)`, then errors
/// inside its pseudo-classes.
pub open spec fn hp_relative_from(l: CssSelectorList, c: int, k: int) -> Option<ErrorView>
    decreases l, 1int, (if 0 <= c < l.children@.len() {
        l.children@[c].children@.len() as int
    } else {
        0
    }) - k,
{
    if valid_relative(l, c, k) {
        first_error(hp_global_error(l, c, k), first_error(hp_simple_from(l, c, k, 0), hp_relative_from(l, c, k + 1)))
    } else {
        None
    }
}

/// The first high-priority error inside the pseudo-classes among the simple selectors `[s..]`.
pub open spec fn hp_simple_from(l: CssSelectorList, c: int, k: int, s: int) -> Option<ErrorView>
    decreases l, 0int, (if valid_relative(l, c, k) {
        selectors_at(l, c, k).len() as int
    } else {
        0
    }) - s,
{
    if valid_relative(l, c, k) && 0 <= s < selectors_at(l, c, k).len() {
        match selectors_at(l, c, k)[s] {
            CssSimpleSelector::PseudoClassSelector(p) => match p.args {
                Some(a) => {
                    proof {
                        lemma_args_decrease(&l, c, k, s);
                    }
                    first_error(hp_list(a), hp_simple_from(l, c, k, s + 1))
                },
                None => hp_simple_from(l, c, k, s + 1),
            },
            _ => hp_simple_from(l, c, k, s + 1),
        }
    } else {
        None
    }
}

/// The errors of `:global(...)` placement found before anything else: a
/// `:global(...)` between local selectors, and a type selector after one.
pub fn detect_css_high_priority_errors_in_selector_list(list: &CssSelectorList) -> (r: Option<CompileError>)
    ensures
        option_error_view(r) == hp_list(*list),
    decreases list, 0nat,
{
    let mut c: usize = 0;
    while c < list.children.len()
        invariant
            c <= list.children@.len(),
            hp_list(*list) == hp_complex_from(*list, c as int),
        decreases list.children.len() - c,
    {
        let complex = &list.children[c];
        let mut k: usize = 0;
        while k < complex.children.len()
            invariant
                k <= complex.children@.len(),
                c < list.children@.len(),
                *complex == list.children@[c as int],
                hp_list(*list) == first_error(hp_relative_from(*list, c as int, k as int), hp_complex_from(*list, c + 1)),
            decreases complex.children.len() - k,
        {
            let relative = &complex.children[k];
            let _n = relative.selectors.len();
            if let Some((global_idx, pseudo)) = find_global_selector_in_relative(relative) {
                if global_idx == 0 && pure_global_function_is_in_local_middle(&complex.children, k) {
                    return Some(compile_error_with_range(CompilerDiagnosticKind::CssGlobalInvalidPlacement, pseudo.start, pseudo.end));
                }
                if let Some(t) = first_type_selector_after(relative, global_idx + 1) {
                    return Some(compile_error_with_range(CompilerDiagnosticKind::CssTypeSelectorInvalidPlacement, t.start, t.end));
                }
            }
            let mut s: usize = 0;
            while s < relative.selectors.len()
                invariant
                    s <= relative.selectors@.len(),
                    c < list.children@.len(),
                    *complex == list.children@[c as int],
                    k < complex.children@.len(),
                    *relative == complex.children@[k as int],
                    hp_global_error(*list, c as int, k as int) is None,
                    hp_list(*list) == first_error(
                        first_error(
                            hp_simple_from(*list, c as int, k as int, s as int),
                            hp_relative_from(*list, c as int, k + 1),
                        ),
                        hp_complex_from(*list, c + 1),
                    ),
                decreases relative.selectors.len() - s,
            {
                if let CssSimpleSelector::PseudoClassSelector(pseudo) = &relative.selectors[s] {
                    if let Some(args) = &pseudo.args {
                        proof {
                            lemma_args_decrease(list, c as int, k as int, s as int);
                        }
                        if let Some(e) = detect_css_high_priority_errors_in_selector_list(args) {
                            return Some(e);
                        }
                    }
                }
                s += 1;
            }
            k += 1;
        }
        c += 1;
    }
    None
}

/// The arguments of a pseudo-class in a selector list are smaller than the list.
pub proof fn lemma_args_decrease(list: &CssSelectorList, c: int, k: int, s: int)
    requires
        0 <= c < list.children@.len(),
        0 <= k < list.children@[c].children@.len(),
        0 <= s < list.children@[c].children@[k].selectors@.len(),
        list.children@[c].children@[k].selectors@[s] matches CssSimpleSelector::PseudoClassSelector(p) && p.args is Some,
    ensures
        decreases_to!(*list => list.children@[c].children@[k].selectors@[s]->PseudoClassSelector_0.args->Some_0),
{
    let complex = list.children@[c];
    let relative = complex.children@[k];
    let selector = relative.selectors@[s];
    let pseudo = selector->PseudoClassSelector_0;
    assert(decreases_to!(*list => list.children));
    assert(decreases_to!(list.children => list.children@));
    assert(decreases_to!(list.children@ => complex));
    assert(decreases_to!(complex => complex.children));
    assert(decreases_to!(complex.children => complex.children@));
    assert(decreases_to!(complex.children@ => relative));
    assert(decreases_to!(relative => relative.selectors));
    assert(decreases_to!(relative.selectors => relative.selectors@));
    assert(decreases_to!(relative.selectors@ => selector));
    assert(decreases_to!(selector => pseudo));
    assert(decreases_to!(pseudo => pseudo.args));
    assert(decreases_to!(pseudo.args => pseudo.args->Some_0));
}

/// The first high-priority error inside a block.
pub open spec fn hp_block(b: CssBlock) -> Option<ErrorView>
    decreases b, 1int,
{
    hp_block_from(b, 0)
}

/// The first high-priority error among the children `b.children[i..]`.
pub open spec fn hp_block_from(b: CssBlock, i: int) -> Option<ErrorView>
    decreases b, 0int, b.children@.len() - i,
{
    if 0 <= i < b.children@.len() {
        proof {
            assert(decreases_to!(b => b.children));
            assert(decreases_to!(b.children => b.children@));
            assert(decreases_to!(b.children@ => b.children@[i]));
        }
        first_error(
            match b.children@[i] {
                CssBlockChild::Rule(rule) => first_error(hp_list(rule.prelude), hp_block(rule.block)),
                CssBlockChild::Atrule(at) => match at.block {
                    Some(inner) => hp_block(inner),
                    None => None,
                },
                CssBlockChild::Declaration(_) => None,
            },
            hp_block_from(b, i + 1),
        )
    } else {
        None
    }
}

/// The high-priority errors inside a block.
pub fn detect_css_high_priority_errors_in_block(block: &CssBlock) -> (r: Option<CompileError>)
    ensures
        option_error_view(r) == hp_block(*block),
    decreases block,
{
    let mut i: usize = 0;
    while i < block.children.len()
        invariant
            i <= block.children@.len(),
            hp_block(*block) == hp_block_from(*block, i as int),
        decreases block.children.len() - i,
    {
        proof {
            assert(decreases_to!(block => block.children));
            assert(decreases_to!(block.children => block.children@));
            assert(decreases_to!(block.children@ => block.children@[i as int]));
        }
        match &block.children[i] {
            CssBlockChild::Rule(rule) => {
                if let Some(e) = detect_css_high_priority_errors_in_selector_list(&rule.prelude) {
                    return Some(e);
                }
                if let Some(e) = detect_css_high_priority_errors_in_block(&rule.block) {
                    return Some(e);
                }
            },
            CssBlockChild::Atrule(at) => {
                if let Some(inner) = &at.block {
                    if let Some(e) = detect_css_high_priority_errors_in_block(inner) {
                        return Some(e);
                    }
                }
            },
            CssBlockChild::Declaration(_) => {},
        }
        i += 1;
    }
    None
}

/// The first high-priority error among the nodes `nodes[i..]` of a style sheet.
pub open spec fn hp_css_from(nodes: Seq<CssNode>, i: int) -> Option<ErrorView>
    decreases nodes.len() - i,
{
    if 0 <= i < nodes.len() {
        first_error(
            match nodes[i] {
                CssNode::Rule(rule) => first_error(hp_list(rule.prelude), hp_block(rule.block)),
                CssNode::Atrule(at) => match at.block {
                    Some(b) => hp_block(b),
                    None => None,
                },
            },
            hp_css_from(nodes, i + 1),
        )
    } else {
        None
    }
}

/// The high-priority errors of a style sheet.
pub fn detect_css_high_priority_structure_errors(css: &Css) -> (r: Option<CompileError>)
    ensures
        option_error_view(r) == hp_css_from(css.children@, 0),
{
    let mut i: usize = 0;
    while i < css.children.len()
        invariant
            i <= css.children@.len(),
            hp_css_from(css.children@, 0) == hp_css_from(css.children@, i as int),
        decreases css.children.len() - i,
    {
        let found = match &css.children[i] {
            CssNode::Rule(rule) => match detect_css_high_priority_errors_in_selector_list(&rule.prelude) {
                Some(e) => Some(e),
                None => detect_css_high_priority_errors_in_block(&rule.block),
            },
            CssNode::Atrule(at) => match &at.block {
                Some(b) => detect_css_high_priority_errors_in_block(b),
                None => None,
            },
        };
        if found.is_some() {
            return found;
        }
        i += 1;
    }
    None
}

/// Whether a selector list uses `:global`, nesting, or those inside pseudo-classes.
pub open spec fn uses_in_list(l: CssSelectorList) -> bool
    decreases l, 3int, 0int,
{
    uses_complex_from(l, 0)
}

/// Whether one of the complex selectors `l.children[c..]` uses extended syntax.
pub open spec fn uses_complex_from(l: CssSelectorList, c: int) -> bool
    decreases l, 2int, l.children@.len() - c,
{
    if 0 <= c < l.children@.len() {
        uses_relative_from(l, c, 0) || uses_complex_from(l, c + 1)
    } else {
        false
    }
}

/// Whether one of the compound selectors `[k..]` of complex selector `c`
/// starts with `:global` or uses extended syntax.
pub open spec fn uses_relative_from(l: CssSelectorList, c: int, k: int) -> bool
    decreases l, 1int, (if 0 <= c < l.children@.len() {
        l.children@[c].children@.len() as int
    } else {
        0
    }) - k,
{
    if valid_relative(l, c, k) {
        spec_global_relative(l.children@[c].children@[k]) || uses_simple_from(l, c, k, 0) || uses_relative_from(
            l,
            c,
            k + 1,
        )
    } else {
        false
    }
}

/// Whether one of the simple selectors `[s..]` is a nesting selector or a
/// pseudo-class whose argument uses extended syntax.
pub open spec fn uses_simple_from(l: CssSelectorList, c: int, k: int, s: int) -> bool
    decreases l, 0int, (if valid_relative(l, c, k) {
        selectors_at(l, c, k).len() as int
    } else {
        0
    }) - s,
{
    if valid_relative(l, c, k) && 0 <= s < selectors_at(l, c, k).len() {
        match selectors_at(l, c, k)[s] {
            CssSimpleSelector::NestingSelector(_) => true,
            CssSimpleSelector::PseudoClassSelector(p) => match p.args {
                Some(a) => {
                    proof {
                        lemma_args_decrease(&l, c, k, s);
                    }
                    uses_in_list(a) || uses_simple_from(l, c, k, s + 1)
                },
                None => uses_simple_from(l, c, k, s + 1),
            },
            _ => uses_simple_from(l, c, k, s + 1),
        }
    } else {
        false
    }
}

/// Whether a selector list uses `:global`, nesting, or those inside pseudo-classes.
pub fn selector_list_uses_extended_syntax(list: &CssSelectorList) -> (r: bool)
    ensures
        r == uses_in_list(*list),
    decreases list,
{
    let mut c: usize = 0;
    while c < list.children.len()
        invariant
            c <= list.children@.len(),
            uses_in_list(*list) == uses_complex_from(*list, c as int),
        decreases list.children.len() - c,
    {
        let complex = &list.children[c];
        let mut k: usize = 0;
        while k < complex.children.len()
            invariant
                k <= complex.children@.len(),
                c < list.children@.len(),
                *complex == list.children@[c as int],
                uses_in_list(*list) == (uses_relative_from(*list, c as int, k as int) || uses_complex_from(
                    *list,
                    c + 1,
                )),
            decreases complex.children.len() - k,
        {
            let relative = &complex.children[k];
            if is_global_relative_selector(relative) {
                return true;
            }
            let mut s: usize = 0;
            while s < relative.selectors.len()
                invariant
                    s <= relative.selectors@.len(),
                    c < list.children@.len(),
                    *complex == list.children@[c as int],
                    k < complex.children@.len(),
                    *relative == complex.children@[k as int],
                    uses_in_list(*list) == (uses_simple_from(*list, c as int, k as int, s as int) || uses_relative_from(
                        *list,
                        c as int,
                        k + 1,
                    ) || uses_complex_from(*list, c + 1)),
                decreases relative.selectors.len() - s,
            {
                match &relative.selectors[s] {
                    CssSimpleSelector::NestingSelector(_) => {
                        return true;
                    },
                    CssSimpleSelector::PseudoClassSelector(pseudo) => {
                        if let Some(args) = &pseudo.args {
                            proof {
                                lemma_args_decrease(list, c as int, k as int, s as int);
                            }
                            if selector_list_uses_extended_syntax(args) {
                                return true;
                            }
                        }
                    },
                    _ => {},
                }
                s += 1;
            }
            k += 1;
        }
        c += 1;
    }
    false
}

/// Whether an at-rule is `@media` or `@container`.
pub open spec fn spec_media_or_container(name: Seq<char>) -> bool {
    name == "media"@ || name == "container"@
}

/// Whether an at-rule is `@media` or `@container`.
fn is_media_or_container(name: &Vec<char>) -> (r: bool)
    ensures
        r == spec_media_or_container(name@),
{
    text_is(name.as_slice(), "media") || text_is(name.as_slice(), "container")
}

/// Whether a block uses syntax that lightningcss may reject although the
/// compiler accepts it: extended selectors, `@media` or `@container`, or
/// empty custom properties.
pub open spec fn uses_in_block(b: CssBlock) -> bool
    decreases b, 1int,
{
    uses_block_from(b, 0)
}

/// Whether one of the children `b.children[i..]` uses such syntax.
pub open spec fn uses_block_from(b: CssBlock, i: int) -> bool
    decreases b, 0int, b.children@.len() - i,
{
    if 0 <= i < b.children@.len() {
        proof {
            assert(decreases_to!(b => b.children));
            assert(decreases_to!(b.children => b.children@));
            assert(decreases_to!(b.children@ => b.children@[i]));
        }
        (match b.children@[i] {
            CssBlockChild::Rule(rule) => uses_in_list(rule.prelude) || uses_in_block(rule.block),
            CssBlockChild::Atrule(at) => spec_media_or_container(at.name@) || match at.block {
                Some(inner) => uses_in_block(inner),
                None => false,
            },
            CssBlockChild::Declaration(d) => spec_empty_custom_property(d),
        }) || uses_block_from(b, i + 1)
    } else {
        false
    }
}

/// Whether a block uses syntax that lightningcss may reject although the compiler accepts it.
pub fn block_uses_extended_syntax(block: &CssBlock) -> (r: bool)
    ensures
        r == uses_in_block(*block),
    decreases block,
{
    let mut i: usize = 0;
    while i < block.children.len()
        invariant
            i <= block.children@.len(),
            uses_in_block(*block) == uses_block_from(*block, i as int),
        decreases block.children.len() - i,
    {
        proof {
            assert(decreases_to!(block => block.children));
            assert(decreases_to!(block.children => block.children@));
            assert(decreases_to!(block.children@ => block.children@[i as int]));
        }
        let uses = match &block.children[i] {
            CssBlockChild::Rule(rule) => selector_list_uses_extended_syntax(&rule.prelude) || block_uses_extended_syntax(&rule.block),
            CssBlockChild::Atrule(at) => is_media_or_container(&at.name) || match &at.block {
                Some(b) => block_uses_extended_syntax(b),
                None => false,
            },
            CssBlockChild::Declaration(d) => is_empty_custom_property_declaration(d),
        };
        if uses {
            return true;
        }
        i += 1;
    }
    false
}

/// Whether one of the nodes `nodes[i..]` of a style sheet uses such syntax.
pub open spec fn uses_css_from(nodes: Seq<CssNode>, i: int) -> bool
    decreases nodes.len() - i,
{
    if 0 <= i < nodes.len() {
        (match nodes[i] {
            CssNode::Rule(rule) => uses_in_list(rule.prelude) || uses_in_block(rule.block),
            CssNode::Atrule(at) => spec_media_or_container(at.name@) || match at.block {
                Some(b) => uses_in_block(b),
                None => false,
            },
        }) || uses_css_from(nodes, i + 1)
    } else {
        false
    }
}

/// Whether a style sheet uses syntax that lightningcss may reject although the compiler accepts it.
pub fn css_uses_extended_syntax(css: &Css) -> (r: bool)
    ensures
        r == uses_css_from(css.children@, 0),
{
    let mut i: usize = 0;
    while i < css.children.len()
        invariant
            i <= css.children@.len(),
            uses_css_from(css.children@, 0) == uses_css_from(css.children@, i as int),
        decreases css.children.len() - i,
    {
        let uses = match &css.children[i] {
            CssNode::Rule(rule) => selector_list_uses_extended_syntax(&rule.prelude) || block_uses_extended_syntax(&rule.block),
            CssNode::Atrule(at) => is_media_or_container(&at.name) || match &at.block {
                Some(b) => block_uses_extended_syntax(b),
                None => false,
            },
        };
        if uses {
            return true;
        }
        i += 1;
    }
    false
}

/// Whether a `:global(...)` argument is a single selector.
fn css_global_selector_is_single_selector(args: &CssSelectorList) -> (r: bool)
    ensures
        r == (args.children@.len() == 1),
{
    args.children.len() == 1
}

/// Whether the first compound selector of a `:global(...)` argument has a type selector.
pub open spec fn spec_global_contains_type(args: CssSelectorList) -> bool {
    args.children@.len() > 0 && args.children@[0].children@.len() > 0 && type_selector_from(
        args.children@[0].children@[0].selectors@,
        0,
    ) is Some
}

/// Whether the first compound selector of a `:global(...)` argument has a type selector.
fn css_global_selector_contains_type(args: &CssSelectorList) -> (r: bool)
    ensures
        r == spec_global_contains_type(*args),
{
    if args.children.len() == 0 || args.children[0].children.len() == 0 {
        return false;
    }
    let relative = &args.children[0].children[0];
    let mut i: usize = 0;
    while i < relative.selectors.len()
        invariant
            i <= relative.selectors@.len(),
            args.children@.len() > 0 && args.children@[0].children@.len() > 0,
            *relative == args.children@[0].children@[0],
            type_selector_from(relative.selectors@, 0) == type_selector_from(relative.selectors@, i as int),
        decreases relative.selectors.len() - i,
    {
        if let CssSimpleSelector::TypeSelector(_) = &relative.selectors[i] {
            return true;
        }
        i += 1;
    }
    false
}

/// The end of a leading combinator's error: at least one past its start.
pub open spec fn combinator_error_end(start: int, end: int) -> int {
    let floor = if start < usize::MAX {
        start + 1
    } else {
        start
    };
    if end >= floor {
        end
    } else {
        floor
    }
}

/// Inside a pseudo-class, the error of the first compound selector among
/// `children[g..]` that starts with `:global`, when that is a bare `:global`.
pub open spec fn bare_global_from(children: Seq<CssRelativeSelector>, g: int) -> Option<ErrorView>
    decreases children.len() - g,
{
    if 0 <= g < children.len() {
        if spec_global_relative(children[g]) {
            match children[g].selectors@[0] {
                CssSimpleSelector::PseudoClassSelector(p) => if p.args is None {
                    Some(
                        kind_error_view(
                            CompilerDiagnosticKind::CssGlobalBlockInvalidPlacement,
                            p.start as int,
                            p.end as int,
                        ),
                    )
                } else {
                    None
                },
                _ => None,
            }
        } else {
            bare_global_from(children, g + 1)
        }
    } else {
        None
    }
}

/// Inside a pseudo-class, the error for a bare `:global` that starts the
/// first compound selector starting with `:global`.
fn bare_global_error(children: &Vec<CssRelativeSelector>) -> (r: Option<CompileError>)
    ensures
        option_error_view(r) == bare_global_from(children@, 0),
{
    let mut g: usize = 0;
    while g < children.len()
        invariant
            g <= children@.len(),
            bare_global_from(children@, 0) == bare_global_from(children@, g as int),
        decreases children.len() - g,
    {
        if is_global_relative_selector(&children[g]) {
            if let CssSimpleSelector::PseudoClassSelector(pseudo) = &children[g].selectors[0] {
                if pseudo.args.is_none() {
                    return Some(compile_error_with_range(CompilerDiagnosticKind::CssGlobalBlockInvalidPlacement, pseudo.start, pseudo.end));
                }
            }
            return None;
        }
        g += 1;
    }
    None
}

/// The `:global(...)` error of compound selector `k` of complex selector `c`:
/// an argument of more than one selector (unless the `:global(...)` stands
/// alone), a place between local selectors, a type selector in the
/// argument of a `:global(...)` that is not first, a type selector after it.
pub open spec fn sel_global_error(l: CssSelectorList, c: int, k: int) -> Option<ErrorView> {
    let complex = l.children@[c];
    let rel = complex.children@[k];
    match global_function_from(rel.selectors@, 0) {
        Some(gi) => {
            let p = rel.selectors@[gi]->PseudoClassSelector_0;
            match p.args {
                Some(args) => {
                    let standalone = complex.children@.len() == 1 && gi == 0 && rel.selectors@.len() == 1;
                    if args.children@.len() != 1 && !standalone {
                        Some(kind_error_view(CompilerDiagnosticKind::CssGlobalInvalidSelector, p.start as int, p.end as int))
                    } else if gi == 0 && spec_in_local_middle(complex.children@, k) {
                        Some(
                            kind_error_view(CompilerDiagnosticKind::CssGlobalInvalidPlacement, p.start as int, p.end as int),
                        )
                    } else if gi > 0 && spec_global_contains_type(args) {
                        Some(
                            kind_error_view(
                                CompilerDiagnosticKind::CssGlobalInvalidSelectorList,
                                p.start as int,
                                p.end as int,
                            ),
                        )
                    } else {
                        match type_selector_from(rel.selectors@, gi + 1) {
                            Some(t) => Some(
                                kind_error_view(
                                    CompilerDiagnosticKind::CssTypeSelectorInvalidPlacement,
                                    t.start as int,
                                    t.end as int,
                                ),
                            ),
                            None => None,
                        }
                    }
                },
                None => None,
            }
        },
        None => None,
    }
}

/// The first selector error of a list; `inside` tells whether it is the
/// argument of a pseudo-class, `allow` whether a leading combinator is allowed.
pub open spec fn sel_list(l: CssSelectorList, inside: bool, allow: bool) -> Option<ErrorView>
    decreases l, 3int, 0int,
{
    sel_complex_from(l, 0, inside, allow)
}

/// The first selector error among the complex selectors `l.children[c..]`:
/// a leading combinator, a bare `:global` inside a pseudo-class, then the
/// errors of its compound selectors.
pub open spec fn sel_complex_from(l: CssSelectorList, c: int, inside: bool, allow: bool) -> Option<ErrorView>
    decreases l, 2int, l.children@.len() - c,
{
    if 0 <= c < l.children@.len() {
        let complex = l.children@[c];
        let leading = if !inside && !allow && complex.children@.len() > 0 {
            match complex.children@[0].combinator {
                Some(comb) => Some(
                    kind_error_view(
                        CompilerDiagnosticKind::CssSelectorInvalid,
                        comb.start as int,
                        combinator_error_end(comb.start as int, comb.end as int),
                    ),
                ),
                None => None,
            }
        } else {
            None
        };
        first_error(
            leading,
            first_error(
                if inside {
                    bare_global_from(complex.children@, 0)
                } else {
                    None
                },
                first_error(sel_relative_from(l, c, 0), sel_complex_from(l, c + 1, inside, allow)),
            ),
        )
    } else {
        None
    }
}

/// The first selector error among the compound selectors `[k..]` of complex
/// selector `c`: an empty compound, its `:global(...)` errors, then the
/// errors inside its pseudo-classes.
pub open spec fn sel_relative_from(l: CssSelectorList, c: int, k: int) -> Option<ErrorView>
    decreases l, 1int, (if 0 <= c < l.children@.len() {
        l.children@[c].children@.len() as int
    } else {
        0
    }) - k,
{
    if valid_relative(l, c, k) {
        let rel = l.children@[c].children@[k];
        if rel.selectors@.len() == 0 {
            Some(kind_error_view(CompilerDiagnosticKind::CssSelectorInvalid, rel.end as int, rel.end as int))
        } else {
            first_error(sel_global_error(l, c, k), first_error(sel_simple_from(l, c, k, 0), sel_relative_from(l, c, k + 1)))
        }
    } else {
        None
    }
}

/// The first selector error inside the pseudo-classes among the simple selectors `[s..]`.
pub open spec fn sel_simple_from(l: CssSelectorList, c: int, k: int, s: int) -> Option<ErrorView>
    decreases l, 0int, (if valid_relative(l, c, k) {
        selectors_at(l, c, k).len() as int
    } else {
        0
    }) - s,
{
    if valid_relative(l, c, k) && 0 <= s < selectors_at(l, c, k).len() {
        match selectors_at(l, c, k)[s] {
            CssSimpleSelector::PseudoClassSelector(p) => match p.args {
                Some(a) => {
                    proof {
                        lemma_args_decrease(&l, c, k, s);
                    }
                    first_error(sel_list(a, true, true), sel_simple_from(l, c, k, s + 1))
                },
                None => sel_simple_from(l, c, k, s + 1),
            },
            _ => sel_simple_from(l, c, k, s + 1),
        }
    } else {
        None
    }
}

/// The errors of the selectors of a list: a leading combinator, a bare
/// `:global` inside a pseudo-class, an empty compound selector, and misuses
/// of `:global(...)`.
pub fn detect_css_errors_in_selector_list(list: &CssSelectorList, inside_pseudo_class: bool, allow_leading_combinator: bool) -> (r:
    Option<CompileError>)
    ensures
        option_error_view(r) == sel_list(*list, inside_pseudo_class, allow_leading_combinator),
    decreases list,
{
    let mut c: usize = 0;
    while c < list.children.len()
        invariant
            c <= list.children@.len(),
            sel_list(*list, inside_pseudo_class, allow_leading_combinator) == sel_complex_from(
                *list,
                c as int,
                inside_pseudo_class,
                allow_leading_combinator,
            ),
        decreases list.children.len() - c,
    {
        let complex = &list.children[c];
        if !inside_pseudo_class && !allow_leading_combinator && complex.children.len() > 0 {
            if let Some(comb) = &complex.children[0].combinator {
                let floor = if comb.start < usize::MAX { comb.start + 1 } else { comb.start };
                let end = if comb.end >= floor { comb.end } else { floor };
                return Some(compile_error_with_range(CompilerDiagnosticKind::CssSelectorInvalid, comb.start, end));
            }
        }
        if inside_pseudo_class {
            if let Some(e) = bare_global_error(&complex.children) {
                return Some(e);
            }
        }
        let mut k: usize = 0;
        while k < complex.children.len()
            invariant
                k <= complex.children@.len(),
                c < list.children@.len(),
                *complex == list.children@[c as int],
                sel_list(*list, inside_pseudo_class, allow_leading_combinator) == first_error(
                    sel_relative_from(*list, c as int, k as int),
                    sel_complex_from(*list, c + 1, inside_pseudo_class, allow_leading_combinator),
                ),
            decreases complex.children.len() - k,
        {
            let relative = &complex.children[k];
            if relative.selectors.len() == 0 {
                return Some(compile_error_with_range(CompilerDiagnosticKind::CssSelectorInvalid, relative.end, relative.end));
            }
            let _n = relative.selectors.len();
            if let Some((global_idx, pseudo)) = find_global_selector_in_relative(relative) {
                if let Some(args) = &pseudo.args {
                    let standalone = complex.children.len() == 1 && global_idx == 0 && relative.selectors.len() == 1;
                    if !css_global_selector_is_single_selector(args) && !standalone {
                        return Some(compile_error_with_range(CompilerDiagnosticKind::CssGlobalInvalidSelector, pseudo.start, pseudo.end));
                    }
                    if global_idx == 0 && pure_global_function_is_in_local_middle(&complex.children, k) {
                        return Some(compile_error_with_range(CompilerDiagnosticKind::CssGlobalInvalidPlacement, pseudo.start, pseudo.end));
                    }
                    if global_idx > 0 && css_global_selector_contains_type(args) {
                        return Some(compile_error_with_range(CompilerDiagnosticKind::CssGlobalInvalidSelectorList, pseudo.start, pseudo.end));
                    }
                    if let Some(t) = first_type_selector_after(relative, global_idx + 1) {
                        return Some(compile_error_with_range(CompilerDiagnosticKind::CssTypeSelectorInvalidPlacement, t.start, t.end));
                    }
                }
            }
            let mut s: usize = 0;
            while s < relative.selectors.len()
                invariant
                    s <= relative.selectors@.len(),
                    c < list.children@.len(),
                    *complex == list.children@[c as int],
                    k < complex.children@.len(),
                    *relative == complex.children@[k as int],
                    relative.selectors@.len() > 0,
                    sel_global_error(*list, c as int, k as int) is None,
                    sel_list(*list, inside_pseudo_class, allow_leading_combinator) == first_error(
                        first_error(
                            sel_simple_from(*list, c as int, k as int, s as int),
                            sel_relative_from(*list, c as int, k + 1),
                        ),
                        sel_complex_from(*list, c + 1, inside_pseudo_class, allow_leading_combinator),
                    ),
                decreases relative.selectors.len() - s,
            {
                if let CssSimpleSelector::PseudoClassSelector(pseudo) = &relative.selectors[s] {
                    if let Some(args) = &pseudo.args {
                        proof {
                            lemma_args_decrease(list, c as int, k as int, s as int);
                        }
                        if let Some(e) = detect_css_errors_in_selector_list(args, true, true) {
                            return Some(e);
                        }
                    }
                }
                s += 1;
            }
            k += 1;
        }
        c += 1;
    }
    None
}

/// Whether a simple selector is a bare `:global`.
pub open spec fn spec_global_block_selector(selector: CssSimpleSelector) -> bool {
    selector matches CssSimpleSelector::PseudoClassSelector(p) && p.name@ == "global"@ && p.args is None
}

/// Whether a simple selector is a bare `:global`.
fn is_global_block_selector(selector: &CssSimpleSelector) -> (r: bool)
    ensures
        r == spec_global_block_selector(*selector),
{
    match selector {
        CssSimpleSelector::PseudoClassSelector(p) => text_is(p.name.as_slice(), "global") && p.args.is_none(),
        _ => false,
    }
}

/// The index of the first bare `:global` among `selectors[i..]`.
pub open spec fn bare_index_from(selectors: Seq<CssSimpleSelector>, i: int) -> Option<int>
    decreases selectors.len() - i,
{
    if 0 <= i < selectors.len() {
        if spec_global_block_selector(selectors[i]) {
            Some(i)
        } else {
            bare_index_from(selectors, i + 1)
        }
    } else {
        None
    }
}

/// The first of two optional values that is there.
pub open spec fn first_some<T>(a: Option<T>, b: Option<T>) -> Option<T> {
    if a is Some {
        a
    } else {
        b
    }
}

/// Whether `c`, `k` index a compound selector of `l`.
pub open spec fn valid_relative(l: CssSelectorList, c: int, k: int) -> bool {
    0 <= c < l.children@.len() && 0 <= k < l.children@[c].children@.len()
}

/// The simple selectors of compound selector `k` of complex selector `c` of `l`.
pub open spec fn selectors_at(l: CssSelectorList, c: int, k: int) -> Seq<CssSimpleSelector> {
    l.children@[c].children@[k].selectors@
}

/// The first nesting selector of a list, inside pseudo-classes too.
pub open spec fn nesting_in_list(l: CssSelectorList) -> Option<CssNameSelector>
    decreases l, 3int, 0int,
{
    nesting_complex_from(l, 0)
}

/// The first nesting selector among the complex selectors `l.children[c..]`.
pub open spec fn nesting_complex_from(l: CssSelectorList, c: int) -> Option<CssNameSelector>
    decreases l, 2int, l.children@.len() - c,
{
    if 0 <= c < l.children@.len() {
        first_some(nesting_relative_from(l, c, 0), nesting_complex_from(l, c + 1))
    } else {
        None
    }
}

/// The first nesting selector among the compound selectors `[k..]` of complex selector `c`.
pub open spec fn nesting_relative_from(l: CssSelectorList, c: int, k: int) -> Option<CssNameSelector>
    decreases l, 1int, (if 0 <= c < l.children@.len() {
        l.children@[c].children@.len() as int
    } else {
        0
    }) - k,
{
    if valid_relative(l, c, k) {
        first_some(nesting_simple_from(l, c, k, 0), nesting_relative_from(l, c, k + 1))
    } else {
        None
    }
}

/// The first nesting selector among the simple selectors `[s..]` of compound
/// selector `k` of complex selector `c`, inside pseudo-classes too.
pub open spec fn nesting_simple_from(l: CssSelectorList, c: int, k: int, s: int) -> Option<CssNameSelector>
    decreases l, 0int, (if valid_relative(l, c, k) {
        selectors_at(l, c, k).len() as int
    } else {
        0
    }) - s,
{
    if valid_relative(l, c, k) && 0 <= s < selectors_at(l, c, k).len() {
        match selectors_at(l, c, k)[s] {
            CssSimpleSelector::NestingSelector(n) => Some(n),
            CssSimpleSelector::PseudoClassSelector(p) => match p.args {
                Some(a) => {
                    proof {
                        lemma_args_decrease(&l, c, k, s);
                    }
                    first_some(nesting_in_list(a), nesting_simple_from(l, c, k, s + 1))
                },
                None => nesting_simple_from(l, c, k, s + 1),
            },
            _ => nesting_simple_from(l, c, k, s + 1),
        }
    } else {
        None
    }
}

/// The first nesting selector `&` of a list, inside pseudo-classes too.
pub fn find_first_nesting_selector_in_list(list: &CssSelectorList) -> (r: Option<&CssNameSelector>)
    ensures
        match r {
            Some(n) => nesting_in_list(*list) == Some(*n),
            None => nesting_in_list(*list) is None,
        },
    decreases list,
{
    let mut c: usize = 0;
    while c < list.children.len()
        invariant
            c <= list.children@.len(),
            nesting_in_list(*list) == nesting_complex_from(*list, c as int),
        decreases list.children.len() - c,
    {
        let complex = &list.children[c];
        let mut k: usize = 0;
        while k < complex.children.len()
            invariant
                k <= complex.children@.len(),
                c < list.children@.len(),
                *complex == list.children@[c as int],
                nesting_in_list(*list) == first_some(
                    nesting_relative_from(*list, c as int, k as int),
                    nesting_complex_from(*list, c + 1),
                ),
            decreases complex.children.len() - k,
        {
            let relative = &complex.children[k];
            let mut s: usize = 0;
            while s < relative.selectors.len()
                invariant
                    s <= relative.selectors@.len(),
                    c < list.children@.len(),
                    *complex == list.children@[c as int],
                    k < complex.children@.len(),
                    *relative == complex.children@[k as int],
                    nesting_in_list(*list) == first_some(
                        first_some(
                            nesting_simple_from(*list, c as int, k as int, s as int),
                            nesting_relative_from(*list, c as int, k + 1),
                        ),
                        nesting_complex_from(*list, c + 1),
                    ),
                decreases relative.selectors.len() - s,
            {
                match &relative.selectors[s] {
                    CssSimpleSelector::NestingSelector(n) => {
                        return Some(n);
                    },
                    CssSimpleSelector::PseudoClassSelector(pseudo) => {
                        if let Some(args) = &pseudo.args {
                            proof {
                                lemma_args_decrease(list, c as int, k as int, s as int);
                            }
                            if let Some(n) = find_first_nesting_selector_in_list(args) {
                                return Some(n);
                            }
                        }
                    },
                    _ => {},
                }
                s += 1;
            }
            k += 1;
        }
        c += 1;
    }
    None
}

/// Whether a nesting selector at the top level stands as the first selector
/// of a lone `:global(...)`: the rule's prelude is one complex selector whose
/// first compound is a `:global(...)` alone, and the first simple selector of
/// its argument is a nesting selector at the same range.
pub open spec fn spec_nesting_allowed(rule: CssRule, nesting: CssNameSelector) -> bool {
    &&& rule.prelude.children@.len() == 1
    &&& rule.prelude.children@[0].children@.len() > 0
    &&& rule.prelude.children@[0].children@[0].selectors@.len() == 1
    &&& rule.prelude.children@[0].children@[0].selectors@[0] matches CssSimpleSelector::PseudoClassSelector(p)
    &&& p.name@ == "global"@
    &&& p.args matches Some(args)
    &&& args.children@.len() > 0
    &&& args.children@[0].children@.len() > 0
    &&& args.children@[0].children@[0].selectors@.len() > 0
    &&& args.children@[0].children@[0].selectors@[0] matches CssSimpleSelector::NestingSelector(n)
    &&& n.start == nesting.start
    &&& n.end == nesting.end
}

/// Whether a nesting selector at the top level stands as the first selector
/// of a lone `:global(...)`.
fn top_level_nesting_selector_allowed(rule: &CssRule, nesting: &CssNameSelector) -> (r: bool)
    ensures
        r == spec_nesting_allowed(*rule, *nesting),
{
    if rule.prelude.children.len() != 1 || rule.prelude.children[0].children.len() == 0 {
        return false;
    }
    let first = &rule.prelude.children[0].children[0];
    if first.selectors.len() != 1 {
        return false;
    }
    let pseudo = match &first.selectors[0] {
        CssSimpleSelector::PseudoClassSelector(p) => p,
        _ => return false,
    };
    if !text_is(pseudo.name.as_slice(), "global") {
        return false;
    }
    let args = match &pseudo.args {
        Some(a) => a,
        None => return false,
    };
    if args.children.len() == 0 || args.children[0].children.len() == 0 || args.children[0].children[0].selectors.len() == 0 {
        return false;
    }
    match &args.children[0].children[0].selectors[0] {
        CssSimpleSelector::NestingSelector(n) => n.start == nesting.start && n.end == nesting.end,
        _ => false,
    }
}

/// The first declaration among `children[i..]`.
pub open spec fn declaration_from(children: Seq<CssBlockChild>, i: int) -> Option<CssDeclaration>
    decreases children.len() - i,
{
    if 0 <= i < children.len() {
        match children[i] {
            CssBlockChild::Declaration(d) => Some(d),
            _ => declaration_from(children, i + 1),
        }
    } else {
        None
    }
}

/// The first declaration of a block.
fn first_css_declaration_in_block(block: &CssBlock) -> (r: Option<&CssDeclaration>)
    ensures
        match r {
            Some(d) => declaration_from(block.children@, 0) == Some(*d),
            None => declaration_from(block.children@, 0) is None,
        },
{
    let mut i: usize = 0;
    while i < block.children.len()
        invariant
            i <= block.children@.len(),
            declaration_from(block.children@, 0) == declaration_from(block.children@, i as int),
        decreases block.children.len() - i,
    {
        if let CssBlockChild::Declaration(d) = &block.children[i] {
            return Some(d);
        }
        i += 1;
    }
    None
}

/// Where a rule stands: whether it is nested in a rule, and whether that
/// rule is a top-level lone `:global` block.
#[derive(Clone, Copy)]
pub struct CssRuleContext {
    pub parent_rule_exists: bool,
    pub parent_rule_is_top_level_global_block: bool,
}

/// The `:global` block errors among the compound selectors `[k..]` of
/// complex selector `c` of a rule's prelude, given whether the rule and the
/// complex selector are `:global` blocks so far; with those flags after.
pub open spec fn gb_relative_from(
    rule: CssRule,
    c: int,
    k: int,
    context: CssRuleContext,
    rule_gb: bool,
    complex_gb: bool,
) -> (Option<ErrorView>, bool, bool)
    decreases (if 0 <= c < rule.prelude.children@.len() {
        rule.prelude.children@[c].children@.len() as int
    } else {
        0
    }) - k,
{
    if valid_relative(rule.prelude, c, k) {
        let complex = rule.prelude.children@[c];
        let rel = complex.children@[k];
        match bare_index_from(rel.selectors@, 0) {
            Some(gi) => if gi == 0 {
                if rel.selectors@.len() > 1 && k == 0 && !context.parent_rule_exists {
                    let (s, e) = spec_simple_selector_span(rel.selectors@[1]);
                    (
                        Some(
                            kind_error_view(
                                CompilerDiagnosticKind::CssGlobalBlockInvalidModifierStart,
                                s as int,
                                e as int,
                            ),
                        ),
                        rule_gb,
                        complex_gb,
                    )
                } else if rel.combinator matches Some(comb) && comb.name@ != " "@ {
                    (
                        Some(
                            kind_error_view(
                                CompilerDiagnosticKind::CssGlobalBlockInvalidCombinator,
                                rel.start as int,
                                rel.end as int,
                            ),
                        ),
                        true,
                        true,
                    )
                } else {
                    let lone = complex.children@.len() == 1 && complex.children@[0].selectors@.len() == 1;
                    if lone && rule.prelude.children@.len() > 1 {
                        (
                            Some(
                                kind_error_view(
                                    CompilerDiagnosticKind::CssGlobalBlockInvalidList,
                                    rule.prelude.start as int,
                                    rule.prelude.end as int,
                                ),
                            ),
                            true,
                            true,
                        )
                    } else if lone && rule.prelude.children@.len() == 1 && declaration_from(
                        rule.block.children@,
                        0,
                    ) is Some {
                        let d = declaration_from(rule.block.children@, 0)->0;
                        (
                            Some(
                                kind_error_view(
                                    CompilerDiagnosticKind::CssGlobalBlockInvalidDeclaration,
                                    d.start as int,
                                    d.end as int,
                                ),
                            ),
                            true,
                            true,
                        )
                    } else {
                        gb_relative_from(rule, c, k + 1, context, true, true)
                    }
                }
            } else {
                let (s, e) = spec_simple_selector_span(rel.selectors@[gi]);
                (
                    Some(kind_error_view(CompilerDiagnosticKind::CssGlobalBlockInvalidModifier, s as int, e as int)),
                    rule_gb,
                    complex_gb,
                )
            },
            None => gb_relative_from(rule, c, k + 1, context, rule_gb, complex_gb),
        }
    } else {
        (None, rule_gb, complex_gb)
    }
}

/// The `:global` block errors among the complex selectors `[c..]` of a
/// rule's prelude, and whether the rule is a `:global` block: each complex
/// selector's compounds, then a list that mixes `:global` blocks with others.
pub open spec fn gb_complex_from(rule: CssRule, c: int, context: CssRuleContext, rule_gb: bool) -> (Option<ErrorView>, bool)
    decreases rule.prelude.children@.len() - c,
{
    if 0 <= c < rule.prelude.children@.len() {
        let (e, rgb, cgb) = gb_relative_from(rule, c, 0, context, rule_gb, false);
        if e is Some {
            (e, rgb)
        } else if rgb && !cgb {
            (
                Some(
                    kind_error_view(
                        CompilerDiagnosticKind::CssGlobalBlockInvalidList,
                        rule.prelude.start as int,
                        rule.prelude.end as int,
                    ),
                ),
                rgb,
            )
        } else {
            gb_complex_from(rule, c + 1, context, rgb)
        }
    } else {
        (None, rule_gb)
    }
}

/// The `:global` block errors of a rule's prelude.
fn detect_global_block_errors(rule: &CssRule, context: CssRuleContext) -> (r: (Option<CompileError>, bool))
    ensures
        (option_error_view(r.0), r.1) == gb_complex_from(*rule, 0, context, false),
{
    let mut rule_is_global_block = false;
    let mut c: usize = 0;
    while c < rule.prelude.children.len()
        invariant
            c <= rule.prelude.children@.len(),
            gb_complex_from(*rule, 0, context, false) == gb_complex_from(*rule, c as int, context, rule_is_global_block),
        decreases rule.prelude.children.len() - c,
    {
        let complex = &rule.prelude.children[c];
        let mut complex_is_global_block = false;
        let ghost rgb0 = rule_is_global_block;
        let mut k: usize = 0;
        while k < complex.children.len()
            invariant
                k <= complex.children@.len(),
                c < rule.prelude.children@.len(),
                *complex == rule.prelude.children@[c as int],
                gb_complex_from(*rule, 0, context, false) == gb_complex_from(*rule, c as int, context, rgb0),
                gb_relative_from(*rule, c as int, 0, context, rgb0, false) == gb_relative_from(
                    *rule,
                    c as int,
                    k as int,
                    context,
                    rule_is_global_block,
                    complex_is_global_block,
                ),
            decreases complex.children.len() - k,
        {
            let relative = &complex.children[k];
            let mut gi: usize = 0;
            let mut found: Option<usize> = None;
            while gi < relative.selectors.len()
                invariant
                    gi <= relative.selectors@.len(),
                    found matches Some(x) ==> x < relative.selectors@.len(),
                    found matches Some(x) ==> bare_index_from(relative.selectors@, 0) == Some(x as int),
                    found is None ==> bare_index_from(relative.selectors@, 0) == bare_index_from(
                        relative.selectors@,
                        gi as int,
                    ),
                decreases relative.selectors.len() - gi,
            {
                if found.is_none() && is_global_block_selector(&relative.selectors[gi]) {
                    found = Some(gi);
                }
                gi += 1;
            }
            if let Some(global_idx) = found {
                if global_idx == 0 {
                    if relative.selectors.len() > 1 && k == 0 && !context.parent_rule_exists {
                        let (s, e) = css_simple_selector_span(&relative.selectors[1]);
                        return (Some(compile_error_with_range(CompilerDiagnosticKind::CssGlobalBlockInvalidModifierStart, s, e)), rule_is_global_block);
                    }
                    rule_is_global_block = true;
                    complex_is_global_block = true;
                    if let Some(comb) = &relative.combinator {
                        if !text_is(comb.name.as_slice(), " ") {
                            return (Some(compile_error_with_range(CompilerDiagnosticKind::CssGlobalBlockInvalidCombinator, relative.start, relative.end)), rule_is_global_block);
                        }
                    }
                    let lone = complex.children.len() == 1 && complex.children[0].selectors.len() == 1;
                    if lone && rule.prelude.children.len() > 1 {
                        return (Some(compile_error_with_range(CompilerDiagnosticKind::CssGlobalBlockInvalidList, rule.prelude.start, rule.prelude.end)), rule_is_global_block);
                    }
                    if lone && rule.prelude.children.len() == 1 {
                        if let Some(d) = first_css_declaration_in_block(&rule.block) {
                            return (Some(compile_error_with_range(CompilerDiagnosticKind::CssGlobalBlockInvalidDeclaration, d.start, d.end)), rule_is_global_block);
                        }
                    }
                } else {
                    let (s, e) = css_simple_selector_span(&relative.selectors[global_idx]);
                    return (Some(compile_error_with_range(CompilerDiagnosticKind::CssGlobalBlockInvalidModifier, s, e)), rule_is_global_block);
                }
            }
            k += 1;
        }
        if rule_is_global_block && !complex_is_global_block {
            return (Some(compile_error_with_range(CompilerDiagnosticKind::CssGlobalBlockInvalidList, rule.prelude.start, rule.prelude.end)), rule_is_global_block);
        }
        c += 1;
    }
    (None, rule_is_global_block)
}

/// Whether a rule's prelude is a single compound of a single simple selector.
pub open spec fn spec_lone_prelude(rule: CssRule) -> bool {
    rule.prelude.children@.len() == 1 && rule.prelude.children@[0].children@.len() == 1
        && rule.prelude.children@[0].children@[0].selectors@.len() == 1
}

/// The selector errors of a rule, then of the rules nested in it: its
/// `:global` block errors, its selector errors, a misplaced nesting
/// selector, then the errors of its block.
pub open spec fn rule_errors(rule: CssRule, context: CssRuleContext) -> Option<ErrorView>
    decreases rule, 2int, 0int,
{
    let (found, rule_gb) = gb_complex_from(rule, 0, context, false);
    if found is Some {
        found
    } else if sel_list(rule.prelude, false, context.parent_rule_exists) is Some {
        sel_list(rule.prelude, false, context.parent_rule_exists)
    } else {
        let nesting = match nesting_in_list(rule.prelude) {
            Some(n) => if !context.parent_rule_exists {
                if !spec_nesting_allowed(rule, n) {
                    Some(
                        kind_error_view(
                            CompilerDiagnosticKind::CssNestingSelectorInvalidPlacement,
                            n.start as int,
                            n.end as int,
                        ),
                    )
                } else {
                    None
                }
            } else if context.parent_rule_is_top_level_global_block {
                Some(
                    kind_error_view(
                        CompilerDiagnosticKind::CssGlobalBlockInvalidModifierStart,
                        n.start as int,
                        n.end as int,
                    ),
                )
            } else {
                None
            },
            None => None,
        };
        if nesting is Some {
            nesting
        } else {
            proof {
                assert(decreases_to!(rule => rule.block));
            }
            block_errors(
                rule.block,
                CssRuleContext {
                    parent_rule_exists: true,
                    parent_rule_is_top_level_global_block: !context.parent_rule_exists && rule_gb && spec_lone_prelude(
                        rule,
                    ),
                },
            )
        }
    }
}

/// The selector errors inside a block, and its empty declarations.
pub open spec fn block_errors(b: CssBlock, context: CssRuleContext) -> Option<ErrorView>
    decreases b, 1int, 0int,
{
    block_errors_from(b, 0, context)
}

/// The first error among the children `b.children[i..]` of a block.
pub open spec fn block_errors_from(b: CssBlock, i: int, context: CssRuleContext) -> Option<ErrorView>
    decreases b, 0int, b.children@.len() - i,
{
    if 0 <= i < b.children@.len() {
        proof {
            assert(decreases_to!(b => b.children));
            assert(decreases_to!(b.children => b.children@));
            assert(decreases_to!(b.children@ => b.children@[i]));
        }
        first_error(
            match b.children@[i] {
                CssBlockChild::Rule(rule) => rule_errors(rule, context),
                CssBlockChild::Atrule(at) => match at.block {
                    Some(inner) => block_errors(inner, context),
                    None => None,
                },
                CssBlockChild::Declaration(d) => if crate::template::spec_blank(d.value@) && !spec_empty_custom_property(
                    d,
                ) {
                    Some(("css_empty_declaration"@, "Declaration cannot be empty"@, d.start as int, d.end as int))
                } else {
                    None
                },
            },
            block_errors_from(b, i + 1, context),
        )
    } else {
        None
    }
}

/// The selector errors of a rule, then of the rules nested in it.
pub fn detect_css_selector_errors_in_rule(rule: &CssRule, context: CssRuleContext) -> (r: Option<CompileError>)
    ensures
        option_error_view(r) == rule_errors(*rule, context),
    decreases rule, 1nat,
{
    let (found, rule_is_global_block) = detect_global_block_errors(rule, context);
    if found.is_some() {
        return found;
    }
    if let Some(e) = detect_css_errors_in_selector_list(&rule.prelude, false, context.parent_rule_exists) {
        return Some(e);
    }
    if let Some(nesting) = find_first_nesting_selector_in_list(&rule.prelude) {
        if !context.parent_rule_exists {
            if !top_level_nesting_selector_allowed(rule, nesting) {
                return Some(compile_error_with_range(CompilerDiagnosticKind::CssNestingSelectorInvalidPlacement, nesting.start, nesting.end));
            }
        } else if context.parent_rule_is_top_level_global_block {
            return Some(compile_error_with_range(CompilerDiagnosticKind::CssGlobalBlockInvalidModifierStart, nesting.start, nesting.end));
        }
    }
    let lone = rule.prelude.children.len() == 1 && rule.prelude.children[0].children.len() == 1
        && rule.prelude.children[0].children[0].selectors.len() == 1;
    let child = CssRuleContext {
        parent_rule_exists: true,
        parent_rule_is_top_level_global_block: !context.parent_rule_exists && rule_is_global_block && lone,
    };
    detect_css_selector_errors_in_block(&rule.block, child)
}

/// The selector errors inside a block, and its empty declarations.
pub fn detect_css_selector_errors_in_block(block: &CssBlock, context: CssRuleContext) -> (r: Option<CompileError>)
    ensures
        option_error_view(r) == block_errors(*block, context),
    decreases block, 2nat,
{
    let mut i: usize = 0;
    while i < block.children.len()
        invariant
            i <= block.children@.len(),
            block_errors(*block, context) == block_errors_from(*block, i as int, context),
        decreases block.children.len() - i,
    {
        proof {
            assert(decreases_to!(block => block.children));
            assert(decreases_to!(block.children => block.children@));
            assert(decreases_to!(block.children@ => block.children@[i as int]));
        }
        match &block.children[i] {
            CssBlockChild::Rule(rule) => {
                if let Some(e) = detect_css_selector_errors_in_rule(rule, context) {
                    return Some(e);
                }
            },
            CssBlockChild::Atrule(at) => {
                if let Some(inner) = &at.block {
                    if let Some(e) = detect_css_selector_errors_in_block(inner, context) {
                        return Some(e);
                    }
                }
            },
            CssBlockChild::Declaration(d) => {
                if blank(&d.value) && !is_empty_custom_property_declaration(d) {
                    return Some(compile_error_custom("css_empty_declaration", chars_of("Declaration cannot be empty"), d.start, d.end));
                }
            },
        }
        i += 1;
    }
    None
}

/// In a block, a declaration with a blank value is reported as empty, over
/// its range, unless its property (past leading white space) starts with
/// `--`: `color: ;` is an error, `--gap: ;` is not.
pub proof fn lemma_blank_declaration_reported(b: CssBlock, i: int, context: CssRuleContext, d: CssDeclaration)
    requires
        0 <= i < b.children@.len(),
        b.children@[i] == CssBlockChild::Declaration(d),
        crate::template::spec_blank(d.value@),
    ensures
        !(exists|k: int|
            #![trigger d.property@[k]]
            0 <= k && k + 2 <= d.property@.len() && d.property@[k] == '-' && d.property@[k + 1] == '-' && forall|j: int|
                0 <= j < k ==> crate::css_parser::spec_is_white_space(#[trigger] d.property@[j])) ==> block_errors_from(
            b,
            i,
            context,
        ) == Some(("css_empty_declaration"@, "Declaration cannot be empty"@, d.start as int, d.end as int)),
        (exists|k: int|
            #![trigger d.property@[k]]
            0 <= k && k + 2 <= d.property@.len() && d.property@[k] == '-' && d.property@[k + 1] == '-' && forall|j: int|
                0 <= j < k ==> crate::css_parser::spec_is_white_space(#[trigger] d.property@[j])) ==> block_errors_from(
            b,
            i,
            context,
        ) == block_errors_from(b, i + 1, context),
{
    lemma_empty_custom_property(d);
}

/// The top of a style sheet: no rule around.
pub open spec fn top_context() -> CssRuleContext {
    CssRuleContext { parent_rule_exists: false, parent_rule_is_top_level_global_block: false }
}

/// The first selector error among the nodes `nodes[i..]` of a style sheet.
pub open spec fn structure_errors_from(nodes: Seq<CssNode>, i: int) -> Option<ErrorView>
    decreases nodes.len() - i,
{
    if 0 <= i < nodes.len() {
        first_error(
            match nodes[i] {
                CssNode::Rule(rule) => rule_errors(rule, top_context()),
                CssNode::Atrule(at) => match at.block {
                    Some(b) => block_errors(b, top_context()),
                    None => None,
                },
            },
            structure_errors_from(nodes, i + 1),
        )
    } else {
        None
    }
}

/// The selector errors of a style sheet.
pub fn detect_css_selector_structure_errors(css: &Css) -> (r: Option<CompileError>)
    ensures
        option_error_view(r) == structure_errors_from(css.children@, 0),
{
    let context = CssRuleContext { parent_rule_exists: false, parent_rule_is_top_level_global_block: false };
    let mut i: usize = 0;
    while i < css.children.len()
        invariant
            i <= css.children@.len(),
            context == top_context(),
            structure_errors_from(css.children@, 0) == structure_errors_from(css.children@, i as int),
        decreases css.children.len() - i,
    {
        let found = match &css.children[i] {
            CssNode::Rule(rule) => detect_css_selector_errors_in_rule(rule, context),
            CssNode::Atrule(at) => match &at.block {
                Some(b) => detect_css_selector_errors_in_block(b, context),
                None => None,
            },
        };
        if found.is_some() {
            return found;
        }
        i += 1;
    }
    None
}

/// The diagnostic a lightningcss parse error is reported as.
pub open spec fn spec_css_problem_kind(problem: CssProblem) -> CompilerDiagnosticKind {
    match problem {
        CssProblem::BadString => CompilerDiagnosticKind::UnexpectedEof,
        CssProblem::InvalidSelector => CompilerDiagnosticKind::CssSelectorInvalid,
        _ => CompilerDiagnosticKind::CssExpectedIdentifier,
    }
}

/// The diagnostic a lightningcss parse error is reported as.
pub fn css_problem_kind(problem: CssProblem) -> (r: CompilerDiagnosticKind)
    ensures
        r == spec_css_problem_kind(problem),
{
    match problem {
        CssProblem::BadString => CompilerDiagnosticKind::UnexpectedEof,
        CssProblem::InvalidSelector => CompilerDiagnosticKind::CssSelectorInvalid,
        _ => CompilerDiagnosticKind::CssExpectedIdentifier,
    }
}

/// Where a lightningcss parse error of a style element is reported, given
/// where its content starts and ends and where the element ends: at the
/// error's location (the end of the content when it has none), clamped to
/// the content; a bad string or URL at the element's end. A selector error
/// at a combinator spans the combinator.
pub fn css_syntax_error_range(
    src: &[char],
    error: CssSyntaxError,
    content_start: usize,
    content_end: usize,
    style_end: usize,
) -> (r: (CompilerDiagnosticKind, usize, usize))
    requires
        content_start <= content_end <= src@.len(),
    ensures
        r.0 == spec_css_problem_kind(error.problem),
        r.1 <= r.2,
        (r.0, r.1 as int, r.2 as int) == spec_css_syntax_error_range(
            src@,
            error,
            content_start as int,
            content_end as int,
            style_end as int,
        ),
{
    let content = crate::text::slice_chars(src, content_start, content_end);
    let offset = match error.location {
        Some((line, column)) => css_error_offset(content.as_slice(), line, column),
        None => content.len(),
    };
    let mut start = if content_start + offset <= content_end { content_start + offset } else { content_end };
    if error.problem == CssProblem::BadString {
        start = style_end;
    }
    let kind = css_problem_kind(error.problem);
    let at_combinator = start < src.len() && (src[start] == '>' || src[start] == '+' || src[start] == '~' || src[start] == '|');
    let end = if kind == CompilerDiagnosticKind::CssSelectorInvalid && at_combinator {
        let next = if start < usize::MAX { start + 1 } else { start };
        if next <= style_end { next } else if start <= style_end { style_end } else { start }
    } else {
        start
    };
    (kind, start, end)
}

/// The diagnostic and range for a lightningcss error in the content
/// `src[content_start..content_end]` of a style element ending at `style_end`.
pub open spec fn spec_css_syntax_error_range(
    src: Seq<char>,
    error: CssSyntaxError,
    content_start: int,
    content_end: int,
    style_end: int,
) -> (CompilerDiagnosticKind, int, int) {
    let content = src.subrange(content_start, content_end);
    let offset = match error.location {
        Some((line, column)) => spec_css_error_offset(content, line as int, column as int),
        None => content.len() as int,
    };
    let start = if error.problem == CssProblem::BadString {
        style_end
    } else if content_start + offset <= content_end {
        content_start + offset
    } else {
        content_end
    };
    let kind = spec_css_problem_kind(error.problem);
    let at_combinator = start < src.len() && (src[start] == '>' || src[start] == '+' || src[start] == '~'
        || src[start] == '|');
    let end = if kind == CompilerDiagnosticKind::CssSelectorInvalid && at_combinator {
        let next = if start < usize::MAX {
            start + 1
        } else {
            start
        };
        if next <= style_end {
            next
        } else if start <= style_end {
            style_end
        } else {
            start
        }
    } else {
        start
    };
    (kind, start, end)
}

/// The scan of the style elements `root.styles[i..]` for lightningcss errors,
/// after the error `deferred` was kept back: whether an error ends the scan
/// at once, and that error or the first one kept back.
pub open spec fn css_scan_from(
    src: Seq<char>,
    root: Root,
    i: int,
    deferred: Option<(CompilerDiagnosticKind, int, int)>,
) -> (bool, Option<(CompilerDiagnosticKind, int, int)>)
    decreases root.styles@.len() - i,
{
    if 0 <= i < root.styles@.len() {
        let style = root.styles@[i];
        if !(style.content.start <= style.content.end && style.content.end <= src.len()) {
            css_scan_from(src, root, i + 1, deferred)
        } else {
            match lightningcss_parse_outcome(src.subrange(style.content.start as int, style.content.end as int)) {
                Some(error) => {
                    let range = spec_css_syntax_error_range(
                        src,
                        error,
                        style.content.start as int,
                        style.content.end as int,
                        style.end as int,
                    );
                    if root.css is Some && error.problem != CssProblem::BadString {
                        css_scan_from(
                            src,
                            root,
                            i + 1,
                            if deferred is None {
                                Some(range)
                            } else {
                                deferred
                            },
                        )
                    } else {
                        (true, Some(range))
                    }
                },
                None => css_scan_from(src, root, i + 1, deferred),
            }
        }
    } else {
        (false, deferred)
    }
}

/// What the style checks report for a component.
pub open spec fn spec_detect_css_errors(src: Seq<char>, root: Root) -> Option<ErrorView> {
    let hp = match root.css {
        Some(css) => hp_css_from(css.children@, 0),
        None => None,
    };
    if hp is Some {
        hp
    } else {
        let (immediate, found) = css_scan_from(src, root, 0, None);
        if immediate {
            match found {
                Some((k, s, e)) => Some(kind_error_view(k, s, e)),
                None => None,
            }
        } else {
            match root.css {
                Some(css) => match found {
                    Some((k, s, e)) => if !uses_css_from(css.children@, 0) {
                        Some(kind_error_view(k, s, e))
                    } else {
                        structure_errors_from(css.children@, 0)
                    },
                    None => structure_errors_from(css.children@, 0),
                },
                None => None,
            }
        }
    }
}

/// A range with integer ends.
pub open spec fn int_range(r: Option<(CompilerDiagnosticKind, usize, usize)>) -> Option<(CompilerDiagnosticKind, int, int)> {
    match r {
        Some((k, s, e)) => Some((k, s as int, e as int)),
        None => None,
    }
}

/// The style errors of a component: `:global` placement errors first; then
/// lightningcss syntax errors (deferred, when the component has a style
/// sheet, behind its selector errors and dropped when it uses syntax
/// lightningcss does not know); then selector structure errors.
pub fn detect_css_errors(src: &[char], root: &Root) -> (r: Option<CompileError>)
    ensures
        option_error_view(r) == spec_detect_css_errors(src@, *root),
{
    if let Some(css) = &root.css {
        if let Some(e) = detect_css_high_priority_structure_errors(css) {
            return Some(e);
        }
    }
    let mut deferred: Option<(CompilerDiagnosticKind, usize, usize)> = None;
    let mut i: usize = 0;
    while i < root.styles.len()
        invariant
            i <= root.styles@.len(),
            (match root.css {
                Some(css) => hp_css_from(css.children@, 0),
                None => None,
            }) is None,
            css_scan_from(src@, *root, i as int, int_range(deferred)) == css_scan_from(src@, *root, 0, None),
        decreases root.styles.len() - i,
    {
        let style = &root.styles[i];
        if !(style.content.start <= style.content.end && style.content.end <= src.len()) {
            i += 1;
            continue;
        }
        let content = crate::text::slice_chars(src, style.content.start, style.content.end);
        if let Some(error) = lightningcss_syntax_error(content.as_slice()) {
            let (kind, start, end) = css_syntax_error_range(src, error, style.content.start, style.content.end, style.end);
            if root.css.is_some() && error.problem != CssProblem::BadString {
                if deferred.is_none() {
                    deferred = Some((kind, start, end));
                }
            } else {
                return Some(compile_error_with_range(kind, start, end));
            }
        }
        i += 1;
    }
    if let Some(css) = &root.css {
        if let Some((kind, start, end)) = deferred {
            if !css_uses_extended_syntax(css) {
                return Some(compile_error_with_range(kind, start, end));
            }
        }
        if let Some(e) = detect_css_selector_structure_errors(css) {
            return Some(e);
        }
    }
    None
}

} // verus!
