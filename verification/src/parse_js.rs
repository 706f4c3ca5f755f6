//! The JavaScript pieces of a component: expressions, patterns, parameters and
//! declarations, each read by `oxc` at its place in the component source.
use vstd::prelude::*;

use crate::ast::{Expression, ExpressionSyntax, ParseError, ParseErrorKind};
use crate::estree::{
    field_array, field_object, make_identifier, node_span, take_array, take_object, type_is, EstreeNode,
    EstreeValue, RawField,
};
use crate::js::parse_program;
use crate::scan::{skip_space, trim_end};
use crate::text::{chars_of, is_space, push_chars, push_str, slice_chars};

verus! {

/// An identifier with an empty name at `start..end`: what stands for an
/// expression that could not be read.
pub fn placeholder_expression(start: usize, end: usize) -> (e: Expression)
    ensures
        crate::estree::is_identifier_node(e.0, Seq::empty(), start, end),
        e.1.parens == 0,
{
    Expression(make_identifier(Vec::new(), start, end), ExpressionSyntax { parens: 0 })
}

/// The parentheses that wrap all of `src[s..e]`, counted from `parens` on,
/// and the range inside them.
pub open spec fn strip_parens_from(src: Seq<char>, s: int, e: int, parens: int) -> (int, int, int)
    decreases e - s,
{
    if 0 <= s < e && e <= src.len() && src[s] == '(' && src[e - 1] == ')' && parens < u16::MAX {
        match crate::scan::closing_paren_from(src, s + 1, e, 0) {
            Some(close) => if close + 1 == e {
                let s1 = crate::scan::space_end_from(src, s + 1);
                let s2 = if s1 > close {
                    close
                } else {
                    s1
                };
                let e2 = crate::scan::space_trail_start(src, s2, close);
                if s < s2 <= e2 < e {
                    strip_parens_from(src, s2, e2, parens + 1)
                } else {
                    (parens + 1, s2, e2)
                }
            } else {
                (parens, s, e)
            },
            None => (parens, s, e),
        }
    } else {
        (parens, s, e)
    }
}

/// The bounds of the text of `src[start..end]` without its white space at
/// either end.
pub open spec fn trimmed_bounds(src: Seq<char>, start: int, end: int) -> (int, int) {
    let s0 = crate::scan::space_end_from(src, start);
    let s = if s0 > end {
        end
    } else {
        s0
    };
    (s, crate::scan::space_trail_start(src, s, end))
}

/// Whether the parser reported an error for `snippet`.
pub open spec fn parse_failed(snippet: Seq<char>, typescript: bool) -> bool {
    crate::js::oxc_parse(snippet, typescript).1 is Some || crate::js::oxc_parse(snippet, typescript).2
}

/// How a list of errors grows when reading `snippet`, which stands for
/// `start..end`, fails or not: by the parser's message at that range, or not at all.
pub open spec fn errors_after(
    before: Seq<ParseError>,
    after: Seq<ParseError>,
    failed: bool,
    snippet: Seq<char>,
    start: int,
    end: int,
) -> bool {
    if failed {
        &&& after.len() == before.len() + 1
        &&& after.drop_last() == before
        &&& after.last() matches ParseError { kind: ParseErrorKind::JsParseError { message }, start: es, end: ee }
        &&& message@ == crate::js::reported_message(crate::js::oxc_parse(snippet, true).1)
        &&& es == start
        &&& ee == end
    } else {
        after == before
    }
}

/// The number of parentheses that wrap all of `src[start..end]` and the range inside them.
pub fn strip_parens(src: &[char], start: usize, end: usize) -> (r: (u16, usize, usize))
    requires
        start <= end <= src@.len(),
    ensures
        start <= r.1 <= r.2 <= end,
        (r.0 as int, r.1 as int, r.2 as int) == strip_parens_from(src@, start as int, end as int, 0),
{
    let mut parens: u16 = 0;
    let mut s = start;
    let mut e = end;
    while s < e && src[s] == '(' && src[e - 1] == ')' && parens < u16::MAX
        invariant
            start <= s <= e <= end <= src@.len(),
            strip_parens_from(src@, s as int, e as int, parens as int) == strip_parens_from(
                src@,
                start as int,
                end as int,
                0,
            ),
        ensures
            start <= s <= e <= end <= src@.len(),
            strip_parens_from(src@, s as int, e as int, parens as int) == strip_parens_from(
                src@,
                start as int,
                end as int,
                0,
            ),
            strip_parens_from(src@, s as int, e as int, parens as int) == (parens as int, s as int, e as int),
        decreases e - s,
    {
        match crate::scan::find_closing_paren(src, s + 1, e) {
            Some(close) => {
                if close + 1 == e {
                    s = skip_space(src, s + 1);
                    if s > close {
                        s = close;
                    }
                    e = trim_end(src, s, close);
                    parens += 1;
                } else {
                    break;
                }
            },
            None => {
                break;
            },
        }
    }
    (parens, s, e)
}

/// The first item of an array value, taken out.
fn take_first(items: Vec<EstreeValue>) -> (r: Option<EstreeNode>)
    ensures
        r == (if items@.len() > 0 {
            match items@[0] {
                EstreeValue::Object(n) => Some(n),
                _ => None,
            }
        } else {
            None
        }),
{
    let mut items = items;
    if items.len() == 0 {
        return None;
    }
    match items.remove(0) {
        EstreeValue::Object(n) => Some(n),
        _ => None,
    }
}

/// The expression of the first statement of a program, taken out.
fn take_program_expression(program: EstreeNode) -> (r: Option<EstreeNode>)
    ensures
        crate::json::node_view(r) == crate::json::json_program_expression(crate::json::node_view(Some(program))),
{
    proof {
        reveal_strlit("body");
        reveal_strlit("expression");
        crate::json::lemma_object_view(program);
        crate::json::lemma_member_view(program, "body"@, 0);
    }
    let body = match take_array(program, "body") {
        Some(b) => b,
        None => return None,
    };
    proof {
        crate::json::lemma_array_view(body);
    }
    let statement = match take_first(body) {
        Some(st) => st,
        None => return None,
    };
    proof {
        crate::json::lemma_object_view(statement);
        crate::json::lemma_member_view(statement, "expression"@, 0);
    }
    let r = take_object(statement, "expression");
    proof {
        if r is Some {
            crate::json::lemma_object_view(r->0);
        }
    }
    r
}

/// The expression written at `src[start..end]`, read as TypeScript; a parse
/// error is recorded in `errors` and an empty identifier stands in.
pub fn expression_from_range(
    src: &[char],
    start: usize,
    end: usize,
    errors: &mut Vec<ParseError>,
) -> (e: Expression)
    requires
        start <= end <= src@.len(),
    ensures
        ({
            let (s0, e0) = trimmed_bounds(src@, start as int, end as int);
            let (parens, s, t) = strip_parens_from(src@, s0, e0, 0);
            let snippet = seq!['('] + src@.subrange(s, t) + seq![')'];
            &&& e.1.parens == parens
            &&& (s < t && s != 0 && snippet.len() <= (usize::MAX - 1) / 4) ==> match crate::json::json_program_expression(
                crate::json::spec_json_object(
                    crate::js::oxc_parse(snippet, true).0,
                    ((s - 1) as usize, crate::json::spec_offset_bytes(snippet)),
                ),
            ) {
                Some(x) => crate::json::value_view(EstreeValue::Object(e.0)) == x,
                None => crate::estree::is_identifier_node(e.0, Seq::empty(), s0 as usize, e0 as usize),
            }
            &&& !(s < t && s != 0) ==> crate::estree::is_identifier_node(e.0, Seq::empty(), s0 as usize, e0 as usize)
            &&& errors_after(
                old(errors)@,
                final(errors)@,
                s < t && s != 0 && parse_failed(snippet, true),
                snippet,
                s,
                t,
            )
        }),
{
    let s0 = skip_space(src, start);
    let s0 = if s0 > end { end } else { s0 };
    let e0 = trim_end(src, s0, end);
    let (parens, s, e) = strip_parens(src, s0, e0);
    if s >= e || s == 0 {
        return Expression(make_identifier(Vec::new(), s0, e0), ExpressionSyntax { parens });
    }
    let mut snippet: Vec<char> = Vec::new();
    snippet.push('(');
    let inner = slice_chars(src, s, e);
    push_chars(&mut snippet, inner.as_slice());
    snippet.push(')');
    assert(snippet@ == seq!['('] + src@.subrange(s as int, e as int) + seq![')']);
    let (program, error) = parse_program(snippet.as_slice(), s - 1, true);
    if let Some(message) = error {
        errors.push(ParseError {
            kind: ParseErrorKind::JsParseError { message },
            start: s,
            end: e,
        });
        assert(errors@.drop_last() =~= old(errors)@);
    }
    match program {
        Some(p) => match take_program_expression(p) {
            Some(node) => Expression(node, ExpressionSyntax { parens }),
            None => Expression(make_identifier(Vec::new(), s0, e0), ExpressionSyntax { parens }),
        },
        None => Expression(make_identifier(Vec::new(), s0, e0), ExpressionSyntax { parens }),
    }
}

/// The nodes of expressions, as plain values.
pub open spec fn expressions_view(es: Seq<Expression>) -> Seq<crate::json::JsonView> {
    es.map_values(|e: Expression| crate::json::value_view(EstreeValue::Object(e.0)))
}

/// The parameter list written at `src[start..end]` (without its parentheses),
/// read as the parameters of an arrow function.
pub fn params_from_range(
    src: &[char],
    start: usize,
    end: usize,
    errors: &mut Vec<ParseError>,
) -> (r: Vec<Expression>)
    requires
        start <= end <= src@.len(),
    ensures
        ({
            let (s, t) = trimmed_bounds(src@, start as int, end as int);
            let snippet = seq!['('] + src@.subrange(s, t) + ") => {}"@;
            &&& errors_after(
                old(errors)@,
                final(errors)@,
                s < t && s != 0 && parse_failed(snippet, true),
                snippet,
                s,
                t,
            )
            &&& !(s < t && s != 0) ==> r@.len() == 0
            &&& (s < t && s != 0 && snippet.len() <= (usize::MAX - 1) / 4) ==> expressions_view(r@) == crate::json::json_arrow_params(
                crate::json::spec_json_object(
                    crate::js::oxc_parse(snippet, true).0,
                    ((s - 1) as usize, crate::json::spec_offset_bytes(snippet)),
                ),
            )
            &&& forall|k: int| 0 <= k < r@.len() ==> (#[trigger] r@[k]).1.parens == 0
        }),
{
    let mut out: Vec<Expression> = Vec::new();
    proof {
        assert(expressions_view(out@) =~= Seq::<crate::json::JsonView>::empty());
    }
    let s = skip_space(src, start);
    let s = if s > end { end } else { s };
    let e = trim_end(src, s, end);
    if s >= e || s == 0 {
        return out;
    }
    let mut snippet: Vec<char> = Vec::new();
    snippet.push('(');
    let inner = slice_chars(src, s, e);
    push_chars(&mut snippet, inner.as_slice());
    push_str(&mut snippet, ") => {}");
    assert(snippet@ == seq!['('] + src@.subrange(s as int, e as int) + ") => {}"@);
    let (program, error) = parse_program(snippet.as_slice(), s - 1, true);
    if let Some(message) = error {
        errors.push(ParseError {
            kind: ParseErrorKind::JsParseError { message },
            start: s,
            end: e,
        });
        assert(errors@.drop_last() =~= old(errors)@);
    }
    let program = match program {
        Some(p) => p,
        None => {
            return out;
        },
    };
    let arrow = match take_program_expression(program) {
        Some(a) => a,
        None => {
            return out;
        },
    };
    proof {
        reveal_strlit("params");
        crate::json::lemma_object_view(arrow);
        crate::json::lemma_member_view(arrow, "params"@, 0);
    }
    let params = match take_array(arrow, "params") {
        Some(p) => p,
        None => {
            return out;
        },
    };
    proof {
        crate::json::lemma_array_view(params);
    }
    let ghost all = crate::json::vals_view(params@);
    let mut params = params;
    while params.len() > 0
        invariant
            expressions_view(out@) + crate::json::objects_of(crate::json::vals_view(params@)) == crate::json::objects_of(all),
            forall|k: int| 0 <= k < out@.len() ==> (#[trigger] out@[k]).1.parens == 0,
        decreases params.len(),
    {
        let ghost before = params@;
        let ghost out_before = out@;
        let first = params.remove(0);
        proof {
            assert(crate::json::vals_view(params@) =~= crate::json::vals_view(before).subrange(1, before.len() as int));
            assert(crate::json::vals_view(before)[0] == crate::json::value_view(first));
        }
        match first {
            EstreeValue::Object(n) => {
                proof {
                    crate::json::lemma_object_view(n);
                }
                out.push(Expression(n, ExpressionSyntax { parens: 0 }));
                proof {
                    assert(expressions_view(out@) =~= expressions_view(out_before).push(
                        crate::json::value_view(EstreeValue::Object(n)),
                    ));
                    assert(expressions_view(out@) + crate::json::objects_of(crate::json::vals_view(params@)) =~= expressions_view(out_before)
                        + crate::json::objects_of(crate::json::vals_view(before)));
                }
            },
            _ => {
                proof {
                    assert(expressions_view(out@) + crate::json::objects_of(crate::json::vals_view(params@)) =~= expressions_view(out_before)
                        + crate::json::objects_of(crate::json::vals_view(before)));
                }
            },
        }
    }
    proof {
        assert(crate::json::vals_view(params@) =~= Seq::<crate::json::JsonView>::empty());
        assert(expressions_view(out@) =~= expressions_view(out@) + crate::json::objects_of(crate::json::vals_view(params@)));
    }
    out
}

/// The binding pattern written at `src[start..end]`.
pub fn pattern_from_range(
    src: &[char],
    start: usize,
    end: usize,
    errors: &mut Vec<ParseError>,
) -> (r: Option<Expression>)
    requires
        start <= end <= src@.len(),
    ensures
        ({
            let (s, t) = trimmed_bounds(src@, start as int, end as int);
            let snippet = seq!['('] + src@.subrange(s, t) + ") => {}"@;
            &&& errors_after(
                old(errors)@,
                final(errors)@,
                s < t && s != 0 && parse_failed(snippet, true),
                snippet,
                s,
                t,
            )
            &&& !(s < t && s != 0) ==> r is None
            &&& (s < t && s != 0 && snippet.len() <= (usize::MAX - 1) / 4) ==> ({
                let ps = crate::json::json_arrow_params(
                    crate::json::spec_json_object(
                        crate::js::oxc_parse(snippet, true).0,
                        ((s - 1) as usize, crate::json::spec_offset_bytes(snippet)),
                    ),
                );
                match r {
                    Some(x) => ps.len() > 0 && crate::json::value_view(EstreeValue::Object(x.0)) == ps[0] && x.1.parens == 0,
                    None => ps.len() == 0,
                }
            })
        }),
{
    let mut params = params_from_range(src, start, end, errors);
    if params.len() == 0 {
        None
    } else {
        proof {
            assert(expressions_view(params@)[0] == crate::json::value_view(EstreeValue::Object(params@[0].0)));
        }
        Some(params.remove(0))
    }
}

/// The declaration written at `src[start..end]` (such as `const x = y`): the
/// first statement of it read as a TypeScript program.
pub fn declaration_from_range(
    src: &[char],
    start: usize,
    end: usize,
    errors: &mut Vec<ParseError>,
) -> (e: Expression)
    requires
        start <= end <= src@.len(),
    ensures
        ({
            let e0 = crate::scan::space_trail_start(src@, start as int, end as int);
            let snippet = src@.subrange(start as int, e0);
            &&& snippet.len() <= (usize::MAX - 1) / 4 ==> match crate::json::json_first_statement(
                crate::json::spec_json_object(
                    crate::js::oxc_parse(snippet, true).0,
                    (start, crate::json::spec_offset_bytes(snippet)),
                ),
            ) {
                Some(x) => crate::json::value_view(EstreeValue::Object(e.0)) == x,
                None => crate::estree::is_identifier_node(e.0, Seq::empty(), start, e0 as usize),
            }
            &&& {
            ||| final(errors)@ == old(errors)@
            ||| parse_failed(snippet, true) && errors_after(old(errors)@, final(errors)@, true, snippet, start as int, e0)
            }
        }),
{
    let e0 = trim_end(src, start, end);
    let snippet = slice_chars(src, start, e0);
    let (program, error) = parse_program(snippet.as_slice(), start, true);
    let statement = match program {
        Some(p) => {
            proof {
                reveal_strlit("body");
                crate::json::lemma_object_view(p);
                crate::json::lemma_member_view(p, "body"@, 0);
            }
            match take_array(p, "body") {
                Some(body) => {
                    proof {
                        crate::json::lemma_array_view(body);
                    }
                    take_first(body)
                },
                None => None,
            }
        },
        None => None,
    };
    proof {
        if statement is Some {
            crate::json::lemma_object_view(statement->0);
        }
    }
    match statement {
        Some(st) => {
            let parens: u16 = if declared_sequence_in_parens(src, &st) { 1 } else { 0 };
            Expression(st, ExpressionSyntax { parens })
        },
        None => {
            if let Some(message) = error {
                let ghost before = errors@;
                proof {
                    assert(message@ == crate::js::reported_message(crate::js::oxc_parse(snippet@, true).1));
                }
                errors.push(ParseError { kind: ParseErrorKind::JsParseError { message }, start, end: e0 });
                proof {
                    assert(errors@.drop_last() == before);
                }
            }
            placeholder_expression(start, e0)
        },
    }
}

/// Where the white space that ends just before `k` starts.
pub open spec fn space_start_before(src: Seq<char>, k: int) -> int
    decreases k,
{
    if k > 0 && k <= src.len() && crate::text::spec_is_space(src[k - 1]) {
        space_start_before(src, k - 1)
    } else {
        k
    }
}

/// Whether a declaration with one declarator initialises it with a sequence
/// expression written inside parentheses, as in `value = (a, b)`.
pub open spec fn spec_declared_sequence_in_parens(src: Seq<char>, declaration: EstreeNode) -> bool {
    crate::estree::spec_type_is(declaration, "VariableDeclaration"@) && match crate::estree::spec_field(
        declaration,
        RawField::Declarations.spec_key()@,
    ) {
        Some(EstreeValue::Array(ds)) => ds@.len() == 1 && match ds@[0] {
            EstreeValue::Object(d) => match crate::estree::spec_field(d, RawField::Init.spec_key()@) {
                Some(EstreeValue::Object(init)) => crate::estree::spec_type_is(init, "SequenceExpression"@) && match crate::estree::spec_estree_span(init) {
                    Some((s, _)) => {
                        let k = space_start_before(src, s);
                        k > 0 && k <= src.len() && src[k - 1] == '('
                    },
                    None => false,
                },
                _ => false,
            },
            _ => false,
        },
        _ => false,
    }
}

/// Whether a declaration with one declarator initialises it with a sequence
/// expression written inside parentheses, as in `value = (a, b)`.
fn declared_sequence_in_parens(src: &[char], declaration: &EstreeNode) -> (r: bool)
    ensures
        r == spec_declared_sequence_in_parens(src@, *declaration),
{
    if !type_is(declaration, "VariableDeclaration") {
        return false;
    }
    let declarations = match field_array(declaration, RawField::Declarations) {
        Some(d) => d,
        None => return false,
    };
    if declarations.len() != 1 {
        return false;
    }
    let init = match &declarations[0] {
        EstreeValue::Object(d) => match field_object(d, RawField::Init) {
            Some(i) => i,
            None => return false,
        },
        _ => return false,
    };
    if !type_is(init, "SequenceExpression") {
        return false;
    }
    let start = match node_span(init) {
        Some((s, _)) => s,
        None => return false,
    };
    let mut k = start;
    while k > 0 && k <= src.len() && is_space(src[k - 1])
        invariant
            k <= start,
            space_start_before(src@, k as int) == space_start_before(src@, start as int),
        decreases k,
    {
        k -= 1;
    }
    k > 0 && k <= src.len() && src[k - 1] == '('
}

/// The program written at `src[start..end]`, as TypeScript when `typescript` holds.
pub fn program_from_range(src: &[char], start: usize, end: usize, typescript: bool) -> (r: (
    EstreeNode,
    bool,
))
    requires
        start <= end <= src@.len(),
    ensures
        r.1 == (crate::js::oxc_parse(src@.subrange(start as int, end as int), typescript).1 is Some
            || crate::js::oxc_parse(src@.subrange(start as int, end as int), typescript).2),
        end - start <= (usize::MAX - 1) / 4 ==> match crate::json::spec_json_object(
            crate::js::oxc_parse(src@.subrange(start as int, end as int), typescript).0,
            (start, crate::json::spec_offset_bytes(src@.subrange(start as int, end as int))),
        ) {
            Some(v) => crate::json::value_view(EstreeValue::Object(r.0)) == v,
            None => r.0.fields@.len() == 0,
        },
{
    let snippet = slice_chars(src, start, end);
    let (program, error) = parse_program(snippet.as_slice(), start, typescript);
    let has_errors = error.is_some();
    match program {
        Some(p) => (p, has_errors),
        None => (EstreeNode { fields: Vec::new() }, has_errors),
    }
}

} // verus!
