//! JavaScript and TypeScript snippets, read by the `oxc` parser into ESTree nodes.
use vstd::prelude::*;

use crate::estree::{field_array, field_object, EstreeNode, EstreeValue, RawField};
use crate::json::{offset_map, parse_json_object};
use crate::text::{chars_of, text_is};

verus! {

/// What `oxc` gives for a program text: its ESTree JSON text (TypeScript members
/// included when `typescript` holds), the message of the first syntax error it
/// reported, if any, and whether it gave up on the text.
pub uninterp spec fn oxc_parse(source: Seq<char>, typescript: bool) -> (Seq<char>, Option<Seq<char>>, bool);

/// The view of an optional text.
pub open spec fn optional_text(o: Option<Vec<char>>) -> Option<Seq<char>> {
    match o {
        Some(v) => Some(v@),
        None => None,
    }
}

/// Parses `source` with `oxc_parser::Parser` (as a TypeScript module when
/// `typescript` holds, else as an ES module; parentheses are not kept as nodes)
/// and serialises the program with `Program::to_estree_json`. The contract
/// names the result: the JSON text, the first diagnostic's message and whether
/// the parser panicked depend on the text and the language alone.
#[verifier::external_body]
fn oxc_parse_program(source: &[char], typescript: bool) -> (r: (Vec<char>, Option<Vec<char>>, bool))
    ensures
        (r.0@, optional_text(r.1), r.2) == oxc_parse(source@, typescript),
{
    let text: String = source.iter().collect();
    let allocator = oxc_allocator::Allocator::default();
    let source_type = if typescript { oxc_span::SourceType::ts().with_module(true) } else { oxc_span::SourceType::mjs() };
    let options = oxc_parser::ParseOptions { preserve_parens: false, ..Default::default() };
    let parsed = oxc_parser::Parser::new(&allocator, &text, source_type).with_options(options).parse();
    let json = parsed.program.to_estree_json(typescript, false);
    let first = parsed.diagnostics.first().map(|d| d.message.chars().collect());
    (json.chars().collect(), first, parsed.panicked)
}

/// The message a syntax error is reported with, for the parser's first message.
pub open spec fn reported_message(message: Option<Seq<char>>) -> Seq<char> {
    match message {
        None => "Unexpected token"@,
        Some(m) => if m == "Cannot assign to this expression"@ {
            "Assigning to rvalue"@
        } else {
            m
        },
    }
}

/// The message a syntax error is reported with: the parser's own, but for
/// an assignment to something that cannot be assigned, which is reported as
/// `Assigning to rvalue`; `Unexpected token` when the parser gave none.
pub fn js_error_message(message: Option<Vec<char>>) -> (r: Vec<char>)
    ensures
        r@ == reported_message(optional_text(message)),
{
    match message {
        None => chars_of("Unexpected token"),
        Some(m) => {
            if text_is(m.as_slice(), "Cannot assign to this expression") {
                chars_of("Assigning to rvalue")
            } else {
                m
            }
        },
    }
}

/// A program parsed from `snippet`, which stands at character `base` of the
/// component, with every offset moved into the component's coordinates, and
/// the message of its first syntax error, if the parser reported any.
pub fn parse_program(snippet: &[char], base: usize, typescript: bool) -> (r: (
    Option<EstreeNode>,
    Option<Vec<char>>,
))
    ensures
        r.1 is None <==> (oxc_parse(snippet@, typescript).1 is None && !oxc_parse(snippet@, typescript).2),
        r.1 is Some ==> r.1.unwrap()@ == reported_message(oxc_parse(snippet@, typescript).1),
        snippet@.len() <= (usize::MAX - 1) / 4 ==> crate::json::node_view(r.0) == crate::json::spec_json_object(
            oxc_parse(snippet@, typescript).0,
            (base, crate::json::spec_offset_bytes(snippet@)),
        ),
        snippet@.len() > (usize::MAX - 1) / 4 ==> r.0 is None,
{
    let (json, first, panicked) = oxc_parse_program(snippet, typescript);
    let error = if first.is_some() || panicked { Some(js_error_message(first)) } else { None };
    if snippet.len() > (usize::MAX - 1) / 4 {
        return (None, error);
    }
    let map = offset_map(snippet, base);
    (parse_json_object(json.as_slice(), &map), error)
}

/// The first statement of a program's body, where it is a node.
pub open spec fn spec_first_statement(program: EstreeNode) -> Option<EstreeNode> {
    match crate::estree::spec_field(program, RawField::Body.spec_key()@) {
        Some(EstreeValue::Array(body)) => if body@.len() > 0 {
            match body@[0] {
                EstreeValue::Object(n) => Some(n),
                _ => None,
            }
        } else {
            None
        },
        _ => None,
    }
}

/// The expression of a program's first statement, where it is a node.
pub open spec fn spec_program_expression(program: EstreeNode) -> Option<EstreeNode> {
    match spec_first_statement(program) {
        Some(statement) => match crate::estree::spec_field(statement, RawField::Expression.spec_key()@) {
            Some(EstreeValue::Object(n)) => Some(n),
            _ => None,
        },
        None => None,
    }
}

/// The first statement of a program's body, as a node.
pub fn first_statement(program: &EstreeNode) -> (r: Option<&EstreeNode>)
    ensures
        match r {
            Some(n) => Some(*n),
            None => None,
        } == spec_first_statement(*program),
{
    let body = field_array(program, RawField::Body)?;
    if body.len() == 0 {
        return None;
    }
    match &body[0] {
        EstreeValue::Object(n) => Some(n),
        _ => None,
    }
}

/// The expression of a program made of one expression statement.
pub fn program_expression(program: &EstreeNode) -> (r: Option<&EstreeNode>)
    ensures
        match r {
            Some(n) => Some(*n),
            None => None,
        } == spec_program_expression(*program),
{
    let statement = first_statement(program)?;
    field_object(statement, RawField::Expression)
}

} // verus!
