//! Checks of `{#snippet}` blocks: malformed headers, rest parameters,
//! conflicts with implicit children and `<slot>`, exports, and assignments
//! to snippet parameters.
use vstd::prelude::*;

use crate::ast::{
    Attribute, AttributeValue, AttributeValueList, Entry, Expression, Fragment, Node, Root, Search, SnippetBlock,
    SnippetHeaderErrorKind,
};
use crate::bindings::{
    assignment_to_names, base_identifier_name, collect_binding_names, contains_name, mentions_any_name,
};
use crate::diagnostics::{compile_error_with_range, first_error, kind_error_view, option_error_view, CompileError, CompilerDiagnosticKind, ErrorView};
use crate::walk::{lift_find, search_from};
use crate::estree::{field_array, field_object, identifier_name, node_span, type_is, EstreeNode, EstreeValue, RawField};
use crate::template::is_blank;
use crate::text::{chars_eq, text_is};
use crate::walk::Visitor;

verus! {

/// The header error of a snippet block entry: its kind and range.
pub open spec fn spec_snippet_header_error(entry: Entry) -> Option<(SnippetHeaderErrorKind, usize, usize)> {
    match entry {
        Entry::Node(n) => match *n {
            Node::SnippetBlock(b) => match b.header_error {
                Some(err) => Some((err.kind, err.start, err.end)),
                None => None,
            },
            _ => None,
        },
        _ => None,
    }
}

/// The diagnostic for a snippet header error of `kind`.
pub open spec fn header_error_diagnostic(kind: SnippetHeaderErrorKind) -> CompilerDiagnosticKind {
    match kind {
        SnippetHeaderErrorKind::ExpectedRightBrace => CompilerDiagnosticKind::ExpectedTokenRightBrace,
        SnippetHeaderErrorKind::ExpectedRightParen => CompilerDiagnosticKind::ExpectedTokenRightParen,
    }
}

/// The header error of a snippet block entry.
fn snippet_header_error_of(entry: Entry<'_>) -> (r: Option<(SnippetHeaderErrorKind, usize, usize)>)
    ensures
        r matches Some((k, s, e)) ==> entry matches Entry::Node(Node::SnippetBlock(b)) && b.header_error == Some(
            crate::ast::SnippetHeaderError { kind: k, start: s, end: e },
        ),
        r == spec_snippet_header_error(entry),
{
    match entry {
        Entry::Node(Node::SnippetBlock(block)) => match &block.header_error {
            Some(err) => Some((err.kind, err.start, err.end)),
            None => None,
        },
        _ => None,
    }
}

/// The error for the first snippet block, in document order, whose header
/// lacks its `}` or `)`.
pub open spec fn spec_malformed_header_error(root: &Root) -> Option<ErrorView> {
    match search_from(&root.fragment, 0, lift_find(|e: Entry| spec_snippet_header_error(e))) {
        Some((k, s, e)) => Some(kind_error_view(header_error_diagnostic(k), s as int, e as int)),
        None => None,
    }
}

/// The error for the first snippet block, in document order, whose header
/// lacks its `}` or `)`.
pub fn detect_malformed_snippet_headers(root: &Root) -> (r: Option<CompileError>)
    ensures
        r matches Some(e) ==> e.code == "expected_token",
        option_error_view(r) == spec_malformed_header_error(root),
{
    match root.fragment.find_map_as(snippet_header_error_of, Ghost(|e: Entry| spec_snippet_header_error(e))) {
        Some((kind, start, end)) => {
            let k = match kind {
                SnippetHeaderErrorKind::ExpectedRightBrace => CompilerDiagnosticKind::ExpectedTokenRightBrace,
                SnippetHeaderErrorKind::ExpectedRightParen => CompilerDiagnosticKind::ExpectedTokenRightParen,
            };
            Some(compile_error_with_range(k, start, end))
        },
        None => None,
    }
}

/// The range of a parameter that is a rest element.
pub fn rest_parameter_span(parameter: &Expression) -> (r: Option<(usize, usize)>)
    ensures
        r is Some ==> crate::estree::spec_type_is(parameter.0, "RestElement"@),
        crate::bindings::int_span(r) == (if crate::estree::spec_type_is(parameter.0, "RestElement"@) {
            crate::estree::spec_estree_span(parameter.0)
        } else {
            None
        }),
{
    if type_is(&parameter.0, "RestElement") {
        node_span(&parameter.0)
    } else {
        None
    }
}

/// The range of the first parameter among `params[i..]` that is a rest
/// element with a range.
pub open spec fn rest_parameter_from(params: Seq<Expression>, i: int) -> Option<(int, int)>
    decreases params.len() - i,
{
    if 0 <= i < params.len() {
        if crate::estree::spec_type_is(params[i].0, "RestElement"@) && crate::estree::spec_estree_span(params[i].0) is Some {
            crate::estree::spec_estree_span(params[i].0)
        } else {
            rest_parameter_from(params, i + 1)
        }
    } else {
        None
    }
}

/// The range of the first rest parameter of a snippet block entry.
pub open spec fn spec_rest_parameter_in_entry(entry: Entry) -> Option<(int, int)> {
    match entry {
        Entry::Node(n) => match *n {
            Node::SnippetBlock(b) => rest_parameter_from(b.parameters@, 0),
            _ => None,
        },
        _ => None,
    }
}

/// The range of the first rest parameter of a snippet block entry.
#[verifier::loop_isolation(false)]
fn rest_parameter_in_entry(entry: Entry<'_>) -> (r: Option<(usize, usize)>)
    ensures
        crate::bindings::int_span(r) == spec_rest_parameter_in_entry(entry),
{
    match entry {
        Entry::Node(Node::SnippetBlock(block)) => {
            let mut i: usize = 0;
            while i < block.parameters.len()
                invariant
                    i <= block.parameters@.len(),
                    rest_parameter_from(block.parameters@, i as int) == rest_parameter_from(block.parameters@, 0),
                decreases block.parameters.len() - i,
            {
                if let Some(span) = rest_parameter_span(&block.parameters[i]) {
                    assert(rest_parameter_from(block.parameters@, i as int) == crate::bindings::int_span(Some(span)));
                    return Some(span);
                }
                i += 1;
            }
            None
        },
        _ => None,
    }
}

/// The range of the first rest parameter of a snippet block entry.
pub open spec fn spec_rest_parameter_span(entry: Entry) -> Option<(usize, usize)> {
    match spec_rest_parameter_in_entry(entry) {
        Some((s, e)) => Some((s as usize, e as usize)),
        None => None,
    }
}

/// The error for the first rest parameter of a snippet, in document order.
pub open spec fn spec_rest_parameter_error(root: &Root) -> Option<ErrorView> {
    match search_from(&root.fragment, 0, lift_find(|e: Entry| spec_rest_parameter_span(e))) {
        Some((s, e)) => Some(kind_error_view(CompilerDiagnosticKind::SnippetInvalidRestParameter, s as int, e as int)),
        None => None,
    }
}

/// The error for the first rest parameter of a snippet, in document order.
pub fn detect_snippet_invalid_rest_parameter(root: &Root) -> (r: Option<CompileError>)
    ensures
        option_error_view(r) == spec_rest_parameter_error(root),
{
    let find = |entry: Entry<'_>| -> (o: Option<(usize, usize)>)
        ensures
            o == spec_rest_parameter_span(entry),
        { rest_parameter_in_entry(entry) };
    match root.fragment.find_map_as(find, Ghost(|e: Entry| spec_rest_parameter_span(e))) {
        Some((s, e)) => Some(compile_error_with_range(CompilerDiagnosticKind::SnippetInvalidRestParameter, s, e)),
        None => None,
    }
}

/// Whether a snippet block is named `children`.
pub open spec fn spec_children_snippet(block: SnippetBlock) -> bool {
    crate::bindings::spec_identifier(block.expression.0) == Some("children"@)
}

/// Whether a snippet block is named `children`.
pub fn is_children_snippet(block: &SnippetBlock) -> (r: bool)
    ensures
        r == spec_children_snippet(*block),
{
    match identifier_name(&block.expression.0) {
        Some(name) => text_is(name.as_slice(), "children"),
        None => false,
    }
}

/// Whether a node counts as content of a component's default slot: neither
/// a snippet, nor a comment, nor blank text.
pub open spec fn spec_implicit_child(node: Node) -> bool {
    match node {
        Node::SnippetBlock(_) | Node::Comment(_) => false,
        Node::Text(t) => !(forall|k: int|
            0 <= k < t.data@.len() ==> crate::css_parser::spec_is_white_space(#[trigger] t.data@[k])),
        _ => true,
    }
}

/// Whether any of `nodes` is content of a component's default slot.
pub fn has_implicit_children(nodes: &Vec<Node>) -> (r: bool)
    ensures
        r == exists|i: int| 0 <= i < nodes@.len() && spec_implicit_child(#[trigger] nodes@[i]),
{
    let mut i: usize = 0;
    while i < nodes.len()
        invariant
            i <= nodes@.len(),
            forall|j: int| 0 <= j < i ==> !spec_implicit_child(#[trigger] nodes@[j]),
        decreases nodes.len() - i,
    {
        let implicit = match &nodes[i] {
            Node::SnippetBlock(_) | Node::Comment(_) => false,
            Node::Text(t) => !is_blank(t.data.as_slice()),
            _ => true,
        };
        if implicit {
            return true;
        }
        i += 1;
    }
    false
}

/// The first `children` snippet among `nodes[i..]`.
pub open spec fn children_snippet_from(nodes: Seq<Node>, i: int) -> Option<SnippetBlock>
    decreases nodes.len() - i,
{
    if 0 <= i < nodes.len() {
        match nodes[i] {
            Node::SnippetBlock(b) => if spec_children_snippet(b) {
                Some(b)
            } else {
                children_snippet_from(nodes, i + 1)
            },
            _ => children_snippet_from(nodes, i + 1),
        }
    } else {
        None
    }
}

/// The range of the first `children` snippet among the direct children of a
/// component, when the component also has default slot content.
pub open spec fn spec_children_conflict(nodes: Seq<Node>) -> Option<(usize, usize)> {
    match children_snippet_from(nodes, 0) {
        Some(b) => if exists|i: int| 0 <= i < nodes.len() && spec_implicit_child(#[trigger] nodes[i]) {
            Some((b.start, b.end))
        } else {
            None
        },
        None => None,
    }
}

/// The range of a `children` snippet among the direct children of a
/// component that also has default slot content.
pub fn children_snippet_conflict(nodes: &Vec<Node>) -> (r: Option<(usize, usize)>)
    ensures
        r is Some ==> exists|i: int| 0 <= i < nodes@.len() && spec_implicit_child(#[trigger] nodes@[i]),
        r == spec_children_conflict(nodes@),
{
    let mut i: usize = 0;
    while i < nodes.len()
        invariant
            i <= nodes@.len(),
            children_snippet_from(nodes@, i as int) == children_snippet_from(nodes@, 0),
        decreases nodes.len() - i,
    {
        if let Node::SnippetBlock(block) = &nodes[i] {
            if is_children_snippet(block) {
                if has_implicit_children(nodes) {
                    return Some((block.start, block.end));
                }
                return None;
            }
        }
        i += 1;
    }
    None
}

/// The `children` conflict of a component entry.
pub open spec fn spec_children_conflict_in_entry(entry: Entry) -> Option<(usize, usize)> {
    match entry {
        Entry::Node(n) => match *n {
            Node::Component(c) => spec_children_conflict(c.fragment.nodes@),
            Node::SvelteComponent(c) => spec_children_conflict(c.fragment.nodes@),
            Node::SvelteSelf(c) => spec_children_conflict(c.fragment.nodes@),
            _ => None,
        },
        _ => None,
    }
}

/// The `children` conflict of a component entry.
fn children_conflict_in_entry(entry: Entry<'_>) -> (r: Option<(usize, usize)>)
    ensures
        r == spec_children_conflict_in_entry(entry),
{
    match entry {
        Entry::Node(Node::Component(c)) => children_snippet_conflict(&c.fragment.nodes),
        Entry::Node(Node::SvelteComponent(c)) => children_snippet_conflict(&c.fragment.nodes),
        Entry::Node(Node::SvelteSelf(c)) => children_snippet_conflict(&c.fragment.nodes),
        _ => None,
    }
}

/// The error for the first component, in document order, with both a
/// `children` snippet and default slot content.
pub open spec fn spec_children_conflict_error(root: &Root) -> Option<ErrorView> {
    match search_from(&root.fragment, 0, lift_find(|e: Entry| spec_children_conflict_in_entry(e))) {
        Some((s, e)) => Some(kind_error_view(CompilerDiagnosticKind::SnippetConflict, s as int, e as int)),
        None => None,
    }
}

/// The error for the first component, in document order, with both a
/// `children` snippet and default slot content.
pub fn detect_snippet_children_conflict(root: &Root) -> (r: Option<CompileError>)
    ensures
        option_error_view(r) == spec_children_conflict_error(root),
{
    match root.fragment.find_map_as(children_conflict_in_entry, Ghost(|e: Entry| spec_children_conflict_in_entry(e))) {
        Some((s, e)) => Some(compile_error_with_range(CompilerDiagnosticKind::SnippetConflict, s, e)),
        None => None,
    }
}

/// The range of a render tag entry.
fn render_tag_in_entry(entry: Entry<'_>) -> (r: Option<(usize, usize)>)
    ensures
        r is Some <==> entry matches Entry::Node(Node::RenderTag(_)),
        r == spec_render_tag_in_entry(entry),
{
    match entry {
        Entry::Node(Node::RenderTag(tag)) => Some((tag.start, tag.end)),
        _ => None,
    }
}

/// The range of a render tag entry.
pub open spec fn spec_render_tag_in_entry(entry: Entry) -> Option<(usize, usize)> {
    match entry {
        Entry::Node(n) => match *n {
            Node::RenderTag(t) => Some((t.start, t.end)),
            _ => None,
        },
        _ => None,
    }
}

/// The range of a slot element entry.
pub open spec fn spec_slot_in_entry(entry: Entry) -> Option<(usize, usize)> {
    match entry {
        Entry::Node(n) => match *n {
            Node::SlotElement(t) => Some((t.start, t.end)),
            _ => None,
        },
        _ => None,
    }
}

/// The range of a slot element entry.
fn slot_in_entry(entry: Entry<'_>) -> (r: Option<(usize, usize)>)
    ensures
        r is Some <==> entry matches Entry::Node(Node::SlotElement(_)),
        r == spec_slot_in_entry(entry),
{
    match entry {
        Entry::Node(Node::SlotElement(slot)) => Some((slot.start, slot.end)),
        _ => None,
    }
}

/// The error for the first `<slot>` when the template also has a `{@render}` tag.
pub open spec fn spec_slot_conflict_error(root: &Root) -> Option<ErrorView> {
    if search_from(&root.fragment, 0, lift_find(|e: Entry| spec_render_tag_in_entry(e))) is Some {
        match search_from(&root.fragment, 0, lift_find(|e: Entry| spec_slot_in_entry(e))) {
            Some((s, e)) => Some(kind_error_view(CompilerDiagnosticKind::SlotSnippetConflict, s as int, e as int)),
            None => None,
        }
    } else {
        None
    }
}

/// The error for the first `<slot>` when the template also has a `{@render}` tag.
pub fn detect_slot_snippet_conflict(root: &Root) -> (r: Option<CompileError>)
    ensures
        r matches Some(e) ==> e.code == CompilerDiagnosticKind::SlotSnippetConflict.code(),
        option_error_view(r) == spec_slot_conflict_error(root),
{
    let has_render = root.fragment.find_map_as(render_tag_in_entry, Ghost(|e: Entry| spec_render_tag_in_entry(e)));
    let slot = root.fragment.find_map_as(slot_in_entry, Ghost(|e: Entry| spec_slot_in_entry(e)));
    match (has_render, slot) {
        (Some(_), Some((s, e))) => Some(compile_error_with_range(CompilerDiagnosticKind::SlotSnippetConflict, s, e)),
        _ => None,
    }
}

/// The name that an export specifier gives its local identifier, with the
/// range of that identifier (else of the specifier), if it has one.
pub open spec fn specifier_export(v: EstreeValue) -> Option<(Seq<char>, Option<(int, int)>)> {
    match v {
        EstreeValue::Object(sp) => match crate::estree::spec_field(sp, RawField::Local.spec_key()@) {
            Some(EstreeValue::Object(local)) => match crate::bindings::spec_identifier(local) {
                Some(name) => Some(
                    (
                        name,
                        match crate::estree::spec_estree_span(local) {
                            Some(x) => Some(x),
                            None => crate::estree::spec_estree_span(sp),
                        },
                    ),
                ),
                None => None,
            },
            _ => None,
        },
        _ => None,
    }
}

/// The first export among the specifiers `items[j..]`.
pub open spec fn first_specifier_export(items: Seq<EstreeValue>, j: int) -> Option<(Seq<char>, Option<(int, int)>)>
    decreases items.len() - j,
{
    if 0 <= j < items.len() {
        match specifier_export(items[j]) {
            Some(x) => Some(x),
            None => first_specifier_export(items, j + 1),
        }
    } else {
        None
    }
}

/// The first export of a statement `export { ... }` without a source.
pub open spec fn statement_export(v: EstreeValue) -> Option<(Seq<char>, Option<(int, int)>)> {
    match v {
        EstreeValue::Object(st) => if crate::estree::spec_type_is(st, "ExportNamedDeclaration"@) && !(
        crate::estree::spec_field(st, RawField::Source.spec_key()@) matches Some(EstreeValue::Object(_))) {
            match crate::estree::spec_field(st, RawField::Specifiers.spec_key()@) {
                Some(EstreeValue::Array(items)) => first_specifier_export(items@, 0),
                _ => None,
            }
        } else {
            None
        },
        _ => None,
    }
}

/// The first export among the statements `body[i..]`.
pub open spec fn first_statement_export(body: Seq<EstreeValue>, i: int) -> Option<(Seq<char>, Option<(int, int)>)>
    decreases body.len() - i,
{
    if 0 <= i < body.len() {
        match statement_export(body[i]) {
            Some(x) => Some(x),
            None => first_statement_export(body, i + 1),
        }
    } else {
        None
    }
}

/// The first name a program exports through `export { ... }` without a
/// source, with the range found for it.
pub open spec fn spec_first_exported_name(program: EstreeNode) -> Option<(Seq<char>, Option<(int, int)>)> {
    match crate::estree::spec_field(program, RawField::Body.spec_key()@) {
        Some(EstreeValue::Array(body)) => first_statement_export(body@, 0),
        _ => None,
    }
}

/// The first name a module script exports through `export { ... }` without
/// a source, with the range of its local name.
#[verifier::loop_isolation(false)]
pub fn first_exported_name(program: &EstreeNode) -> (r: Option<(&Vec<char>, usize, usize)>)
    ensures
        match spec_first_exported_name(*program) {
            Some((name, Some((s, e)))) => r matches Some((n, rs, re)) && n@ == name && rs == s && re == e,
            _ => r is None,
        },
{
    let body = match field_array(program, RawField::Body) {
        Some(b) => b,
        None => return None,
    };
    let mut i: usize = 0;
    while i < body.len()
        invariant
            i <= body@.len(),
            first_statement_export(body@, i as int) == first_statement_export(body@, 0),
        decreases body.len() - i,
    {
        if let EstreeValue::Object(statement) = &body[i] {
            if type_is(statement, "ExportNamedDeclaration") && field_object(statement, RawField::Source).is_none() {
                if let Some(specifiers) = field_array(statement, RawField::Specifiers) {
                    let mut j: usize = 0;
                    while j < specifiers.len()
                        invariant
                            j <= specifiers@.len(),
                            first_specifier_export(specifiers@, j as int) == first_specifier_export(specifiers@, 0),
                        decreases specifiers.len() - j,
                    {
                        if let EstreeValue::Object(specifier) = &specifiers[j] {
                            if let Some(local) = field_object(specifier, RawField::Local) {
                                if let Some(name) = identifier_name(local) {
                                    let span = match node_span(local) {
                                        Some(s) => Some(s),
                                        None => node_span(specifier),
                                    };
                                    return match span {
                                        Some((s, e)) => Some((name, s, e)),
                                        None => None,
                                    };
                                }
                            }
                        }
                        j += 1;
                    }
                }
            }
        }
        i += 1;
    }
    None
}

/// The snippet block of an entry, where it is named `name`.
pub open spec fn spec_snippet_named<'a>(entry: Entry<'a>, name: Seq<char>) -> Option<&'a SnippetBlock> {
    match entry {
        Entry::Node(n) => match n {
            Node::SnippetBlock(b) => if crate::bindings::spec_identifier(b.expression.0) == Some(name) {
                Some(b)
            } else {
                None
            },
            _ => None,
        },
        _ => None,
    }
}

/// The snippet block named `name` in an entry.
fn snippet_named_in_entry<'a>(entry: Entry<'a>, name: &Vec<char>) -> (r: Option<&'a SnippetBlock>)
    ensures
        r == spec_snippet_named(entry, name@),
{
    match entry {
        Entry::Node(Node::SnippetBlock(block)) => match identifier_name(&block.expression.0) {
            Some(n) => if chars_eq(n.as_slice(), name.as_slice()) {
                Some(block)
            } else {
                None
            },
            None => None,
        },
        _ => None,
    }
}

/// Whether a variable declarator binds `n` through its pattern.
pub open spec fn declarator_binds(v: EstreeValue, n: Seq<char>) -> bool {
    match v {
        EstreeValue::Object(d) => match crate::estree::spec_field(d, RawField::Id.spec_key()@) {
            Some(EstreeValue::Object(id)) => crate::bindings::pattern_binds(id, n),
            _ => false,
        },
        _ => false,
    }
}

/// Whether one of the declarators `ds` binds `n`.
pub open spec fn declarators_bind(ds: Seq<EstreeValue>, n: Seq<char>) -> bool {
    exists|j: int| 0 <= j < ds.len() && declarator_binds(#[trigger] ds[j], n)
}

/// Whether a statement is a variable declaration that binds `n`.
pub open spec fn statement_binds(v: EstreeValue, n: Seq<char>) -> bool {
    match v {
        EstreeValue::Object(st) => crate::estree::spec_type_is(st, "VariableDeclaration"@) && match crate::estree::spec_field(
            st,
            RawField::Declarations.spec_key()@,
        ) {
            Some(EstreeValue::Array(ds)) => declarators_bind(ds@, n),
            _ => false,
        },
        _ => false,
    }
}

/// Whether one of the statements `body` is a variable declaration that binds `n`.
pub open spec fn statements_bind(body: Seq<EstreeValue>, n: Seq<char>) -> bool {
    exists|i: int| 0 <= i < body.len() && statement_binds(#[trigger] body[i], n)
}

/// Whether a top-level variable declaration of a program binds `n`.
pub open spec fn program_binds(program: EstreeNode, n: Seq<char>) -> bool {
    match crate::estree::spec_field(program, RawField::Body.spec_key()@) {
        Some(EstreeValue::Array(body)) => statements_bind(body@, n),
        _ => false,
    }
}

/// The names that the top-level variable declarations of a program bind.
pub fn collect_instance_binding_names(program: &EstreeNode) -> (names: Vec<Vec<char>>)
    ensures
        forall|n: Seq<char>| #![trigger crate::bindings::has_name(names@, n)] crate::bindings::has_name(names@, n) <==> program_binds(*program, n),
{
    let mut names: Vec<Vec<char>> = Vec::new();
    let body = match field_array(program, RawField::Body) {
        Some(b) => b,
        None => return names,
    };
    let mut i: usize = 0;
    while i < body.len()
        invariant
            i <= body@.len(),
            forall|n: Seq<char>|
                #![trigger crate::bindings::has_name(names@, n)]
                crate::bindings::has_name(names@, n) <==> exists|k: int| 0 <= k < i && statement_binds(#[trigger] body@[k], n),
        decreases body.len() - i,
    {
        let ghost before = names@;
        if let EstreeValue::Object(statement) = &body[i] {
            if type_is(statement, "VariableDeclaration") {
                if let Some(declarations) = field_array(statement, RawField::Declarations) {
                    let mut j: usize = 0;
                    while j < declarations.len()
                        invariant
                            j <= declarations@.len(),
                            forall|n: Seq<char>|
                #![trigger crate::bindings::has_name(names@, n)]
                                crate::bindings::has_name(names@, n) <==> (crate::bindings::has_name(before, n)
                                    || exists|k: int| 0 <= k < j && declarator_binds(#[trigger] declarations@[k], n)),
                        decreases declarations.len() - j,
                    {
                        let ghost mid = names@;
                        let ghost jj = j as int;
                        if let EstreeValue::Object(declarator) = &declarations[j] {
                            if let Some(id) = field_object(declarator, RawField::Id) {
                                collect_binding_names(id, &mut names);
                            }
                        }
                        proof {
                            assert forall|n: Seq<char>|
                #![trigger crate::bindings::has_name(names@, n)]
                                crate::bindings::has_name(names@, n) <==> (crate::bindings::has_name(before, n)
                                    || exists|k: int| 0 <= k < jj + 1 && declarator_binds(#[trigger] declarations@[k], n)) by {
                                assert(crate::bindings::has_name(mid, n) <==> (crate::bindings::has_name(before, n)
                                    || exists|k: int| 0 <= k < jj && declarator_binds(#[trigger] declarations@[k], n)));
                                assert(crate::bindings::has_name(names@, n) <==> (crate::bindings::has_name(mid, n)
                                    || declarator_binds(declarations@[jj], n)));
                                if exists|k: int| 0 <= k < jj + 1 && declarator_binds(#[trigger] declarations@[k], n) {
                                    let k = choose|k: int| 0 <= k < jj + 1 && declarator_binds(#[trigger] declarations@[k], n);
                                    if k < jj {
                                        assert(0 <= k < jj && declarator_binds(declarations@[k], n));
                                    }
                                }
                            }
                        }
                        j += 1;
                    }
                    assert(j == declarations@.len());
                    assert(forall|n: Seq<char>|
                #![trigger crate::bindings::has_name(names@, n)]
                        crate::bindings::has_name(names@, n) <==> (crate::bindings::has_name(before, n)
                            || exists|k: int| 0 <= k < j && declarator_binds(#[trigger] declarations@[k], n)));
                    assert forall|n: Seq<char>|
                #![trigger crate::bindings::has_name(names@, n)]
                        crate::bindings::has_name(names@, n) <==> (crate::bindings::has_name(before, n) || statement_binds(
                            body@[i as int],
                            n,
                        )) by {
                        assert(crate::bindings::has_name(names@, n) <==> (crate::bindings::has_name(before, n)
                            || exists|k: int| 0 <= k < j && declarator_binds(#[trigger] declarations@[k], n)));
                        assert(body@[i as int] == EstreeValue::Object(*statement));
                        assert(crate::estree::spec_type_is(*statement, "VariableDeclaration"@));
                        assert(crate::estree::spec_field(*statement, RawField::Declarations.spec_key()@) == Some(
                            EstreeValue::Array(*declarations),
                        ));
                        assert(statement_binds(body@[i as int], n) == declarators_bind(declarations@, n));
                    }
                }
            }
        }
        proof {
            assert forall|n: Seq<char>|
                #![trigger crate::bindings::has_name(names@, n)]
                crate::bindings::has_name(names@, n) <==> exists|k: int| 0 <= k < i + 1 && statement_binds(#[trigger] body@[k], n) by {
                assert(crate::bindings::has_name(before, n) <==> exists|k: int| 0 <= k < i && statement_binds(#[trigger] body@[k], n));
                assert(crate::bindings::has_name(names@, n) <==> (crate::bindings::has_name(before, n) || statement_binds(
                    body@[i as int],
                    n,
                )));
                if exists|k: int| 0 <= k < i + 1 && statement_binds(#[trigger] body@[k], n) {
                    let k = choose|k: int| 0 <= k < i + 1 && statement_binds(#[trigger] body@[k], n);
                    if k < i {
                        assert(0 <= k < i && statement_binds(body@[k], n));
                    }
                }
            }
        }
        i += 1;
    }
    assert(crate::estree::spec_field(*program, RawField::Body.spec_key()@) == Some(EstreeValue::Array(*body)));
    names
}

/// Whether any expression of a fragment, at any depth, mentions one of `names`.
pub fn fragment_references_any_name(fragment: &Fragment, names: &Vec<Vec<char>>) -> (r: bool)
    ensures
        r == crate::walk::search_from(fragment, 0, crate::walk::lift_find(|e: Entry| spec_entry_reference(e, names@))) is Some,
{
    let ghost ns = names@;
    let find = |entry: Entry<'_>| -> (o: Option<()>)
        ensures
            o == spec_entry_reference(entry, names@),
        { entry_references_any_name(entry, names) };
    fragment.find_map_as(find, Ghost(|e: Entry| spec_entry_reference(e, ns))).is_some()
}

/// `Some` where the expressions of an entry itself mention one of `names`.
pub open spec fn spec_entry_reference(entry: Entry, names: Seq<Vec<char>>) -> Option<()> {
    if spec_entry_references(entry, names) {
        Some(())
    } else {
        None
    }
}

/// Whether an optional expression mentions one of `names`.
pub open spec fn option_mentions(e: Option<Expression>, names: Seq<Vec<char>>) -> bool {
    match e {
        Some(x) => crate::bindings::mentions_node(x.0, names),
        None => false,
    }
}

/// Whether the expressions of an entry itself mention one of `names`.
pub open spec fn spec_entry_references(entry: Entry, names: Seq<Vec<char>>) -> bool {
    match entry {
        Entry::IfBlock(b) => crate::bindings::mentions_node(b.test.0, names),
        Entry::Node(n) => match *n {
            Node::DebugTag(t) => exists|i: int|
                0 <= i < t.identifiers@.len() && crate::bindings::has_name(names, (#[trigger] t.identifiers@[i]).name@),
            Node::ExpressionTag(t) => crate::bindings::mentions_node(t.expression.0, names),
            Node::RenderTag(t) => crate::bindings::mentions_node(t.expression.0, names),
            Node::HtmlTag(t) => crate::bindings::mentions_node(t.expression.0, names),
            Node::ConstTag(t) => crate::bindings::mentions_node(t.declaration.0, names),
            Node::IfBlock(b) => crate::bindings::mentions_node(b.test.0, names),
            Node::EachBlock(b) => crate::bindings::mentions_node(b.expression.0, names) || option_mentions(
                b.context,
                names,
            ) || option_mentions(b.key, names),
            Node::AwaitBlock(b) => crate::bindings::mentions_node(b.expression.0, names) || option_mentions(
                b.value,
                names,
            ) || option_mentions(b.error, names),
            Node::KeyBlock(b) => crate::bindings::mentions_node(b.expression.0, names),
            _ => false,
        },
    }
}

/// Whether the expressions of an entry itself mention one of `names`.
#[verifier::loop_isolation(false)]
fn entry_references_any_name(entry: Entry<'_>, names: &Vec<Vec<char>>) -> (r: Option<()>)
    ensures
        r == (if spec_entry_references(entry, names@) {
            Some(())
        } else {
            None
        }),
{
    let hit = match entry {
        Entry::IfBlock(block) => mentions_any_name(&block.test.0, names),
        Entry::Node(node) => match node {
            Node::DebugTag(tag) => {
                let mut found = false;
                let mut i: usize = 0;
                while i < tag.identifiers.len()
                    invariant
                        i <= tag.identifiers@.len(),
                        found <==> exists|j: int|
                            0 <= j < i && crate::bindings::has_name(names@, (#[trigger] tag.identifiers@[j]).name@),
                    decreases tag.identifiers.len() - i,
                {
                    if contains_name(names, tag.identifiers[i].name.as_slice()) {
                        found = true;
                    }
                    i += 1;
                }
                found
            },
            Node::ExpressionTag(tag) => mentions_any_name(&tag.expression.0, names),
            Node::RenderTag(tag) => mentions_any_name(&tag.expression.0, names),
            Node::HtmlTag(tag) => mentions_any_name(&tag.expression.0, names),
            Node::ConstTag(tag) => mentions_any_name(&tag.declaration.0, names),
            Node::IfBlock(block) => mentions_any_name(&block.test.0, names),
            Node::EachBlock(block) => mentions_any_name(&block.expression.0, names) || match &block.context {
                Some(c) => mentions_any_name(&c.0, names),
                None => false,
            } || match &block.key {
                Some(k) => mentions_any_name(&k.0, names),
                None => false,
            },
            Node::AwaitBlock(block) => mentions_any_name(&block.expression.0, names) || match &block.value {
                Some(v) => mentions_any_name(&v.0, names),
                None => false,
            } || match &block.error {
                Some(e) => mentions_any_name(&e.0, names),
                None => false,
            },
            Node::KeyBlock(block) => mentions_any_name(&block.expression.0, names),
            _ => false,
        },
    };
    if hit {
        Some(())
    } else {
        None
    }
}

/// Whether `names` holds exactly the names that the instance script binds
/// (none where there is no instance script).
pub open spec fn holds_instance_names(root: &Root, names: Seq<Vec<char>>) -> bool {
    forall|n: Seq<char>|
        #![trigger crate::bindings::has_name(names, n)]
        crate::bindings::has_name(names, n) <==> match root.instance {
            Some(instance) => program_binds(instance.content, n),
            None => false,
        }
}

/// The error for a snippet that the module script exports while its body
/// mentions one of `names`, the instance script's names.
pub open spec fn spec_snippet_export_error(root: &Root, names: Seq<Vec<char>>) -> Option<ErrorView> {
    match root.module {
        Some(module) => match spec_first_exported_name(module.content) {
            Some((name, Some((s, e)))) => match search_from(&root.fragment, 0, lift_find(|en: Entry| spec_snippet_named(en, name))) {
                Some(b) => if names.len() > 0 && search_from(&b.body, 0, lift_find(|en: Entry| spec_entry_reference(en, names))) is Some {
                    Some(kind_error_view(CompilerDiagnosticKind::SnippetInvalidExport, s, e))
                } else {
                    None
                },
                None => None,
            },
            _ => None,
        },
        None => None,
    }
}

/// The error for a snippet that the module script exports while its body
/// mentions a name declared in the instance script.
pub fn detect_snippet_invalid_export<'r>(root: &'r Root) -> (r: Option<CompileError>)
    ensures
        exists|names: Seq<Vec<char>>|
            #![trigger holds_instance_names(root, names)]
            holds_instance_names(root, names) && option_error_view(r) == spec_snippet_export_error(root, names),
{
    let instance_names = match &root.instance {
        Some(instance) => collect_instance_binding_names(&instance.content),
        None => Vec::new(),
    };
    proof {
        assert(holds_instance_names(root, instance_names@));
    }
    let module = match &root.module {
        Some(m) => m,
        None => return None,
    };
    let (exported_name, export_start, export_end) = match first_exported_name(&module.content) {
        Some(x) => x,
        None => return None,
    };
    let find = |entry: Entry<'r>| -> (o: Option<&'r SnippetBlock>)
        ensures
            o == spec_snippet_named(entry, exported_name@),
        { snippet_named_in_entry(entry, exported_name) };
    let snippet = match root.fragment.find_map_as(find, Ghost(|en: Entry| spec_snippet_named(en, exported_name@))) {
        Some(s) => s,
        None => return None,
    };
    if instance_names.len() == 0 {
        return None;
    }
    if fragment_references_any_name(&snippet.body, &instance_names) {
        return Some(compile_error_with_range(CompilerDiagnosticKind::SnippetInvalidExport, export_start, export_end));
    }
    None
}

/// Whether one of the frames of `scope` holds `name`.
pub fn scope_contains_name(scope: &Vec<Vec<Vec<char>>>, name: &[char]) -> (r: bool)
    ensures
        r == exists|i: int| 0 <= i < scope@.len() && crate::bindings::has_name((#[trigger] scope@[i])@, name@),
{
    let mut i: usize = 0;
    while i < scope.len()
        invariant
            i <= scope@.len(),
            forall|j: int| 0 <= j < i ==> !crate::bindings::has_name((#[trigger] scope@[j])@, name@),
        decreases scope.len() - i,
    {
        if contains_name(&scope[i], name) {
            return true;
        }
        i += 1;
    }
    false
}

/// The names of all frames of a scope, frame after frame.
pub open spec fn scope_names(scope: Seq<Vec<Vec<char>>>) -> Seq<Vec<char>>
    decreases scope.len(),
{
    if scope.len() == 0 {
        Seq::empty()
    } else {
        scope_names(scope.drop_last()) + scope.last()@
    }
}

/// Whether one of the frames of a scope holds `n`.
pub open spec fn scope_has(scope: Seq<Vec<Vec<char>>>, n: Seq<char>) -> bool {
    exists|i: int| 0 <= i < scope.len() && crate::bindings::has_name((#[trigger] scope[i])@, n)
}

/// The names of a scope are those its frames hold.
proof fn lemma_scope_names(scope: Seq<Vec<Vec<char>>>, n: Seq<char>)
    ensures
        crate::bindings::has_name(scope_names(scope), n) <==> scope_has(scope, n),
    decreases scope.len(),
{
    if scope.len() > 0 {
        let init = scope.drop_last();
        lemma_scope_names(init, n);
        let a = scope_names(init);
        let b = scope.last()@;
        if crate::bindings::has_name(a + b, n) {
            let k = choose|k: int| 0 <= k < (a + b).len() && (#[trigger] (a + b)[k])@ == n;
            if k < a.len() {
                assert(a[k]@ == n);
                assert(crate::bindings::has_name(a, n));
                let i = choose|i: int| 0 <= i < init.len() && crate::bindings::has_name((#[trigger] init[i])@, n);
                assert(scope[i] == init[i]);
            } else {
                assert(b[k - a.len()]@ == n);
                assert(scope[scope.len() - 1] == scope.last());
            }
        }
        if scope_has(scope, n) {
            let i = choose|i: int| 0 <= i < scope.len() && crate::bindings::has_name((#[trigger] scope[i])@, n);
            if i < scope.len() - 1 {
                assert(init[i] == scope[i]);
                assert(scope_has(init, n));
                let k = choose|k: int| 0 <= k < a.len() && (#[trigger] a[k])@ == n;
                assert((a + b)[k] == a[k]);
            } else {
                let k = choose|k: int| 0 <= k < b.len() && (#[trigger] b[k])@ == n;
                assert((a + b)[a.len() + k] == b[k]);
            }
        }
    }
}

/// The first assignment to a scoped name in the expressions of an attribute value.
pub open spec fn spec_assignment_in_value(value: AttributeValueList, scope: Seq<Vec<Vec<char>>>) -> Option<(int, int)> {
    match value {
        AttributeValueList::Boolean(_) => None,
        AttributeValueList::ExpressionTag(tag) => crate::bindings::assign_in_node(tag.expression.0, scope_names(scope)),
        AttributeValueList::Values(values) => assignment_in_parts_from(values@, 0, scope),
    }
}

/// The first assignment to a scoped name in the expression parts `values[i..]`.
pub open spec fn assignment_in_parts_from(values: Seq<AttributeValue>, i: int, scope: Seq<Vec<Vec<char>>>) -> Option<
    (int, int),
>
    decreases values.len() - i,
{
    if 0 <= i < values.len() {
        match values[i] {
            AttributeValue::ExpressionTag(tag) => match crate::bindings::assign_in_node(
                tag.expression.0,
                scope_names(scope),
            ) {
                Some(x) => Some(x),
                None => assignment_in_parts_from(values, i + 1, scope),
            },
            _ => assignment_in_parts_from(values, i + 1, scope),
        }
    } else {
        None
    }
}

/// The first assignment to, or binding of, a scoped name in an attribute.
pub open spec fn spec_attribute_assignment(a: Attribute, scope: Seq<Vec<Vec<char>>>) -> Option<(int, int)> {
    match a {
        Attribute::Attribute(x) => spec_assignment_in_value(x.value, scope),
        Attribute::StyleDirective(x) => spec_assignment_in_value(x.value, scope),
        Attribute::BindDirective(x) => if (crate::bindings::spec_base_identifier(x.expression.0) matches Some(base)
            && scope_has(scope, base)) {
            Some((x.start as int, x.end as int))
        } else {
            crate::bindings::assign_in_node(x.expression.0, scope_names(scope))
        },
        Attribute::OnDirective(x) | Attribute::ClassDirective(x) | Attribute::LetDirective(x)
        | Attribute::AnimateDirective(x) | Attribute::UseDirective(x) => crate::bindings::assign_in_node(
            x.expression.0,
            scope_names(scope),
        ),
        Attribute::TransitionDirective(x) => crate::bindings::assign_in_node(x.expression.0, scope_names(scope)),
        Attribute::AttachTag(x) => crate::bindings::assign_in_node(x.expression.0, scope_names(scope)),
        Attribute::SpreadAttribute(x) => crate::bindings::assign_in_node(x.expression.0, scope_names(scope)),
    }
}

/// The first assignment to, or binding of, a scoped name among `attributes[i..]`.
pub open spec fn attributes_assignment_from(attributes: Seq<Attribute>, i: int, scope: Seq<Vec<Vec<char>>>) -> Option<
    (int, int),
>
    decreases attributes.len() - i,
{
    if 0 <= i < attributes.len() {
        match spec_attribute_assignment(attributes[i], scope) {
            Some(x) => Some(x),
            None => attributes_assignment_from(attributes, i + 1, scope),
        }
    } else {
        None
    }
}

/// The first assignment, in an expression, to a name of any frame of `scope`.
pub fn assignment_to_scoped_name(expression: &Expression, scope: &Vec<Vec<Vec<char>>>) -> (r: Option<(usize, usize)>)
    ensures
        crate::bindings::int_span(r) == crate::bindings::assign_in_node(expression.0, scope_names(scope@)),
{
    let mut i: usize = 0;
    let mut all: Vec<Vec<char>> = Vec::new();
    while i < scope.len()
        invariant
            i <= scope@.len(),
            forall|n: Seq<char>|
                #![trigger crate::bindings::has_name(all@, n)]
                crate::bindings::has_name(all@, n) <==> scope_has(scope@.subrange(0, i as int), n),
        decreases scope.len() - i,
    {
        let frame = &scope[i];
        let ghost before = all@;
        let mut j: usize = 0;
        while j < frame.len()
            invariant
                j <= frame@.len(),
                forall|n: Seq<char>|
                    #![trigger crate::bindings::has_name(all@, n)]
                    crate::bindings::has_name(all@, n) <==> (crate::bindings::has_name(before, n)
                        || crate::bindings::has_name(frame@.subrange(0, j as int), n)),
            decreases frame.len() - j,
        {
            let ghost mid = all@;
            crate::bindings::push_unique(&mut all, frame[j].as_slice());
            proof {
                assert forall|n: Seq<char>|
                    #![trigger crate::bindings::has_name(all@, n)]
                    crate::bindings::has_name(all@, n) <==> (crate::bindings::has_name(before, n)
                        || crate::bindings::has_name(frame@.subrange(0, j + 1), n)) by {
                    assert(crate::bindings::has_name(mid, n) <==> (crate::bindings::has_name(before, n)
                        || crate::bindings::has_name(frame@.subrange(0, j as int), n)));
                    let s1 = frame@.subrange(0, j as int);
                    let s2 = frame@.subrange(0, j + 1);
                    if crate::bindings::has_name(s2, n) {
                        let k = choose|k: int| 0 <= k < s2.len() && (#[trigger] s2[k])@ == n;
                        if k < j {
                            assert(s1[k] == s2[k]);
                        } else {
                            assert(s2[k] == frame@[j as int]);
                        }
                    }
                    if crate::bindings::has_name(s1, n) {
                        let k = choose|k: int| 0 <= k < s1.len() && (#[trigger] s1[k])@ == n;
                        assert(s2[k] == s1[k]);
                    }
                    if n == frame@[j as int]@ {
                        assert(s2[j as int] == frame@[j as int]);
                    }
                }
            }
            j += 1;
        }
        proof {
            assert(frame@.subrange(0, frame@.len() as int) =~= frame@);
            assert forall|n: Seq<char>|
                #![trigger crate::bindings::has_name(all@, n)]
                crate::bindings::has_name(all@, n) <==> scope_has(scope@.subrange(0, i + 1), n) by {
                let p1 = scope@.subrange(0, i as int);
                let p2 = scope@.subrange(0, i + 1);
                assert(crate::bindings::has_name(before, n) <==> scope_has(p1, n));
                if scope_has(p2, n) {
                    let k = choose|k: int| 0 <= k < p2.len() && crate::bindings::has_name((#[trigger] p2[k])@, n);
                    if k < i {
                        assert(p1[k] == p2[k]);
                    } else {
                        assert(p2[k] == scope@[i as int]);
                    }
                }
                if scope_has(p1, n) {
                    let k = choose|k: int| 0 <= k < p1.len() && crate::bindings::has_name((#[trigger] p1[k])@, n);
                    assert(p2[k] == p1[k]);
                }
                if crate::bindings::has_name(frame@, n) {
                    assert(p2[i as int] == scope@[i as int]);
                }
            }
        }
        i += 1;
    }
    proof {
        assert(scope@.subrange(0, scope@.len() as int) =~= scope@);
        assert forall|n: Seq<char>|
            #![trigger crate::bindings::has_name(all@, n)]
            #![trigger crate::bindings::has_name(scope_names(scope@), n)]
            crate::bindings::has_name(all@, n) <==> crate::bindings::has_name(scope_names(scope@), n) by {
            lemma_scope_names(scope@, n);
        }
        crate::bindings::lemma_assign_in_node_names(expression.0, all@, scope_names(scope@));
    }
    assignment_to_names(&expression.0, &all)
}

/// The first assignment to, or binding of, a scoped name among an element's attributes.
pub fn assignment_to_scoped_name_in_attributes(attributes: &Vec<Attribute>, scope: &Vec<Vec<Vec<char>>>) -> (r: Option<
    (usize, usize),
>)
    ensures
        crate::bindings::int_span(r) == attributes_assignment_from(attributes@, 0, scope@),
{
    let mut i: usize = 0;
    while i < attributes.len()
        invariant
            i <= attributes@.len(),
            attributes_assignment_from(attributes@, i as int, scope@) == attributes_assignment_from(attributes@, 0, scope@),
        decreases attributes.len() - i,
    {
        let found = match &attributes[i] {
            Attribute::Attribute(a) => assignment_in_value(&a.value, scope),
            Attribute::StyleDirective(a) => assignment_in_value(&a.value, scope),
            Attribute::BindDirective(a) => {
                let bound = match base_identifier_name(&a.expression.0) {
                    Some(base) => scope_contains_name(scope, base.as_slice()),
                    None => false,
                };
                if bound {
                    Some((a.start, a.end))
                } else {
                    assignment_to_scoped_name(&a.expression, scope)
                }
            },
            Attribute::OnDirective(a) | Attribute::ClassDirective(a) | Attribute::LetDirective(a)
            | Attribute::AnimateDirective(a) | Attribute::UseDirective(a) => assignment_to_scoped_name(&a.expression, scope),
            Attribute::TransitionDirective(a) => assignment_to_scoped_name(&a.expression, scope),
            Attribute::AttachTag(a) => assignment_to_scoped_name(&a.expression, scope),
            Attribute::SpreadAttribute(a) => assignment_to_scoped_name(&a.expression, scope),
        };
        if found.is_some() {
            return found;
        }
        i += 1;
    }
    None
}

/// The first assignment to a scoped name in the expressions of an attribute value.
#[verifier::loop_isolation(false)]
fn assignment_in_value(value: &AttributeValueList, scope: &Vec<Vec<Vec<char>>>) -> (r: Option<(usize, usize)>)
    ensures
        crate::bindings::int_span(r) == spec_assignment_in_value(*value, scope@),
{
    match value {
        AttributeValueList::Boolean(_) => None,
        AttributeValueList::ExpressionTag(tag) => assignment_to_scoped_name(&tag.expression, scope),
        AttributeValueList::Values(values) => {
            let mut i: usize = 0;
            while i < values.len()
                invariant
                    i <= values@.len(),
                    assignment_in_parts_from(values@, i as int, scope@) == assignment_in_parts_from(values@, 0, scope@),
                decreases values.len() - i,
            {
                if let AttributeValue::ExpressionTag(tag) = &values[i] {
                    if let Some(span) = assignment_to_scoped_name(&tag.expression, scope) {
                        return Some(span);
                    }
                }
                i += 1;
            }
            None
        },
    }
}

/// The range of the first identifier among `ids[i..]` that names a scoped name.
pub open spec fn debug_scoped_from(ids: Seq<crate::ast::Identifier>, i: int, scope: Seq<Vec<Vec<char>>>) -> Option<
    (int, int),
>
    decreases ids.len() - i,
{
    if 0 <= i < ids.len() {
        if scope_has(scope, ids[i].name@) {
            Some((ids[i].start as int, ids[i].end as int))
        } else {
            debug_scoped_from(ids, i + 1, scope)
        }
    } else {
        None
    }
}

/// The first assignment to a scoped name in an optional expression.
pub open spec fn option_assignment(e: Option<Expression>, scope: Seq<Vec<Vec<char>>>) -> Option<(int, int)> {
    match e {
        Some(x) => crate::bindings::assign_in_node(x.0, scope_names(scope)),
        None => None,
    }
}

/// What the parameter check finds at an entry itself, given the parameters
/// in scope: an assignment to, or binding of, one of them.
pub open spec fn spec_parameter_found(entry: Entry, scope: Seq<Vec<Vec<char>>>) -> Option<(int, int)> {
    match entry {
        Entry::IfBlock(b) => crate::bindings::assign_in_node(b.test.0, scope_names(scope)),
        Entry::Node(n) => match *n {
            Node::Text(_) | Node::Comment(_) | Node::IfBlock(_) | Node::SnippetBlock(_) => None,
            Node::DebugTag(t) => debug_scoped_from(t.identifiers@, 0, scope),
            Node::ExpressionTag(t) => crate::bindings::assign_in_node(t.expression.0, scope_names(scope)),
            Node::RenderTag(t) => crate::bindings::assign_in_node(t.expression.0, scope_names(scope)),
            Node::HtmlTag(t) => crate::bindings::assign_in_node(t.expression.0, scope_names(scope)),
            Node::ConstTag(t) => crate::bindings::assign_in_node(t.declaration.0, scope_names(scope)),
            Node::EachBlock(b) => crate::bindings::first_of(
                crate::bindings::assign_in_node(b.expression.0, scope_names(scope)),
                option_assignment(b.key, scope),
            ),
            Node::AwaitBlock(b) => crate::bindings::first_of(
                crate::bindings::assign_in_node(b.expression.0, scope_names(scope)),
                crate::bindings::first_of(option_assignment(b.value, scope), option_assignment(b.error, scope)),
            ),
            Node::KeyBlock(b) => crate::bindings::assign_in_node(b.expression.0, scope_names(scope)),
            _ => match crate::ast::spec_element(n) {
                Some(el) => attributes_assignment_from(el.attributes@, 0, scope),
                None => None,
            },
        },
    }
}

/// What the parameter check answers at an entry.
pub open spec fn spec_parameter_answer(entry: Entry, scope: Seq<Vec<Vec<char>>>) -> Search<(usize, usize)> {
    match spec_parameter_found(entry, scope) {
        Some((s, e)) => Search::Found((s as usize, e as usize)),
        None => Search::Continue,
    }
}

/// A walk that keeps the parameters of the enclosing snippets, one frame per
/// snippet, and stops at the first assignment to one of them.
pub struct SnippetParameterVisitor {
    pub scope: Vec<Vec<Vec<char>>>,
}

impl<'a> Visitor<'a, (usize, usize)> for SnippetParameterVisitor {
    /// The answer is the parameter check's at the entry; a snippet opens a
    /// frame holding exactly the names its parameters bind; nothing else
    /// changes the scope.
    open spec fn entered(&self, entry: Entry<'a>, next: Self, answer: Search<(usize, usize)>) -> bool {
        &&& answer == spec_parameter_answer(entry, self.scope@)
        &&& match entry {
            Entry::Node(n) => match *n {
                Node::SnippetBlock(b) => next.scope@.len() == self.scope@.len() + 1 && next.scope@.subrange(
                    0,
                    self.scope@.len() as int,
                ) == self.scope@ && forall|x: Seq<char>|
                    #![trigger crate::bindings::has_name(next.scope@.last()@, x)]
                    crate::bindings::has_name(next.scope@.last()@, x) <==> exists|k: int|
                        0 <= k < b.parameters@.len() && crate::bindings::pattern_binds((#[trigger] b.parameters@[k]).0, x),
                _ => next.scope@ == self.scope@,
            },
            _ => next.scope@ == self.scope@,
        }
    }

    /// Leaving a snippet closes its frame; nothing else changes the scope.
    open spec fn left(&self, entry: Entry<'a>, next: Self) -> bool {
        match entry {
            Entry::Node(n) => match *n {
                Node::SnippetBlock(_) => next.scope@ == (if self.scope@.len() > 0 {
                    self.scope@.drop_last()
                } else {
                    self.scope@
                }),
                _ => next.scope@ == self.scope@,
            },
            _ => next.scope@ == self.scope@,
        }
    }

    #[verifier::loop_isolation(false)]
    fn enter(&mut self, entry: Entry<'a>) -> (r: Search<(usize, usize)>)
        ensures
            r == spec_parameter_answer(entry, old(self).scope@),
            match entry {
                Entry::Node(n) => match *n {
                    Node::SnippetBlock(b) => final(self).scope@.len() == old(self).scope@.len() + 1
                        && final(self).scope@.subrange(0, old(self).scope@.len() as int) == old(self).scope@
                        && forall|x: Seq<char>|
                        #![trigger crate::bindings::has_name(final(self).scope@.last()@, x)]
                        crate::bindings::has_name(final(self).scope@.last()@, x) <==> exists|k: int|
                            0 <= k < b.parameters@.len() && crate::bindings::pattern_binds(
                                (#[trigger] b.parameters@[k]).0,
                                x,
                            ),
                    _ => final(self).scope@ == old(self).scope@,
                },
                _ => final(self).scope@ == old(self).scope@,
            },
    {
        let found = match entry {
            Entry::IfBlock(block) => assignment_to_scoped_name(&block.test, &self.scope),
            Entry::Node(node) => match node {
                Node::Text(_) | Node::Comment(_) | Node::IfBlock(_) => None,
                Node::DebugTag(tag) => {
                    let mut hit: Option<(usize, usize)> = None;
                    let mut i: usize = 0;
                    while i < tag.identifiers.len()
                        invariant
                            i <= tag.identifiers@.len(),
                            crate::bindings::first_of(
                                crate::bindings::int_span(hit),
                                debug_scoped_from(tag.identifiers@, i as int, self.scope@),
                            ) == debug_scoped_from(tag.identifiers@, 0, self.scope@),
                        decreases tag.identifiers.len() - i,
                    {
                        if hit.is_none() && scope_contains_name(&self.scope, tag.identifiers[i].name.as_slice()) {
                            hit = Some((tag.identifiers[i].start, tag.identifiers[i].end));
                        }
                        i += 1;
                    }
                    hit
                },
                Node::ExpressionTag(tag) => assignment_to_scoped_name(&tag.expression, &self.scope),
                Node::RenderTag(tag) => assignment_to_scoped_name(&tag.expression, &self.scope),
                Node::HtmlTag(tag) => assignment_to_scoped_name(&tag.expression, &self.scope),
                Node::ConstTag(tag) => assignment_to_scoped_name(&tag.declaration, &self.scope),
                Node::EachBlock(block) => match assignment_to_scoped_name(&block.expression, &self.scope) {
                    Some(s) => Some(s),
                    None => match &block.key {
                        Some(k) => assignment_to_scoped_name(k, &self.scope),
                        None => None,
                    },
                },
                Node::AwaitBlock(block) => match assignment_to_scoped_name(&block.expression, &self.scope) {
                    Some(s) => Some(s),
                    None => match match &block.value {
                        Some(v) => assignment_to_scoped_name(v, &self.scope),
                        None => None,
                    } {
                        Some(s) => Some(s),
                        None => match &block.error {
                            Some(e) => assignment_to_scoped_name(e, &self.scope),
                            None => None,
                        },
                    },
                },
                Node::SnippetBlock(block) => {
                    let mut names: Vec<Vec<char>> = Vec::new();
                    let mut i: usize = 0;
                    while i < block.parameters.len()
                        invariant
                            i <= block.parameters@.len(),
                            forall|x: Seq<char>|
                                #![trigger crate::bindings::has_name(names@, x)]
                                crate::bindings::has_name(names@, x) <==> exists|k: int|
                                    0 <= k < i && crate::bindings::pattern_binds((#[trigger] block.parameters@[k]).0, x),
                        decreases block.parameters.len() - i,
                    {
                        let ghost before = names@;
                        let ghost ii = i as int;
                        collect_binding_names(&block.parameters[i].0, &mut names);
                        proof {
                            assert forall|x: Seq<char>|
                                #![trigger crate::bindings::has_name(names@, x)]
                                crate::bindings::has_name(names@, x) <==> exists|k: int|
                                    0 <= k < ii + 1 && crate::bindings::pattern_binds((#[trigger] block.parameters@[k]).0, x) by {
                                assert(crate::bindings::has_name(before, x) <==> exists|k: int|
                                    0 <= k < ii && crate::bindings::pattern_binds((#[trigger] block.parameters@[k]).0, x));
                                if exists|k: int| 0 <= k < ii + 1 && crate::bindings::pattern_binds((#[trigger] block.parameters@[k]).0, x) {
                                    let k = choose|k: int| 0 <= k < ii + 1 && crate::bindings::pattern_binds((#[trigger] block.parameters@[k]).0, x);
                                    if k < ii {
                                        assert(0 <= k < ii && crate::bindings::pattern_binds(block.parameters@[k].0, x));
                                    }
                                }
                            }
                        }
                        i += 1;
                    }
                    self.scope.push(names);
                    None
                },
                Node::KeyBlock(block) => assignment_to_scoped_name(&block.expression, &self.scope),
                _ => match node.as_element() {
                    Some(el) => assignment_to_scoped_name_in_attributes(el.attributes, &self.scope),
                    None => None,
                },
            },
        };
        let r = match found {
            Some(span) => Search::Found(span),
            None => Search::Continue,
        };
        assert(r == spec_parameter_answer(entry, old(self).scope@));
        assert(match entry {
            Entry::Node(n) => match *n {
                Node::SnippetBlock(b) => self.scope@.len() == old(self).scope@.len() + 1 && self.scope@.subrange(
                    0,
                    old(self).scope@.len() as int,
                ) == old(self).scope@ && forall|x: Seq<char>|
                    #![trigger crate::bindings::has_name(self.scope@.last()@, x)]
                    crate::bindings::has_name(self.scope@.last()@, x) <==> exists|k: int|
                        0 <= k < b.parameters@.len() && crate::bindings::pattern_binds((#[trigger] b.parameters@[k]).0, x),
                _ => self.scope@ == old(self).scope@,
            },
            _ => self.scope@ == old(self).scope@,
        });
        assert(old(self).entered(entry, *self, r));
        r
    }

    fn leave(&mut self, entry: Entry<'a>) {
        if let Entry::Node(Node::SnippetBlock(_)) = entry {
            let _ = self.scope.pop();
        }
    }
}

/// Whether a walk over the template with `SnippetParameterVisitor`, from an
/// empty scope, can end with `found`.
pub open spec fn parameter_walk_finds(root: &Root, found: Option<(usize, usize)>) -> bool {
    exists|start: SnippetParameterVisitor, end: SnippetParameterVisitor|
        #![trigger crate::walk::walk_from(&root.fragment, 0, start, end, found)]
        start.scope@.len() == 0 && crate::walk::walk_from(&root.fragment, 0, start, end, found)
}

/// The error for a snippet parameter assignment that a walk found, if it found one.
pub open spec fn spec_parameter_assignment_error(found: Option<(usize, usize)>) -> Option<ErrorView> {
    match found {
        Some((s, e)) => Some(kind_error_view(CompilerDiagnosticKind::SnippetParameterAssignment, s as int, e as int)),
        None => None,
    }
}

/// The error for the first assignment to, or binding of, a snippet parameter
/// inside the snippet, in document order: the walk with
/// `SnippetParameterVisitor` from an empty scope.
pub fn detect_snippet_parameter_assignment(root: &Root) -> (r: Option<CompileError>)
    ensures
        exists|found: Option<(usize, usize)>|
            #[trigger] parameter_walk_finds(root, found) && option_error_view(r) == spec_parameter_assignment_error(found),
{
    let mut visitor = SnippetParameterVisitor { scope: Vec::new() };
    let ghost start = visitor;
    let found = root.fragment.walk(&mut visitor);
    proof {
        assert(crate::walk::walk_from(&root.fragment, 0, start, visitor, found));
        assert(parameter_walk_finds(root, found));
    }
    match found {
        Some((s, e)) => Some(compile_error_with_range(CompilerDiagnosticKind::SnippetParameterAssignment, s, e)),
        None => None,
    }
}

/// The snippet checks, in order: malformed headers, exports (against the
/// instance script's `names`), assignments to parameters (as a walk `found`
/// them), rest parameters, `children` conflicts, `<slot>` conflicts.
pub open spec fn spec_validate_component_snippets(
    root: &Root,
    names: Seq<Vec<char>>,
    found: Option<(usize, usize)>,
) -> Option<ErrorView> {
    first_error(
        spec_malformed_header_error(root),
        first_error(
            spec_snippet_export_error(root, names),
            first_error(
                spec_parameter_assignment_error(found),
                first_error(
                    spec_rest_parameter_error(root),
                    first_error(spec_children_conflict_error(root), spec_slot_conflict_error(root)),
                ),
            ),
        ),
    )
}

/// The snippet checks, in order: malformed headers, exports, assignments to
/// parameters, rest parameters, `children` conflicts, `<slot>` conflicts.
pub fn validate_component_snippets(root: &Root) -> (r: Option<CompileError>)
    ensures
        exists|names: Seq<Vec<char>>, found: Option<(usize, usize)>|
            #![trigger holds_instance_names(root, names), parameter_walk_finds(root, found)]
            holds_instance_names(root, names) && parameter_walk_finds(root, found) && option_error_view(r)
                == spec_validate_component_snippets(root, names, found),
{
    let a = detect_malformed_snippet_headers(root);
    let b = detect_snippet_invalid_export(root);
    let c = detect_snippet_parameter_assignment(root);
    let d = detect_snippet_invalid_rest_parameter(root);
    let e = detect_snippet_children_conflict(root);
    let f = detect_slot_snippet_conflict(root);
    let ghost names = choose|names: Seq<Vec<char>>|
        #![trigger holds_instance_names(root, names)]
        holds_instance_names(root, names) && option_error_view(b) == spec_snippet_export_error(root, names);
    let ghost found = choose|found: Option<(usize, usize)>|
        #[trigger] parameter_walk_finds(root, found) && option_error_view(c) == spec_parameter_assignment_error(found);
    proof {
        assert(holds_instance_names(root, names) && parameter_walk_finds(root, found));
    }
    if a.is_some() {
        return a;
    }
    if b.is_some() {
        return b;
    }
    if c.is_some() {
        return c;
    }
    if d.is_some() {
        return d;
    }
    if e.is_some() {
        return e;
    }
    f
}

} // verus!
