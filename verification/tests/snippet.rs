use svelte_compiler::ast::{Node, SnippetHeaderErrorKind};
use svelte_compiler::component::parse_component_for_compile;
use svelte_compiler::diagnostics::CompileError;
use svelte_compiler::validate::validate_component_snippets;

fn validate(source: &str) -> Option<CompileError> {
    let parsed = parse_component_for_compile(source).expect("parse component");
    validate_component_snippets(parsed.root())
}

fn snippet_header_error_kind(source: &str) -> Option<SnippetHeaderErrorKind> {
    let parsed = parse_component_for_compile(source).expect("parse component");
    parsed.root().fragment.find_map(|entry| {
        let node = entry.as_node()?;
        let Node::SnippetBlock(block) = node else {
            return None;
        };
        block.header_error.as_ref().map(|error| error.kind)
    })
}

fn msg(error: &CompileError) -> String {
    error.message.iter().collect()
}

#[test]
fn rejects_snippet_rest_parameter_from_ast() {
    let error = validate("{#snippet row(...items)}{/snippet}").expect("expected validation error");
    assert_eq!(error.code, "snippet_invalid_rest_parameter");
}

#[test]
fn recovers_missing_right_brace_in_snippet_header_from_cst() {
    let kind = snippet_header_error_kind("{#snippet children()hi{/snippet}");
    assert_eq!(kind, Some(SnippetHeaderErrorKind::ExpectedRightBrace));
}

#[test]
fn recovers_missing_right_paren_in_snippet_header_from_cst() {
    let kind = snippet_header_error_kind("{#snippet children(hi{/snippet}");
    assert_eq!(kind, Some(SnippetHeaderErrorKind::ExpectedRightParen));
}

#[test]
fn rejects_missing_right_brace_in_snippet_header_from_ast() {
    let error = validate("{#snippet children()hi{/snippet}").expect("expected validation error");
    assert_eq!(error.code, "expected_token");
    assert_eq!(msg(&error), "Expected token }");
}

#[test]
fn rejects_missing_right_paren_in_snippet_header_from_ast() {
    let error = validate("{#snippet children(hi{/snippet}").expect("expected validation error");
    assert_eq!(error.code, "expected_token");
    assert_eq!(msg(&error), "Expected token )");
}

#[test]
fn rejects_children_snippet_with_implicit_children_from_ast() {
    let error = validate("<Widget>before{#snippet children()}{/snippet}</Widget>")
        .expect("expected validation error");
    assert_eq!(error.code, "snippet_conflict");
}

#[test]
fn allows_children_snippet_without_implicit_children_from_ast() {
    let error = validate("<Widget>{#snippet children()}{/snippet}</Widget>");
    assert!(error.is_none(), "unexpected validation error: {error:?}");
}

#[test]
fn ignores_nested_children_snippet_inside_component_content() {
    let error = validate("<Widget><div>{#snippet children()}{/snippet}</div></Widget>");
    assert!(error.is_none(), "unexpected validation error: {error:?}");
}

#[test]
fn rejects_slot_and_render_conflict_from_ast() {
    let error = validate("{#snippet foo()}{/snippet}<slot />{@render foo()}")
        .expect("expected validation error");
    assert_eq!(error.code, "slot_snippet_conflict");
}
