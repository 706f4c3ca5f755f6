use svelte_compiler::ast::Node;
use svelte_compiler::component::parse_component_for_compile;
use svelte_compiler::diagnostics::CompileError;
use svelte_compiler::template::{
    detect_svelte_meta_structure_errors, scan_modern_node_for_svelte_meta, SvelteMetaScanState,
};
use svelte_compiler::validate::{validate_component_template, CompileOptions};

fn validate(source: &str) -> Option<CompileError> {
    let parsed = parse_component_for_compile(source).expect("parse component");
    let options = CompileOptions::with_runes(true);
    validate_component_template(&options, parsed.root())
}

fn validate_legacy(source: &str) -> Option<CompileError> {
    let parsed = parse_component_for_compile(source).expect("parse component");
    let options = CompileOptions::with_runes(false);
    validate_component_template(&options, parsed.root())
}

fn error_range(error: &CompileError) -> Option<(usize, usize)> {
    Some((error.start, error.end))
}

fn msg(error: &CompileError) -> String {
    error.message.iter().collect()
}

#[test]
fn runes_reject_unquoted_attribute_sequences() {
    let error = validate("<div foo=bar{baz}></div>").expect("expected validation error");
    assert_eq!(error.code, "attribute_unquoted_sequence");
}

#[test]
fn runes_reject_unparenthesized_sequence_attribute_expressions() {
    let error = validate("<div foo={a, b}></div>").expect("expected validation error");
    assert_eq!(error.code, "attribute_invalid_sequence_expression");
}

#[test]
fn runes_allow_parenthesized_sequence_attribute_expressions() {
    let error = validate("<div foo={(a, b)}></div>");
    assert!(error.is_none(), "unexpected validation error: {error:?}");
}

#[test]
fn runes_allow_bind_getter_setter_pairs() {
    let error = validate(
        "<script>let value = $state(0);</script><input bind:value={() => value, v => value = v} />",
    );
    assert!(error.is_none(), "unexpected validation error: {error:?}");
}

#[test]
fn runes_reject_parenthesized_bind_getter_setter_pairs() {
    let error = validate(
        "<script>let value = $state(0);</script><input bind:value={(() => value, v => value = v)} />",
    )
    .expect("expected validation error");
    assert_eq!(error.code, "bind_invalid_parens");
}

#[test]
fn runes_reject_bind_sequences_with_wrong_arity() {
    let error = validate(
        "<script>let value = $state(0);</script><input bind:value={() => value, v => value = v, extra} />",
    )
    .expect("expected validation error");
    assert_eq!(error.code, "bind_invalid_expression");
}

#[test]
fn rejects_unparenthesized_const_sequence_expressions() {
    let error =
        validate("{#if ok}{@const value = a, b}{/if}").expect("expected validation error");
    assert_eq!(error.code, "const_tag_invalid_expression");
}

#[test]
fn allows_parenthesized_const_sequence_expressions() {
    let error = validate("{#if ok}{@const value = (a, b)}{/if}");
    assert!(error.is_none(), "unexpected validation error: {error:?}");
}

#[test]
fn rejects_const_cycles_from_ast() {
    let error = validate("{#if true}{@const a = b}{@const b = a}{/if}")
        .expect("expected validation error");
    assert_eq!(error.code, "const_tag_cycle");
    assert!(msg(&error).contains("a") && msg(&error).contains("b"));
}

#[test]
fn allows_const_tag_reference_from_boundary_failed_snippet() {
    let error = validate(
        "<svelte:boundary>{@const foo = 'bar'}{#snippet failed()}{foo}{/snippet}</svelte:boundary>",
    );
    assert!(error.is_none(), "unexpected validation error: {error:?}");
}

#[test]
fn allows_const_tag_reference_when_boundary_uses_it_outside_snippet() {
    let error = validate(
        "<svelte:boundary>{@const foo = 'bar'}{foo}{#snippet other()}{foo}{/snippet}</svelte:boundary>",
    );
    assert!(error.is_none(), "unexpected validation error: {error:?}");
}

#[test]
fn rejects_const_tag_reference_from_same_component_snippet() {
    let error =
        validate("<Widget>{@const foo = 'bar'}{#snippet failed()}{foo}{/snippet}</Widget>")
            .expect("expected validation error");
    assert_eq!(error.code, "const_tag_invalid_reference");
    assert_eq!(
        msg(&error).as_str(),
        "The `{@const foo = ...}` declaration is not available in this snippet"
    );
}

#[test]
fn reports_const_tag_sequence_from_initializer() {
    let error = validate("{#if true}{@const foo = 'foo', bar = 'bar'}{/if}")
        .expect("expected validation error");
    assert_eq!(error.code, "const_tag_invalid_expression");
    assert_eq!(error_range(&error), Some((24, 42)));
}

#[test]
fn rejects_non_call_render_tag_expressions() {
    let error = validate("{@render foo}").expect("expected validation error");
    assert_eq!(error.code, "render_tag_invalid_expression");
}

#[test]
fn rejects_render_tag_spread_arguments() {
    let error = validate("{@render foo(...args)}").expect("expected validation error");
    assert_eq!(error.code, "render_tag_invalid_spread_argument");
}

#[test]
fn rejects_render_tag_bind_calls() {
    let error = validate("{@render foo.bind(bar)}").expect("expected validation error");
    assert_eq!(error.code, "render_tag_invalid_call_expression");
}

#[test]
fn allows_optional_call_render_tags() {
    let error = validate("{@render foo?.()}");
    assert!(error.is_none(), "unexpected validation error: {error:?}");
}

#[test]
fn rejects_non_identifier_debug_tag_arguments() {
    let error = validate("{@debug foo.bar}").expect("expected validation error");
    assert_eq!(error.code, "debug_tag_invalid_arguments");
}

#[test]
fn allows_identifier_debug_tag_arguments() {
    let error = validate("{@debug foo, bar}");
    assert!(error.is_none(), "unexpected validation error: {error:?}");
}

#[test]
fn mixed_event_handler_error_uses_actual_directive_name() {
    let error = validate("<div onkeyup={handler} on:keydown={handler}></div>")
        .expect("expected validation error");
    assert_eq!(error.code, "mixed_event_handler_syntaxes");
    assert!(
        msg(&error).contains("on:keydown") && msg(&error).contains("onkeydown"),
        "unexpected message: {}",
        msg(&error)
    );
}

#[test]
fn snippet_shadowing_prop_ignores_nested_component_scope() {
    let error =
        validate("<Widget foo={bar}><Inner>{#snippet foo()}{/snippet}</Inner></Widget>");
    assert!(error.is_none(), "unexpected validation error: {error:?}");
}

#[test]
fn snippet_shadowing_prop_detects_current_component_scope() {
    let error = validate("<Widget foo={bar}><div>{#snippet foo()}{/snippet}</div></Widget>")
        .expect("expected validation error");
    assert_eq!(error.code, "snippet_shadowing_prop");
}

#[test]
fn allows_title_expression_content() {
    let error = validate("<svelte:head><title>{pageTitle}</title></svelte:head>");
    assert!(error.is_none(), "unexpected validation error: {error:?}");
}

#[test]
fn rejects_title_nested_elements_from_ast() {
    let error = validate("<svelte:head><title><span>bad</span></title></svelte:head>")
        .expect("expected validation error");
    assert_eq!(error.code, "title_invalid_content");
}

#[test]
fn rejects_empty_attribute_shorthand_from_ast() {
    let error = validate("<div {}></div>").expect("expected validation error");
    assert_eq!(error.code, "attribute_empty_shorthand");
}

#[test]
fn rejects_expected_attribute_value_from_ast() {
    let error = validate("<div class= ></div>").expect("expected validation error");
    assert_eq!(error.code, "expected_attribute_value");
}

#[test]
fn rejects_duplicate_named_attributes_from_ast() {
    let error =
        validate("<div class='foo' class='bar'></div>").expect("expected validation error");
    assert_eq!(error.code, "attribute_duplicate");
}

#[test]
fn rejects_duplicate_bind_attributes_from_ast() {
    let error = validate("<Widget foo={42} bind:foo/>").expect("expected validation error");
    assert_eq!(error.code, "attribute_duplicate");
}

#[test]
fn rejects_duplicate_class_directives_from_ast() {
    let error = validate("<div class:cool={true} class:cool={true}></div>")
        .expect("expected validation error");
    assert_eq!(error.code, "attribute_duplicate");
}

#[test]
fn rejects_duplicate_slot_names_from_ast() {
    let error = validate("<Widget><div slot='header'></div><div slot='header'></div></Widget>")
        .expect("expected validation error");
    assert_eq!(error.code, "slot_attribute_duplicate");
    assert_eq!(
        msg(&error).as_str(),
        "Duplicate slot name 'header' in <Widget>"
    );
}

#[test]
fn rejects_explicit_default_slot_with_implicit_content_from_ast() {
    let error = validate("<Widget><div slot='default'></div><p>implicit</p></Widget>")
        .expect("expected validation error");
    assert_eq!(error.code, "slot_default_duplicate");
}

#[test]
fn rejects_explicit_default_slot_with_component_child_from_ast() {
    let error = validate("<Widget><Inner slot='default' /></Widget>")
        .expect("expected validation error");
    assert_eq!(error.code, "slot_default_duplicate");
}

#[test]
fn rejects_duplicate_style_directives_from_ast() {
    let error = validate("<div style:color=\"red\" style:color=\"green\"></div>")
        .expect("expected validation error");
    assert_eq!(error.code, "attribute_duplicate");
}

#[test]
fn rejects_duplicate_shorthand_attributes_from_ast() {
    let error = validate("<div title='foo' {title}></div>").expect("expected validation error");
    assert_eq!(error.code, "attribute_duplicate");
}

#[test]
fn runes_reject_unbalanced_curly_element_attributes() {
    let error =
        validate("<button onclick={true}}></button>").expect("expected validation error");
    assert_eq!(error.code, "attribute_unquoted_sequence");
}

#[test]
fn runes_reject_unbalanced_curly_component_attributes() {
    let error = validate("<Widget onclick={true}} />").expect("expected validation error");
    assert_eq!(error.code, "attribute_unquoted_sequence");
}

#[test]
fn rejects_attribute_expected_equals_from_ast() {
    let error = validate("<h1 class\"=foo\">Hello</h1>").expect("expected validation error");
    assert_eq!(error.code, "expected_token");
}

#[test]
fn rejects_html_tag_in_attribute_from_ast() {
    let error =
        validate("<div style=\"{@html text}\"></div>").expect("expected validation error");
    assert_eq!(error.code, "tag_invalid_placement");
    assert_eq!(
        msg(&error).as_str(),
        "{@html ...} tag cannot be in attribute value"
    );
}

#[test]
fn rejects_logic_block_in_attribute_from_ast() {
    let error =
        validate("<div foo=\"{#if ok}x{/if}\"></div>").expect("expected validation error");
    assert_eq!(error.code, "block_invalid_placement");
}

#[test]
fn rejects_textarea_value_and_children_from_ast() {
    let error = validate("<textarea value='{foo}'>some illegal text</textarea>")
        .expect("expected validation error");
    assert_eq!(error.code, "textarea_invalid_content");
}

#[test]
fn rejects_logic_block_in_textarea_from_ast() {
    let error = validate("<textarea>{#each items as item}{item}{/each}</textarea>")
        .expect("expected validation error");
    assert_eq!(error.code, "block_invalid_placement");
    assert_eq!(
        msg(&error).as_str(),
        "{#each ...} block cannot be inside <textarea>"
    );
}

#[test]
fn rejects_invalid_attribute_names_from_ast() {
    for source in [
        "<p 3aa=\"abc\">Test</p>",
        "<p a*a>Test</p>",
        "<p -a>Test</p>",
        "<p a;=\"abc\">Test</p>",
    ] {
        let error = validate(source).expect("expected validation error");
        assert_eq!(error.code, "attribute_invalid_name");
    }
}

#[test]
fn rejects_unknown_svelte_meta_tags_from_ast() {
    let error = validate("<svelte:unknown />").expect("expected validation error");
    assert_eq!(error.code, "svelte_meta_invalid_tag");
}

#[test]
fn rejects_duplicate_svelte_window_from_ast() {
    let error =
        validate("<svelte:window /><svelte:window />").expect("expected validation error");
    assert_eq!(error.code, "svelte_meta_duplicate");
}

#[test]
fn rejects_nested_svelte_window_from_ast() {
    let error = validate("<div><svelte:window /></div>").expect("expected validation error");
    assert_eq!(error.code, "svelte_meta_invalid_placement");
}

#[test]
fn rejects_svelte_window_content_from_ast() {
    let error =
        validate("<svelte:window>content</svelte:window>").expect("expected validation error");
    assert_eq!(error.code, "svelte_meta_invalid_content");
    assert!(
        msg(&error)
            .contains("<svelte:window> cannot have children")
    );
}

#[test]
fn rejects_svelte_options_content_from_ast() {
    let error = validate("<svelte:options>content</svelte:options>")
        .expect("expected validation error");
    assert_eq!(error.code, "svelte_meta_invalid_content");
    assert!(
        msg(&error)
            .contains("<svelte:options> cannot have children")
    );
}

#[test]
fn rejects_reactive_declaration_cycle_from_ast() {
    let error = validate_legacy("<script>let a; let b; $: a = b; $: b = a;</script>")
        .expect("expected validation error");
    assert_eq!(error.code, "reactive_declaration_cycle");
    assert!(msg(&error).contains("a") && msg(&error).contains("b"));
}

#[test]
fn rejects_duplicate_default_scripts_from_ast() {
    let error = validate("<script>let a = 1;</script><script>let b = 2;</script>")
        .expect("expected validation error");
    assert_eq!(error.code, "script_duplicate");
}

#[test]
fn rejects_duplicate_module_scripts_from_ast() {
    let error = validate(
        "<script module>export const a = 1;</script><script context=\"module\">export const b = 2;</script>",
    )
    .expect("expected validation error");
    assert_eq!(error.code, "script_duplicate");
}

#[test]
fn rejects_invalid_script_context_from_ast() {
    let error = validate("<script context=\"client\">let a = 1;</script>")
        .expect("expected validation error");
    assert_eq!(error.code, "script_invalid_context");
}

#[test]
fn rejects_typescript_enum_from_ast() {
    let error = validate("<script lang=\"ts\">enum Color { Red, Blue }</script>")
        .expect("expected validation error");
    assert_eq!(error.code, "typescript_invalid_feature");
    assert!(msg(&error).contains("enums"));
}

#[test]
fn rejects_typescript_accessor_fields_from_ast() {
    let error = validate("<script lang=\"ts\">class Foo { accessor y = 1; }</script>")
        .expect("expected validation error");
    assert_eq!(error.code, "typescript_invalid_feature");
    assert!(msg(&error).contains("accessor fields"));
}

#[test]
fn rejects_typescript_namespace_values_from_ast() {
    let error =
        validate("<script lang=\"ts\">namespace Foo { export const value = 1; }</script>")
            .expect("expected validation error");
    assert_eq!(error.code, "typescript_invalid_feature");
    assert!(msg(&error).contains("namespaces with non-type nodes"));
}

#[test]
fn rejects_typescript_constructor_parameter_modifiers_from_ast() {
    let error = validate(
        "<script lang=\"ts\">class Foo { constructor(private value: number) {} }</script>",
    )
    .expect("expected validation error");
    assert_eq!(error.code, "typescript_invalid_feature");
    assert!(
        msg(&error)
            .contains("accessibility modifiers on constructor parameters")
    );
}

#[test]
fn allows_type_only_typescript_namespace_from_ast() {
    let error = validate(
        "<script lang=\"ts\">namespace Foo { export interface Bar { value: string } }</script>",
    );
    assert!(error.is_none(), "unexpected validation error: {error:?}");
}

#[test]
fn rejects_block_reactive_declaration_cycle_from_ast() {
    let error = validate_legacy("<script>let a; let b; $: { a = b; } $: b = a;</script>")
        .expect("expected validation error");
    assert_eq!(error.code, "reactive_declaration_cycle");
    assert!(msg(&error).contains("a") && msg(&error).contains("b"));
}

#[test]
fn direct_meta_scan_rejects_duplicate_svelte_window() {
    let source = "<svelte:window /><svelte:window />";
    let parsed = parse_component_for_compile(source).expect("parse component");
    assert_eq!(parsed.root().fragment.nodes.len(), 2);
    assert!(matches!(
        parsed.root().fragment.nodes[0],
        Node::SvelteWindow(_)
    ));
    assert!(matches!(
        parsed.root().fragment.nodes[1],
        Node::SvelteWindow(_)
    ));

    let mut state = SvelteMetaScanState::new();
    let first = scan_modern_node_for_svelte_meta(
        &parsed.root().fragment.nodes[0],
        0,
        0,
        &mut state,
    );
    assert!(first.is_none(), "unexpected first-node error: {first:?}");
    assert_eq!(state.window_count, 1);

    let second = scan_modern_node_for_svelte_meta(
        &parsed.root().fragment.nodes[1],
        0,
        0,
        &mut state,
    );
    assert_eq!(state.window_count, 2);
    assert!(second.is_some(), "expected second-node error");

    let error = detect_svelte_meta_structure_errors(parsed.root())
        .expect("expected validation error");
    assert_eq!(error.code, "svelte_meta_duplicate");
}

#[test]
fn rejects_else_before_closing_from_parse_errors() {
    let error =
        validate("{#if true}\n\t<li>\n{:else}\n{/if}").expect("expected validation error");
    assert_eq!(error.code, "block_invalid_continuation_placement");
}

#[test]
fn rejects_else_before_closing_await_from_parse_errors() {
    let error = validate("{#if true}\n\t{#await p}\n{:else}\n{/if}")
        .expect("expected validation error");
    assert_eq!(error.code, "expected_token");
    assert_eq!(
        msg(&error).as_str(),
        "Expected token {:then ...} or {:catch ...}"
    );
}

#[test]
fn rejects_top_level_then_from_parse_errors() {
    let error = validate("{:then foo}").expect("expected validation error");
    assert_eq!(error.code, "block_invalid_continuation_placement");
}

#[test]
fn rejects_unclosed_comment_from_parse_errors() {
    let error = validate("<!-- an unclosed comment").expect("expected validation error");
    assert_eq!(error.code, "expected_token");
    assert_eq!(msg(&error).as_str(), "Expected token -->");
}

#[test]
fn rejects_unclosed_script_from_parse_errors() {
    let error =
        validate("<script>\n\n<h1>Hello {name}!</h1>").expect("expected validation error");
    assert_eq!(error.code, "element_unclosed");
    assert_eq!(msg(&error).as_str(), "`<script>` was left open");
}

#[test]
fn rejects_unclosed_if_block_from_parse_errors() {
    let error = validate("{#if foo}\n\t<p>foo</p>").expect("expected validation error");
    assert_eq!(error.code, "block_unclosed");
}

#[test]
fn rejects_unclosed_div_from_parse_errors() {
    let error = validate("<div>").expect("expected validation error");
    assert_eq!(error.code, "element_unclosed");
    assert_eq!(msg(&error).as_str(), "`<div>` was left open");
}

#[test]
fn rejects_const_tag_reference_from_non_failed_boundary_snippet() {
    let error = validate(
        "<svelte:boundary>{@const foo = 'bar'}{#snippet other()}{foo}{/snippet}</svelte:boundary>",
    )
    .expect("expected validation error");
    assert_eq!(error.code, "const_tag_invalid_reference");
}

#[test]
fn allows_const_tag_shadowing_in_nested_each_blocks() {
    let error = validate(
        "{#each items as { a, b, children }}{@const ab = a + b}{#each children as { a, b }}{@const ab = a + b}{ab}{/each}{ab}{/each}",
    );
    assert!(error.is_none(), "unexpected validation error: {error:?}");
}

#[test]
fn allows_css_custom_property_attributes_on_component_like_nodes() {
    assert!(validate("<Widget --prop=\"red\" />").is_none());
    assert!(validate("<svelte:component this={Widget} --prop=\"red\" />").is_none());
    assert!(validate("{#if ok}<svelte:self --prop=\"red\" />{/if}").is_none());
}

#[test]
fn allows_arguments_inside_function_declarations() {
    let error = validate(
        "<script>function increment() { return arguments.length; }</script><button onclick={increment}></button>",
    );
    assert!(error.is_none(), "unexpected validation error: {error:?}");
}

#[test]
fn allows_svelte_self_inside_component_slot_content() {
    let error = validate(
        "<script>import Countdown from './Countdown.svelte'; export let count = 5;</script><Countdown {count} let:count><svelte:self {count} /></Countdown>",
    );
    assert!(error.is_none(), "unexpected validation error: {error:?}");
}

#[test]
fn allows_uri_namespace_values_in_svelte_options() {
    let error =
        validate("<svelte:options namespace=\"http://www.w3.org/2000/svg\"/><rect></rect>");
    assert!(error.is_none(), "unexpected validation error: {error:?}");
}

#[test]
fn allows_weird_prop_names_on_components() {
    let error = validate(
        "<script>import Child from './Child.svelte';</script><Child 0={0} ysc%%gibberish={1} />",
    );
    assert!(error.is_none(), "unexpected validation error: {error:?}");
}

#[test]
fn allows_bindings_to_imported_object_members() {
    let error = validate(
        "<script>import Child from './child.svelte'; import { global } from './state.svelte.js';</script><Child bind:a={global.value} />",
    );
    assert!(error.is_none(), "unexpected validation error: {error:?}");
}

#[test]
fn legacy_allows_bindings_to_store_subscriptions() {
    let error = validate_legacy(
        "<script>import { writable } from 'svelte/store'; export const name = writable('world');</script><input bind:value={$name}><textarea bind:value={$name} />",
    );
    assert!(error.is_none(), "unexpected validation error: {error:?}");
}

#[test]
fn runes_allows_bindings_to_state_variables() {
    let error =
        validate("<script>let playbackRate = $state(0.5);</script><audio bind:playbackRate />");
    assert!(error.is_none(), "unexpected validation error: {error:?}");
}

#[test]
fn rejects_unexpected_eof_from_missing_self_closing_tag() {
    let error = validate("<d").expect("expected validation error");
    assert_eq!(error.code, "unexpected_eof");
}

#[test]
fn rejects_missing_attribute_expression_right_brace_from_parse_errors() {
    let error = validate("<Component test={ />").expect("expected validation error");
    assert_eq!(error.code, "expected_token");
    assert_eq!(msg(&error).as_str(), "Expected token }");
}

#[test]
fn rejects_illegal_expression_from_parse_errors() {
    let error = validate("{42 = nope}").expect("expected validation error");
    assert_eq!(error.code, "js_parse_error");
    assert_eq!(msg(&error).as_str(), "Assigning to rvalue");
}

#[test]
fn rejects_unmatched_closing_tag_from_parse_errors() {
    let error = validate("</div>").expect("expected validation error");
    assert_eq!(error.code, "element_invalid_closing_tag");
    assert_eq!(
        msg(&error).as_str(),
        "`</div>` attempted to close an element that was not open"
    );
}

#[test]
fn rejects_unclosed_style_with_markup_from_parse_errors() {
    let error =
        validate("<style>\n\n<h1>Hello {name}!</h1>").expect("expected validation error");
    assert_eq!(error.code, "css_expected_identifier");
}

#[test]
fn rejects_invalid_component_names_from_ast() {
    let error = validate("<Components[1] />").expect("expected validation error");
    assert_eq!(error.code, "tag_invalid_name");
}

#[test]
fn rejects_invalid_element_names_from_ast() {
    let error = validate("<yes[no]></yes[no]>").expect("expected validation error");
    assert_eq!(error.code, "tag_invalid_name");
}

#[test]
fn allows_unicode_component_names_from_ast() {
    assert!(validate("<Wunderschön />").is_none());
    assert!(validate("<Namespace.Schön />").is_none());
}

#[test]
fn allows_unicode_custom_element_names_from_ast() {
    assert!(validate("<math-α></math-α>").is_none());
}

#[test]
fn rejects_invalid_bind_targets_on_svelte_element() {
    let error = validate(
        "<script>const tag = 'div'; let value;</script><svelte:element this={tag} bind:value />",
    )
    .expect("expected validation error");
    assert_eq!(error.code, "bind_invalid_target");
}

#[test]
fn allows_bind_this_on_svelte_element() {
    assert!(
        validate("<script>const tag = 'div'; let node;</script><svelte:element this={tag} bind:this={node} />")
            .is_none()
    );
}

#[test]
fn allows_animate_on_svelte_element_inside_keyed_each() {
    assert!(
        validate(
            "<script>const tag = 'div'; const items = [{ id: 1 }];</script>{#each items as item (item.id)}<svelte:element this={tag} animate:flip />{/each}"
        )
        .is_none()
    );
}

#[test]
fn runes_allows_dynamic_input_type_for_bind_value() {
    let error = validate(
        "<script>let type = $state('text'); let value = $state('');</script><input type={type} bind:value={value} />",
    );
    assert!(error.is_none(), "unexpected validation error: {error:?}");
}

#[test]
fn allows_component_attributes_with_non_html_prop_names() {
    let error = validate(
        "<script>import Child from './Child.svelte';</script><Child 0={0} ysc%%gibberish={1} />",
    );
    assert!(error.is_none(), "unexpected validation error: {error:?}");
}

#[test]
fn allows_bindings_to_member_expressions_rooted_at_imports() {
    let error = validate(
        "<script>import { global } from './state.svelte.js';</script><Child bind:a={global.value} />",
    );
    assert!(error.is_none(), "unexpected validation error: {error:?}");
}

#[test]
fn rejects_void_element_closing_tag_from_ast() {
    let error = validate("<input>this is illegal!</input>").expect("expected validation error");
    assert_eq!(error.code, "void_element_invalid_content");
}

