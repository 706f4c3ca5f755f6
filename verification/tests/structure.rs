use svelte_compiler::component::parse_component_for_compile;
use svelte_compiler::diagnostics::CompileError;
use svelte_compiler::placement::{
    detect_directive_invalid_value, detect_each_key_without_as, detect_let_directive_invalid_placement,
    detect_missing_directive_name, detect_style_directive_invalid_modifier, detect_svelte_fragment_invalid_placement,
    detect_svelte_head_illegal_attribute, detect_svelte_options_invalid_custom_element,
    detect_svelte_options_invalid_namespace, detect_svelte_self_invalid_placement,
};
use svelte_compiler::structure::detect_additional_template_structure_errors;
use svelte_compiler::validate::{validate_component_template, CompileOptions};

fn structure(source: &str) -> Option<CompileError> {
    let parsed = parse_component_for_compile(source).expect("parse component");
    detect_additional_template_structure_errors(parsed.root())
}

fn validate_legacy(source: &str) -> Option<CompileError> {
    let parsed = parse_component_for_compile(source).expect("parse component");
    validate_component_template(&CompileOptions::with_runes(false), parsed.root())
}

fn msg(error: &CompileError) -> String {
    error.message.iter().collect()
}

fn check(source: &str, detect: fn(&svelte_compiler::ast::Root) -> Option<CompileError>) -> Option<CompileError> {
    let parsed = parse_component_for_compile(source).expect("parse component");
    detect(parsed.root())
}

#[test]
fn rejects_anchor_inside_anchor() {
    let error = structure("<a href=\"/x\"><a href=\"/y\">y</a></a>").expect("expected structure error");
    assert_eq!(error.code, "node_invalid_placement");
    assert!(msg(&error).starts_with("`<a>` cannot be a descendant of `<a>`."));
    assert_eq!((error.start, error.end), (13, 31));
}

#[test]
fn rejects_form_inside_form() {
    let error = structure("<form><div><form></form></div></form>").expect("expected structure error");
    assert_eq!(error.code, "node_invalid_placement");
    assert!(msg(&error).starts_with("`<form>` cannot be a descendant of `<form>`."));
}

#[test]
fn allows_form_inside_block_inside_form() {
    assert!(structure("<form>{#if ok}<form></form>{/if}</form>").is_none());
}

#[test]
fn rejects_dt_inside_dd() {
    let error = structure("<dl><dd><dt>x</dt></dd></dl>").expect("expected structure error");
    assert!(msg(&error).starts_with("`<dt>` cannot be a descendant of `<dd>`."));
}

#[test]
fn rejects_text_inside_tbody() {
    let error = structure("<table><tbody>hello</tbody></table>").expect("expected structure error");
    assert_eq!(error.code, "node_invalid_placement");
    assert!(msg(&error).starts_with("`<#text>` cannot be a child of `<tbody>`."));
    assert_eq!((error.start, error.end), (14, 19));
}

#[test]
fn allows_rows_and_blank_text_inside_tbody() {
    assert!(structure("<table><tbody>\n  <tr><td>1</td></tr>\n</tbody></table>").is_none());
}

#[test]
fn rejects_tbody_outside_table() {
    let error = structure("<div><tbody></tbody></div>").expect("expected structure error");
    assert!(msg(&error).starts_with("`<tbody>` must be the child of a `<table>`, not a `<div>`."));
}

#[test]
fn rejects_svelte_element_without_this() {
    let error = structure("<svelte:element></svelte:element>").expect("expected structure error");
    assert_eq!(error.code, "svelte_element_missing_this");
    assert_eq!((error.start, error.end), (0, 0));
}

#[test]
fn rejects_spread_on_svelte_window() {
    let error = structure("<svelte:window {...handlers} />").expect("expected structure error");
    assert_eq!(error.code, "illegal_element_attribute");
    assert_eq!(msg(&error), "`<svelte:window>` does not support non-event attributes or spread attributes");
}

#[test]
fn rejects_string_event_attribute() {
    let error = structure("<div onclick=\"go()\"></div>").expect("expected structure error");
    assert_eq!(error.code, "attribute_invalid_event_handler");
    assert_eq!((error.start, error.end), (5, 19));
}

#[test]
fn rejects_unknown_event_modifier() {
    let error = structure("<div on:click|sometimes={go}></div>").expect("expected structure error");
    assert_eq!(error.code, "event_handler_invalid_modifier");
}

#[test]
fn rejects_passive_with_nonpassive() {
    let error = structure("<div on:click|passive|nonpassive={go}></div>").expect("expected structure error");
    assert_eq!(error.code, "event_handler_invalid_modifier_combination");
    assert_eq!(msg(&error), "The 'passive' and 'nonpassive' modifiers cannot be used together");
}

#[test]
fn rejects_passive_with_prevent_default() {
    let error = structure("<div on:click|preventDefault|passive={go}></div>").expect("expected structure error");
    assert_eq!(msg(&error), "The 'passive' and 'preventDefault' modifiers cannot be used together");
}

#[test]
fn rejects_each_block_inside_textarea_at_its_start() {
    let error = structure("<textarea>{#each items as item}{item}{/each}</textarea>").expect("expected structure error");
    assert_eq!(error.code, "block_invalid_placement");
    assert_eq!(msg(&error), "{#each ...} block cannot be inside <textarea>");
    assert_eq!((error.start, error.end), (10, 10));
}

#[test]
fn legacy_validation_reports_structure_errors() {
    let error = validate_legacy("<a href=\"/x\"><div><a href=\"/y\">y</a></div></a>").expect("expected validation error");
    assert_eq!(error.code, "node_invalid_placement");
}

#[test]
fn rejects_svelte_self_at_the_top() {
    let error = check("<svelte:self />", detect_svelte_self_invalid_placement).expect("expected placement error");
    assert_eq!(error.code, "svelte_self_invalid_placement");
    assert_eq!((error.start, error.end), (0, 15));
}

#[test]
fn allows_svelte_self_inside_if_block_or_component() {
    assert!(check("{#if deep}<svelte:self />{/if}", detect_svelte_self_invalid_placement).is_none());
    assert!(check("<Widget><svelte:self /></Widget>", detect_svelte_self_invalid_placement).is_none());
}

#[test]
fn rejects_svelte_fragment_outside_component() {
    let error = check("<div><svelte:fragment slot=\"a\">x</svelte:fragment></div>", detect_svelte_fragment_invalid_placement)
        .expect("expected placement error");
    assert_eq!(error.code, "svelte_fragment_invalid_placement");
    assert_eq!(error.start, 5);
}

#[test]
fn allows_svelte_fragment_directly_inside_component() {
    assert!(check("<Widget><svelte:fragment slot=\"a\">x</svelte:fragment></Widget>", detect_svelte_fragment_invalid_placement)
        .is_none());
}

#[test]
fn rejects_attribute_on_svelte_head() {
    let error = check("<svelte:head title=\"x\"></svelte:head>", detect_svelte_head_illegal_attribute)
        .expect("expected attribute error");
    assert_eq!(error.code, "svelte_head_illegal_attribute");
    assert_eq!((error.start, error.end), (13, 22));
}

#[test]
fn rejects_let_directive_on_svelte_window() {
    let error = check("<svelte:window let:x />", detect_let_directive_invalid_placement).expect("expected placement error");
    assert_eq!(error.code, "let_directive_invalid_placement");
    assert_eq!(msg(&error), "`let:` directive at invalid position");
}

#[test]
fn rejects_style_modifier_other_than_important() {
    let error = check("<div style:color|bold=\"red\"></div>", detect_style_directive_invalid_modifier)
        .expect("expected modifier error");
    assert_eq!(error.code, "style_directive_invalid_modifier");
    assert!(check("<div style:color|important=\"red\"></div>", detect_style_directive_invalid_modifier).is_none());
}

#[test]
fn rejects_directive_without_name() {
    let error = check("<div on:={go}></div>", detect_missing_directive_name).expect("expected name error");
    assert_eq!(error.code, "directive_missing_name");
    assert_eq!(msg(&error), "`on:` name cannot be empty");
}

#[test]
fn rejects_directive_value_that_is_text() {
    let error = check("<div use:tooltip=plain></div>", detect_directive_invalid_value).expect("expected value error");
    assert_eq!(error.code, "directive_invalid_value");
    assert_eq!(error.start, error.end);
}

#[test]
fn rejects_unknown_namespace_option() {
    let error = check("<svelte:options namespace=\"xml\" />", detect_svelte_options_invalid_namespace)
        .expect("expected option error");
    assert_eq!(error.code, "svelte_options_invalid_attribute_value");
    assert!(check("<svelte:options namespace=\"svg\" />", detect_svelte_options_invalid_namespace).is_none());
}

#[test]
fn rejects_custom_element_tag_without_hyphen_or_reserved() {
    let error = check("<svelte:options customElement=\"MyElement\" />", detect_svelte_options_invalid_custom_element)
        .expect("expected option error");
    assert_eq!(error.code, "svelte_options_invalid_tagname");
    let error = check("<svelte:options customElement=\"font-face\" />", detect_svelte_options_invalid_custom_element)
        .expect("expected option error");
    assert_eq!(error.code, "svelte_options_reserved_tagname");
    assert!(check("<svelte:options customElement=\"my-element\" />", detect_svelte_options_invalid_custom_element).is_none());
}

#[test]
fn rejects_keyed_each_without_as() {
    let error = check("{#each items (item.id)}x{/each}", detect_each_key_without_as).expect("expected each error");
    assert_eq!(error.code, "each_key_without_as");
    assert!(check("{#each items as item (item.id)}x{/each}", detect_each_key_without_as).is_none());
}
