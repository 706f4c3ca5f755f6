use svelte_compiler::component::parse_component_for_compile;
use svelte_compiler::diagnostics::CompileError;
use svelte_compiler::runes::{
    find_before_update_import_in_program, find_dollar_prefix_invalid_in_program, find_legacy_export_let_in_program,
    is_dollar_prefixed_invalid_identifier,
};
use svelte_compiler::validate::{validate_component_script, CompileOptions};

fn script(source: &str, runes: bool) -> Option<CompileError> {
    let parsed = parse_component_for_compile(source).expect("parse component");
    validate_component_script(&CompileOptions::with_runes(runes), parsed.root())
}

fn msg(error: &CompileError) -> String {
    error.message.iter().collect()
}

fn chars(s: &str) -> Vec<char> {
    s.chars().collect()
}

#[test]
fn reserves_dollar_letter_and_dollar_underscore_names() {
    assert!(is_dollar_prefixed_invalid_identifier(&chars("$foo")));
    assert!(is_dollar_prefixed_invalid_identifier(&chars("$_x")));
    assert!(!is_dollar_prefixed_invalid_identifier(&chars("$")));
    assert!(!is_dollar_prefixed_invalid_identifier(&chars("$1")));
    assert!(!is_dollar_prefixed_invalid_identifier(&chars("foo")));
}

#[test]
fn rejects_dollar_prefixed_variable_in_either_mode() {
    for runes in [true, false] {
        let error = script("<script>let $foo = 1;</script>", runes).expect("expected script error");
        assert_eq!(error.code, "dollar_prefix_invalid");
        assert_eq!((error.start, error.end), (12, 13));
        assert_eq!(msg(&error), "The $ prefix is reserved, and cannot be used for variables and imports");
    }
}

#[test]
fn rejects_dollar_prefixed_import_in_module_script() {
    let parsed = parse_component_for_compile("<script module>import { a as $b } from './x.js';</script>").expect("parse");
    let module = parsed.root().module.as_ref().expect("module script");
    assert_eq!(find_dollar_prefix_invalid_in_program(&module.content), Some((29, 30)));
}

#[test]
fn rejects_before_update_import_in_runes_mode() {
    let error = script("<script>import { beforeUpdate } from 'svelte';</script>", true).expect("expected script error");
    assert_eq!(error.code, "runes_mode_invalid_import");
    assert_eq!((error.start, error.end), (17, 29));
    assert!(script("<script>import { beforeUpdate } from 'svelte';</script>", false).is_none());
    let parsed = parse_component_for_compile("<script>import { beforeUpdate } from './mine.js';</script>").expect("parse");
    let instance = parsed.root().instance.as_ref().expect("instance script");
    assert_eq!(find_before_update_import_in_program(&instance.content), None);
}

#[test]
fn rejects_export_let_in_runes_mode() {
    let error = script("<script>export let count = 0;</script>", true).expect("expected script error");
    assert_eq!(error.code, "legacy_export_invalid");
    assert_eq!((error.start, error.end), (8, 18));
    let parsed = parse_component_for_compile("<script>export const x = 1;</script>").expect("parse");
    let instance = parsed.root().instance.as_ref().expect("instance script");
    assert_eq!(find_legacy_export_let_in_program(&instance.content), None);
}

#[test]
fn rejects_unknown_rune_member() {
    let error = script("<script>let s = $state.foo(1);</script>", true).expect("expected script error");
    assert_eq!(error.code, "rune_invalid_name");
    assert_eq!(msg(&error), "`$state.foo` is not a valid rune");
    assert_eq!((error.start, error.end), (16, 26));
    assert!(script("<script>let s = $state.raw(1);</script>", true).is_none());
}

#[test]
fn reports_renamed_effect_active() {
    let error = script("<script>const t = $effect.active();</script>", true).expect("expected script error");
    assert_eq!(error.code, "rune_renamed");
    assert_eq!(msg(&error), "`$effect.active` is now `$effect.tracking`");
}

#[test]
fn rejects_wrong_rune_argument_counts() {
    let error = script("<script>let d = $derived();</script>", true).expect("expected script error");
    assert_eq!(error.code, "rune_invalid_arguments_length");
    assert_eq!(msg(&error), "`$derived` must be called with exactly one argument");
    assert_eq!((error.start, error.end), (16, 26));
    let error = script("<script>let s = $state(1, 2);</script>", true).expect("expected script error");
    assert_eq!(msg(&error), "`$state` must be called with zero or one arguments");
    assert!(script("<script>let s = $state();</script>", true).is_none());
}

#[test]
fn rejects_spread_rune_arguments() {
    let error = script("<script>let s = $state(...args);</script>", true).expect("expected script error");
    assert_eq!(error.code, "rune_invalid_spread");
    assert_eq!(msg(&error), "`$state` cannot be called with a spread argument");
    assert_eq!((error.start, error.end), (16, 31));
}

#[test]
fn legacy_mode_leaves_rune_names_alone() {
    assert!(script("<script>let s = $state.foo(1);</script>", false).is_none());
}
