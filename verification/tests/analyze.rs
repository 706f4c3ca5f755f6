use svelte_compiler::component::parse_component_for_compile;
use svelte_compiler::diagnostics::CompileError;
use svelte_compiler::validate::{
    analyze_component, lower_component, ComponentAnalysis, CompileOptions, TransformState,
};

fn s(chars: &[char]) -> String {
    chars.iter().collect()
}

#[test]
fn analyze_component_produces_typed_component_analysis() {
    let parsed = parse_component_for_compile("<p>ok</p>").expect("parse component");
    let options = CompileOptions::new();
    let analysis: ComponentAnalysis<'_> =
        analyze_component(parsed, &options).expect("analyze component");

    assert_eq!(s(analysis.source()), "<p>ok</p>");
    assert!(std::ptr::eq(analysis.options(), &options));
    assert_eq!(analysis.root().start, 0);
    assert!(!analysis.runes());

    let lowered: TransformState<'_> = analysis.lower();
    assert_eq!(s(lowered.source()), "<p>ok</p>");
    assert_eq!(lowered.root().start, 0);
}

fn analyze_error(source: &str) -> CompileError {
    let parsed = parse_component_for_compile(source).expect("parse");
    match analyze_component(parsed, &CompileOptions::new()) {
        Ok(_) => panic!("analyze error"),
        Err(error) => error,
    }
}

#[test]
fn analyze_rejects_top_level_then_continuation() {
    let error = analyze_error("{:then theValue}");
    assert_eq!(error.code, "block_invalid_continuation_placement");
}

#[test]
fn analyze_rejects_top_level_catch_continuation() {
    let error = analyze_error("{:catch theValue}");
    assert_eq!(error.code, "block_invalid_continuation_placement");
}

#[test]
fn analyze_rejects_else_after_open_element() {
    let error = analyze_error("<li>\n{:else}");
    assert_eq!(error.code, "block_invalid_continuation_placement");
}

#[test]
fn lower_component_yields_typed_transform_state() {
    let parsed = parse_component_for_compile("<div />").expect("parse component");
    let options = CompileOptions::new();
    let analysis = match analyze_component(parsed, &options) {
        Ok(analysis) => analysis,
        Err(error) => panic!("analyze component: {error:?}"),
    };

    let lowered: TransformState<'_> = lower_component(&analysis);
    let via_method: TransformState<'_> = analysis.lower();

    assert_eq!(s(lowered.source()), "<div />");
    assert!(std::ptr::eq(lowered.root(), analysis.root()));

    assert_eq!(s(via_method.source()), "<div />");
    assert!(std::ptr::eq(via_method.root(), analysis.root()));
}
