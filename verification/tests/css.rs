use svelte_compiler::component::parse_component_for_compile;
use svelte_compiler::diagnostics::CompileError;
use svelte_compiler::validate::validate_component_css;

fn validate(source: &str) -> Option<CompileError> {
    let parsed = parse_component_for_compile(source).expect("parse component");
    validate_component_css(parsed.source(), parsed.root())
}

#[test]
fn rejects_duplicate_top_level_styles_from_ast() {
    let error = validate("<style>.a{color:red}</style><style>.b{color:blue}</style>")
        .expect("expected validation error");
    assert_eq!(error.code, "style_duplicate");
}
