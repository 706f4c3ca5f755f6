use svelte_compiler::estree::{field, EstreeNode, EstreeValue, RawField};
use svelte_compiler::js::parse_program;
use svelte_compiler::json::{offset_map, parse_json_object};

fn program_body_len(program: &EstreeNode) -> usize {
    match field(program, RawField::Body) {
        Some(EstreeValue::Array(items)) => items.len(),
        _ => 0,
    }
}

fn chars(text: &str) -> Vec<char> {
    text.chars().collect()
}

#[test]
fn parses_program_with_rune_call_in_js_mode() {
    let source = chars("let playbackRate = $state(0.5);");
    let (program, _) = parse_program(&source, 0, false);
    let program = program.expect("program should parse");

    assert_eq!(program_body_len(&program), 1);
}

#[test]
fn parses_program_with_dollar_dollar_props_in_js_mode() {
    let source = chars("let x = $$props;");
    let (program, _) = parse_program(&source, 0, false);
    let program = program.expect("program should parse");

    assert_eq!(program_body_len(&program), 1);
}

#[test]
fn estree_js_json_for_rune_call_deserializes() {
    let source = "let playbackRate = $state(0.5);";
    let allocator = oxc_allocator::Allocator::default();
    let parsed = oxc_parser::Parser::new(&allocator, source, oxc_span::SourceType::mjs()).parse();
    let json = parsed.program.to_estree_json(false, false);

    let _value: serde_json::Value =
        serde_json::from_str(&json).expect("serializer should emit valid json");
    let snippet = chars(source);
    let map = offset_map(&snippet, 0);
    let _node: EstreeNode =
        parse_json_object(&chars(&json), &map).expect("serializer output should fit EstreeNode");
}
