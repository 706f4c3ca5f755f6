use svelte_compiler::component::parse_component_for_compile;
use svelte_compiler::consts::detect_const_tag_errors;
use svelte_compiler::json::{offset_map, parse_json_object};
use svelte_compiler::reactive::detect_reactive_declaration_cycle;

#[test]
fn const_tags_reading_each_other_are_a_cycle() {
    let source = "{#if true}{@const a = b}{@const b = a}{/if}";
    let parsed = parse_component_for_compile(source).expect("parsed");
    let e = detect_const_tag_errors(&parsed.root, false).expect("an error");
    assert_eq!(e.code, "const_tag_cycle");
    assert_eq!(e.message.iter().collect::<String>(), "Cyclical dependency detected: a \u{2192} b \u{2192} a");
    assert_eq!(e.start, 10);
}

#[test]
fn const_tags_without_a_cycle_pass() {
    let source = "{#if true}{@const a = 1}{@const b = a}{b}{/if}";
    let parsed = parse_component_for_compile(source).expect("parsed");
    assert!(detect_const_tag_errors(&parsed.root, false).is_none());
}

#[test]
fn reactive_statements_reading_each_other_are_a_cycle() {
    let source = "<script>let a = 0; let b = 0; $: a = b; $: b = a;</script>";
    let parsed = parse_component_for_compile(source).expect("parsed");
    let e = detect_reactive_declaration_cycle(&parsed.root).expect("an error");
    assert_eq!(e.code, "reactive_declaration_cycle");
    assert_eq!(e.message.iter().collect::<String>(), "Cyclical dependency detected: a \u{2192} b \u{2192} a");
}

#[test]
fn json_object_offsets_move_into_the_component() {
    let snippet: Vec<char> = "ab".chars().collect();
    let map = offset_map(&snippet, 10);
    let text: Vec<char> = "{\"type\":\"Identifier\",\"start\":1,\"end\":2,\"name\":\"b\"}".chars().collect();
    let node = parse_json_object(&text, &map).expect("an object");
    assert_eq!(node.fields.len(), 4);
    let key: String = node.fields[1].key.iter().collect();
    assert_eq!(key, "start");
    match &node.fields[1].value {
        svelte_compiler::estree::EstreeValue::UInt(n) => assert_eq!(*n, 11),
        _ => panic!("expected a number"),
    }
}

#[test]
fn json_text_that_is_not_an_object_reads_as_nothing() {
    let map = offset_map(&[], 0);
    let text: Vec<char> = "[1, 2]".chars().collect();
    assert!(parse_json_object(&text, &map).is_none());
}
