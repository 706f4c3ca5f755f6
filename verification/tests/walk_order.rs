use svelte_compiler::ast::{Element, Entry, Fragment, FragmentType, Node, ParseError, ParseErrorKind, Search, Text};
use svelte_compiler::template::{detect_parse_error_from_root, parse_error};
use svelte_compiler::walk::Visitor;
use svelte_compiler::component::parse_component_for_compile;
use svelte_compiler::content::detect_multiple_top_level_styles;

fn chars(s: &str) -> Vec<char> {
    s.chars().collect()
}

fn text(start: usize, end: usize, data: &str) -> Node {
    Node::Text(Text { start, end, raw: chars(data), data: chars(data) })
}

struct Recorder {
    seen: Vec<usize>,
}

impl<'a> Visitor<'a, usize> for Recorder {
    // The two relations are for the verifier; nothing calls them at run time.
    fn entered(&self, _entry: Entry<'a>, _next: Self, _answer: Search<usize>) -> bool {
        true
    }

    fn left(&self, _entry: Entry<'a>, _next: Self) -> bool {
        true
    }

    fn enter(&mut self, entry: Entry<'a>) -> Search<usize> {
        let k = match entry {
            Entry::Node(n) => n.start(),
            Entry::IfBlock(b) => b.start,
        };
        self.seen.push(k);
        if k == 1 { Search::Found(k) } else { Search::Continue }
    }

    fn leave(&mut self, entry: Entry<'a>) {
        let k = match entry {
            Entry::Node(n) => n.start(),
            Entry::IfBlock(b) => b.start,
        };
        self.seen.push(100 + k);
    }
}

#[test]
fn walk_stops_at_first_found_after_leaving_earlier_nodes() {
    let f = Fragment { fragment_type: FragmentType::Fragment, nodes: vec![text(0, 1, "a"), text(1, 2, "b")] };
    let mut s = Recorder { seen: Vec::new() };
    assert_eq!(f.walk(&mut s), Some(1));
    assert_eq!(s.seen, vec![0, 100, 1]);
}

#[test]
fn walk_over_empty_fragment_calls_nothing() {
    let f = Fragment { fragment_type: FragmentType::Fragment, nodes: Vec::new() };
    let mut s = Recorder { seen: Vec::new() };
    assert_eq!(f.walk(&mut s), None);
    assert!(s.seen.is_empty());
}

#[test]
fn unclosed_element_message_names_the_element() {
    let e = ParseError { kind: ParseErrorKind::ElementUnclosed { name: chars("div") }, start: 0, end: 5 };
    let r = parse_error(&e, false).expect("an error");
    assert_eq!(r.code, "element_unclosed");
    assert_eq!(r.message.iter().collect::<String>(), "`<div>` was left open");
}

#[test]
fn javascript_message_is_handed_on() {
    let e = ParseError { kind: ParseErrorKind::JsParseError { message: chars("Unexpected token") }, start: 3, end: 4 };
    let r = parse_error(&e, true).expect("an error");
    assert_eq!(r.code, "js_parse_error");
    assert_eq!(r.message.iter().collect::<String>(), "Unexpected token");
    assert_eq!((r.start, r.end), (3, 4));
}

#[test]
fn misplaced_continuation_is_reported_first() {
    let mut parsed = parse_component_for_compile("<p>x</p>").expect("parsed");
    parsed.root.errors = vec![
        ParseError { kind: ParseErrorKind::UnexpectedEof, start: 0, end: 1 },
        ParseError { kind: ParseErrorKind::BlockUnexpectedCharacter, start: 2, end: 3 },
        ParseError { kind: ParseErrorKind::BlockInvalidContinuationPlacement, start: 4, end: 5 },
    ];
    let r = detect_parse_error_from_root(&parsed.root, true).expect("an error");
    assert_eq!(r.code, "block_invalid_continuation_placement");
    assert_eq!(r.start, 4);
}

#[test]
fn unexpected_character_silences_errors_outside_runes_mode() {
    let mut parsed = parse_component_for_compile("<p>x</p>").expect("parsed");
    parsed.root.errors = vec![
        ParseError { kind: ParseErrorKind::UnexpectedEof, start: 0, end: 1 },
        ParseError { kind: ParseErrorKind::BlockUnexpectedCharacter, start: 2, end: 3 },
    ];
    assert!(detect_parse_error_from_root(&parsed.root, false).is_none());
    let r = detect_parse_error_from_root(&parsed.root, true).expect("an error");
    assert_eq!(r.code, "block_unexpected_character");
    assert_eq!(r.start, 2);
}

#[test]
fn second_style_is_reported_at_its_start() {
    let parsed = parse_component_for_compile("<style>a{}</style><style>b{}</style>").expect("parsed");
    let e = detect_multiple_top_level_styles(&parsed.root).expect("an error");
    assert_eq!(e.code, "style_duplicate");
    assert_eq!((e.start, e.end), (18, 18));
    assert_eq!(e.message.iter().collect::<String>(), "A component can have a single top-level `<style>` element");
}

#[test]
fn element_trait_gives_the_shared_parts() {
    let parsed = parse_component_for_compile("<div class=\"a\"><p>x</p></div>").expect("parsed");
    let node = &parsed.root.fragment.nodes[0];
    match node {
        Node::RegularElement(e) => {
            assert_eq!(Element::name(e).iter().collect::<String>(), "div");
            assert_eq!(Element::attributes(e).len(), 1);
            assert_eq!(Element::fragment(e).nodes.len(), 1);
            assert!(Element::expression(e).is_none());
            assert!(!Element::self_closing(e));
        },
        _ => panic!("expected an element"),
    }
}
