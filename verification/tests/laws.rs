use svelte_compiler::ast::{Entry, Node, Search};
use svelte_compiler::component::parse_component_for_compile;
use svelte_compiler::deps::{first_cycle, DependencyGraph};
use svelte_compiler::validate::{infer_runes_mode, CompileOptions};

fn chars(s: &str) -> Vec<char> {
    s.chars().collect()
}

#[test]
fn reported_cycle_closes_and_follows_edges() {
    let graph = DependencyGraph {
        names: vec![chars("a"), chars("b"), chars("c")],
        edges: vec![vec![chars("b")], vec![chars("c")], vec![chars("a")]],
    };
    let cycle = first_cycle(&graph).expect("expected a cycle");
    let names: Vec<String> = cycle.iter().map(|n| n.iter().collect()).collect();
    assert_eq!(names, vec!["a", "b", "c", "a"]);
}

#[test]
fn acyclic_graph_has_no_cycle() {
    let graph = DependencyGraph {
        names: vec![chars("a"), chars("b")],
        edges: vec![vec![chars("b")], vec![]],
    };
    assert!(first_cycle(&graph).is_none());
}

#[test]
fn normalizing_twice_reads_the_same_source() {
    let first = parse_component_for_compile("<p>\r\nhi\r\n</p>").expect("parse component");
    let text: String = first.source().iter().collect();
    assert_eq!(text, "<p>\nhi\n</p>");
    let second = parse_component_for_compile(&text).expect("parse component");
    assert_eq!(second.source(), first.source());
}

#[test]
fn options_fix_runes_mode_over_svelte_options() {
    let parsed = parse_component_for_compile("<svelte:options runes={true} /><p>x</p>").expect("parse component");
    assert!(!infer_runes_mode(&CompileOptions::with_runes(false), parsed.root()));
    assert!(infer_runes_mode(&CompileOptions::new(), parsed.root()));
    let plain = parse_component_for_compile("<p>x</p>").expect("parse component");
    assert!(!infer_runes_mode(&CompileOptions::new(), plain.root()));
}

#[test]
fn search_returns_a_value_its_visit_found() {
    let parsed = parse_component_for_compile("<div><span>a</span>{#if x}<b>b</b>{/if}</div>").expect("parse component");
    let found = parsed.root().fragment.search(|entry: Entry<'_>| match entry {
        Entry::Node(Node::RegularElement(e)) if e.name.iter().collect::<String>() == "b" => Search::Found(e.start),
        _ => Search::Continue,
    });
    assert_eq!(found, Some(26));
    let skipped = parsed.root().fragment.search(|entry: Entry<'_>| match entry {
        Entry::Node(Node::RegularElement(e)) if e.name.iter().collect::<String>() == "div" => Search::Skip,
        Entry::Node(Node::RegularElement(e)) if e.name.iter().collect::<String>() == "b" => Search::Found(e.start),
        _ => Search::Continue,
    });
    assert_eq!(skipped, None);
}
