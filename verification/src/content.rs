//! Checks of what elements may contain and of tags: `<textarea>` and
//! `<title>` content, blocks inside `<textarea>`, mixed event handler
//! syntaxes, snippets shadowing props, `{@render}` expressions, and
//! duplicate `<style>` elements.
use vstd::prelude::*;

use crate::ast::{spec_node_span, Alternate, Attribute, Entry, Fragment, Node, RegularElement, RenderTag, Root, Search, TitleElement};
use crate::bindings::{contains_name, names_set, push_unique};
use crate::diagnostics::{compile_error_custom, compile_error_with_range, kind_error_view, option_error_view, CompileError, CompilerDiagnosticKind, ErrorView};
use crate::parse::spec_named_attribute_from;
use crate::walk::search_from;
use crate::estree::{field_array, field_object, field_str, identifier_name, node_span, spec_estree_span, spec_field, spec_type_is, type_is, EstreeNode, EstreeValue, RawField};
use crate::template::{element_fragment, first_content_range, first_non_whitespace_fragment_range, message3, spec_attribute_span};
use crate::text::{chars_of, spec_at, starts_with, text_is};

verus! {

/// The message for a `<textarea>` with both a value and content.
pub open spec fn textarea_content_message() -> Seq<char> {
    "A `<textarea>` can have either a value attribute or (equivalently) child content, but not both"@
}

/// The error of a `<textarea>` with both a `value` attribute and content:
/// it runs from the element's start to the later of its end and the end of
/// its first node that is not blank text.
pub open spec fn textarea_content_view(e: RegularElement) -> Option<ErrorView> {
    if e.name@ == "textarea"@ && spec_named_attribute_from(e.attributes@, 0, "value"@) is Some {
        match first_content_range(e.fragment.nodes@, 0) {
            Some((_, end)) => Some(
                (
                    "textarea_invalid_content"@,
                    textarea_content_message(),
                    e.start as int,
                    if e.end >= end {
                        e.end as int
                    } else {
                        end as int
                    },
                ),
            ),
            None => None,
        }
    } else {
        None
    }
}

/// A `<textarea>` with a `value` attribute and any child other than blank
/// text is reported from its start, with the message that it can have one
/// or the other but not both; without a `value` attribute, or with only
/// blank text, or for any other element, nothing is reported.
pub proof fn lemma_textarea_content(e: RegularElement)
    ensures
        (e.name@ == "textarea"@ && spec_named_attribute_from(e.attributes@, 0, "value"@) is Some
            && crate::template::spec_has_content(e.fragment.nodes@)) ==> (textarea_content_view(e) matches Some(v) && v.0
            == "textarea_invalid_content"@ && v.1
            == "A `<textarea>` can have either a value attribute or (equivalently) child content, but not both"@ && v.2
            == e.start as int && v.3 >= e.end as int),
        (e.name@ != "textarea"@ || spec_named_attribute_from(e.attributes@, 0, "value"@) is None
            || !crate::template::spec_has_content(e.fragment.nodes@)) ==> textarea_content_view(e) is None,
{
    let nodes = e.fragment.nodes@;
    if crate::template::spec_has_content(nodes) {
        let k = choose|k: int| 0 <= k < nodes.len() && !crate::template::spec_blank_text(#[trigger] nodes[k]);
        lemma_first_content_some(nodes, 0, k);
    } else {
        lemma_first_content_none(nodes, 0);
    }
}

proof fn lemma_first_content_some(nodes: Seq<Node>, i: int, k: int)
    requires
        0 <= i <= k < nodes.len(),
        !crate::template::spec_blank_text(nodes[k]),
    ensures
        first_content_range(nodes, i) is Some,
    decreases k - i,
{
    if i < k && crate::template::spec_blank_text(nodes[i]) {
        lemma_first_content_some(nodes, i + 1, k);
    }
}

proof fn lemma_first_content_none(nodes: Seq<Node>, i: int)
    requires
        0 <= i,
        !crate::template::spec_has_content(nodes),
    ensures
        first_content_range(nodes, i) is None,
    decreases nodes.len() - i,
{
    if i < nodes.len() {
        assert(crate::template::spec_blank_text(nodes[i]));
        lemma_first_content_none(nodes, i + 1);
    }
}

/// The error for a `<textarea>` with both a `value` attribute and content.
pub fn textarea_content_error(element: &RegularElement) -> (r: Option<CompileError>)
    ensures
        option_error_view(r) == textarea_content_view(*element),
{
    if !text_is(element.name.as_slice(), "textarea") {
        return None;
    }
    if crate::parse::find_named_attribute(&element.attributes, "value").is_none() {
        return None;
    }
    match first_non_whitespace_fragment_range(&element.fragment) {
        Some((_, end)) => {
            let e = if element.end >= end { element.end } else { end };
            Some(
                compile_error_custom(
                    "textarea_invalid_content",
                    chars_of("A `<textarea>` can have either a value attribute or (equivalently) child content, but not both"),
                    element.start,
                    e,
                ),
            )
        },
        None => None,
    }
}

/// The range of the first node of `nodes[i..]` that is neither text nor an
/// expression tag.
pub open spec fn title_foreign_child_from(nodes: Seq<Node>, i: int) -> Option<(usize, usize)>
    decreases nodes.len() - i,
{
    if 0 <= i < nodes.len() {
        match nodes[i] {
            Node::Text(_) | Node::ExpressionTag(_) => title_foreign_child_from(nodes, i + 1),
            _ => Some(spec_node_span(&nodes[i])),
        }
    } else {
        None
    }
}

/// The error of a `<title>`: its first attribute, else its first child
/// that is neither text nor an expression tag.
pub open spec fn title_content_view(el: TitleElement) -> Option<ErrorView> {
    if el.attributes@.len() > 0 {
        let (s, e) = spec_attribute_span(el.attributes@[0]);
        Some(("title_illegal_attribute"@, "`<title>` cannot have attributes nor directives"@, s as int, e as int))
    } else {
        match title_foreign_child_from(el.fragment.nodes@, 0) {
            Some((s, e)) => Some(
                ("title_invalid_content"@, "`<title>` can only contain text and {tags}"@, s as int, e as int),
            ),
            None => None,
        }
    }
}

/// The error for a `<title>` with attributes or with content other than
/// text and expression tags.
pub fn title_content_error(el: &TitleElement) -> (r: Option<CompileError>)
    ensures
        option_error_view(r) == title_content_view(*el),
{
    if el.attributes.len() > 0 {
        let (s, e) = crate::template::attribute_span(&el.attributes[0]);
        return Some(compile_error_custom("title_illegal_attribute", chars_of("`<title>` cannot have attributes nor directives"), s, e));
    }
    let mut i: usize = 0;
    while i < el.fragment.nodes.len()
        invariant
            i <= el.fragment.nodes@.len(),
            el.attributes@.len() == 0,
            title_foreign_child_from(el.fragment.nodes@, 0) == title_foreign_child_from(el.fragment.nodes@, i as int),
        decreases el.fragment.nodes.len() - i,
    {
        let child = &el.fragment.nodes[i];
        let allowed = match child {
            Node::Text(_) | Node::ExpressionTag(_) => true,
            _ => false,
        };
        if !allowed {
            return Some(compile_error_custom("title_invalid_content", chars_of("`<title>` can only contain text and {tags}"), child.start(), child.end()));
        }
        i += 1;
    }
    None
}

/// Whether a node may stand in a `<title>`: text or an expression tag.
pub open spec fn title_child_allowed(n: Node) -> bool {
    n is Text || n is ExpressionTag
}

proof fn lemma_title_foreign_child(nodes: Seq<Node>, i: int, k: int)
    requires
        0 <= i <= k < nodes.len(),
        !title_child_allowed(nodes[k]),
        forall|j: int| i <= j < k ==> title_child_allowed(#[trigger] nodes[j]),
    ensures
        title_foreign_child_from(nodes, i) == Some(spec_node_span(&nodes[k])),
    decreases k - i,
{
    if i < k {
        lemma_title_foreign_child(nodes, i + 1, k);
    }
}

proof fn lemma_title_no_foreign_child(nodes: Seq<Node>, i: int)
    requires
        0 <= i,
        forall|j: int| i <= j < nodes.len() ==> title_child_allowed(#[trigger] nodes[j]),
    ensures
        title_foreign_child_from(nodes, i) is None,
    decreases nodes.len() - i,
{
    if i < nodes.len() {
        lemma_title_no_foreign_child(nodes, i + 1);
    }
}

/// A `<title>` with any attribute at all is reported as having an illegal
/// attribute, over its first attribute, whatever its content; one without
/// attributes is reported over its first child that is neither text nor an
/// expression tag, and accepted when it has none.
pub proof fn lemma_title_content(el: TitleElement, k: int)
    ensures
        el.attributes@.len() >= 1 ==> title_content_view(el) == Some(
            (
                "title_illegal_attribute"@,
                "`<title>` cannot have attributes nor directives"@,
                spec_attribute_span(el.attributes@[0]).0 as int,
                spec_attribute_span(el.attributes@[0]).1 as int,
            ),
        ),
        el.attributes@.len() == 0 && 0 <= k < el.fragment.nodes@.len() && !title_child_allowed(el.fragment.nodes@[k])
            && (forall|j: int| 0 <= j < k ==> title_child_allowed(#[trigger] el.fragment.nodes@[j])) ==> title_content_view(el)
            == Some(
            (
                "title_invalid_content"@,
                "`<title>` can only contain text and {tags}"@,
                spec_node_span(&el.fragment.nodes@[k]).0 as int,
                spec_node_span(&el.fragment.nodes@[k]).1 as int,
            ),
        ),
        el.attributes@.len() == 0 && (forall|j: int|
            0 <= j < el.fragment.nodes@.len() ==> title_child_allowed(#[trigger] el.fragment.nodes@[j])) ==> title_content_view(el)
            is None,
{
    let nodes = el.fragment.nodes@;
    if el.attributes@.len() == 0 && 0 <= k < nodes.len() && !title_child_allowed(nodes[k]) && (forall|j: int|
        0 <= j < k ==> title_child_allowed(#[trigger] nodes[j])) {
        lemma_title_foreign_child(nodes, 0, k);
    }
    if el.attributes@.len() == 0 && (forall|j: int| 0 <= j < nodes.len() ==> title_child_allowed(#[trigger] nodes[j])) {
        lemma_title_no_foreign_child(nodes, 0);
    }
}

/// The content error of a `<textarea>` or `<title>` node.
pub open spec fn content_view(node: Node) -> Option<ErrorView> {
    match node {
        Node::RegularElement(e) => textarea_content_view(e),
        Node::TitleElement(e) => title_content_view(e),
        _ => None,
    }
}

/// What the content check does at an entry: it stops at a `<textarea>` or
/// `<title>` with a content error, does not enter a `<title>`, and enters
/// everything else.
pub open spec fn spec_text_content_visit<'a>(entry: Entry<'a>) -> Search<&'a Node> {
    match entry {
        Entry::Node(n) => match *n {
            Node::RegularElement(e) => if textarea_content_view(e) is Some {
                Search::Found(n)
            } else {
                Search::Continue
            },
            Node::TitleElement(e) => if title_content_view(e) is Some {
                Search::Found(n)
            } else {
                Search::Skip
            },
            _ => Search::Continue,
        },
        _ => Search::Continue,
    }
}

fn text_content_visit<'a>(entry: Entry<'a>) -> (r: Search<&'a Node>)
    ensures
        r == spec_text_content_visit(entry),
{
    match entry {
        Entry::Node(n) => match n {
            Node::RegularElement(e) => match textarea_content_error(e) {
                Some(_) => Search::Found(n),
                None => Search::Continue,
            },
            Node::TitleElement(e) => match title_content_error(e) {
                Some(_) => Search::Found(n),
                None => Search::Skip,
            },
            _ => Search::Continue,
        },
        _ => Search::Continue,
    }
}

/// The content error of a `<textarea>` or `<title>` node.
fn content_error(node: &Node) -> (r: Option<CompileError>)
    ensures
        option_error_view(r) == content_view(*node),
{
    match node {
        Node::RegularElement(e) => textarea_content_error(e),
        Node::TitleElement(e) => title_content_error(e),
        _ => None,
    }
}

/// The first `<textarea>` or `<title>` content error, in document order.
pub open spec fn spec_detect_text_content_model_errors(root: &Root) -> Option<ErrorView> {
    match search_from(&root.fragment, 0, |e: Entry| spec_text_content_visit(e)) {
        Some(n) => content_view(*n),
        None => None,
    }
}

/// The first `<textarea>` or `<title>` content error, in document order.
pub fn detect_text_content_model_errors(root: &Root) -> (r: Option<CompileError>)
    ensures
        option_error_view(r) == spec_detect_text_content_model_errors(root),
{
    match root.fragment.search_as(text_content_visit, Ghost(|e: Entry| spec_text_content_visit(e))) {
        Some(n) => content_error(n),
        None => None,
    }
}

/// Whether an attribute is an `onname` attribute.
pub open spec fn spec_event_attribute(a: Attribute) -> bool {
    a matches Attribute::Attribute(na) && spec_at(na.name@, 0, "on"@) && na.name@.len() > 2
}

/// Whether an element entry, not a `svelte:` one, uses an `onname` attribute.
pub open spec fn spec_modern_event(entry: Entry) -> Option<()> {
    match entry {
        Entry::Node(n) => match *n {
            Node::RegularElement(e) => if !spec_at(e.name@, 0, "svelte:"@) && exists|i: int|
                0 <= i < e.attributes@.len() && spec_event_attribute(#[trigger] e.attributes@[i]) {
                Some(())
            } else {
                None
            },
            _ => None,
        },
        _ => None,
    }
}

/// Whether an element entry, not a `svelte:` one, uses an `onname` attribute.
#[verifier::loop_isolation(false)]
fn modern_event_in_entry(entry: Entry<'_>) -> (r: Option<()>)
    ensures
        r == spec_modern_event(entry),
{
    match entry {
        Entry::Node(Node::RegularElement(e)) => {
            if starts_with(e.name.as_slice(), "svelte:") {
                return None;
            }
            let mut i: usize = 0;
            while i < e.attributes.len()
                invariant
                    i <= e.attributes@.len(),
                    forall|j: int| 0 <= j < i ==> !spec_event_attribute(#[trigger] e.attributes@[j]),
                decreases e.attributes.len() - i,
            {
                if let Attribute::Attribute(a) = &e.attributes[i] {
                    if starts_with(a.name.as_slice(), "on") && a.name.len() > 2 {
                        proof {
                            assert(spec_event_attribute(e.attributes@[i as int]));
                        }
                        return Some(());
                    }
                }
                i += 1;
            }
            None
        },
        _ => None,
    }
}

/// The index of the first `on:` directive among `attrs[i..]`.
pub open spec fn on_directive_from(attrs: Seq<Attribute>, i: int) -> Option<int>
    decreases attrs.len() - i,
{
    if 0 <= i < attrs.len() {
        if attrs[i] is OnDirective {
            Some(i)
        } else {
            on_directive_from(attrs, i + 1)
        }
    } else {
        None
    }
}

/// The name and range of the first `on:` directive of an element entry, not a `svelte:` one.
pub open spec fn spec_legacy_event<'a>(entry: Entry<'a>) -> Option<(&'a Vec<char>, usize, usize)> {
    match entry {
        Entry::Node(n) => match n {
            Node::RegularElement(e) => if spec_at(e.name@, 0, "svelte:"@) {
                None
            } else {
                match on_directive_from(e.attributes@, 0) {
                    Some(k) => match &e.attributes@[k] {
                        Attribute::OnDirective(d) => Some((&d.name, d.start, d.end)),
                        _ => None,
                    },
                    None => None,
                }
            },
            _ => None,
        },
        _ => None,
    }
}

/// The name and range of the first `on:` directive of an element entry.
#[verifier::loop_isolation(false)]
fn legacy_event_in_entry(entry: Entry<'_>) -> (r: Option<(&Vec<char>, usize, usize)>)
    ensures
        r == spec_legacy_event(entry),
{
    match entry {
        Entry::Node(Node::RegularElement(e)) => {
            if starts_with(e.name.as_slice(), "svelte:") {
                return None;
            }
            let mut i: usize = 0;
            while i < e.attributes.len()
                invariant
                    i <= e.attributes@.len(),
                    on_directive_from(e.attributes@, 0) == on_directive_from(e.attributes@, i as int),
                decreases e.attributes.len() - i,
            {
                if let Attribute::OnDirective(d) = &e.attributes[i] {
                    return Some((&d.name, d.start, d.end));
                }
                i += 1;
            }
            None
        },
        _ => None,
    }
}

/// The message for mixed event handler syntaxes, for the directive `on:name`.
pub open spec fn mixed_syntax_message(name: Seq<char>) -> Seq<char> {
    "Mixing old (on:"@ + name + ") and new syntaxes for event handling is not allowed. Use only the on"@ + name
        + " syntax"@
}

/// In runes mode, when some element uses `onname` attributes, the error for
/// the first `on:` directive of an element.
pub open spec fn spec_detect_mixed_event_handler_syntax(root: &Root, runes_mode: bool) -> Option<ErrorView> {
    if runes_mode && search_from(
        &root.fragment,
        0,
        crate::walk::lift_find(|e: Entry| spec_modern_event(e)),
    ) is Some {
        match search_from(&root.fragment, 0, crate::walk::lift_find(|e: Entry| spec_legacy_event(e))) {
            Some((name, s, e)) => Some(
                ("mixed_event_handler_syntaxes"@, mixed_syntax_message(name@), s as int, e as int),
            ),
            None => None,
        }
    } else {
        None
    }
}

/// In runes mode, when some element uses `onname` attributes, the error for
/// the first `on:` directive of an element.
pub fn detect_mixed_event_handler_syntax(root: &Root, runes_mode: bool) -> (r: Option<CompileError>)
    ensures
        !runes_mode ==> r is None,
        r matches Some(e) ==> e.code == "mixed_event_handler_syntaxes",
        option_error_view(r) == spec_detect_mixed_event_handler_syntax(root, runes_mode),
{
    if !runes_mode {
        return None;
    }
    if root.fragment.find_map_as(modern_event_in_entry, Ghost(|e: Entry| spec_modern_event(e))).is_none() {
        return None;
    }
    match root.fragment.find_map_as(legacy_event_in_entry, Ghost(|e: Entry| spec_legacy_event(e))) {
        Some((name, s, e)) => {
            let mut m = message3("Mixing old (on:", name.as_slice(), ") and new syntaxes for event handling is not allowed. Use only the on");
            crate::text::push_chars(&mut m, name.as_slice());
            crate::text::push_str(&mut m, " syntax");
            Some(compile_error_custom("mixed_event_handler_syntaxes", m, s, e))
        },
        None => None,
    }
}

/// The name a component attribute passes as a prop, if any.
pub open spec fn spec_prop_name(attribute: &Attribute) -> Option<&Vec<char>> {
    match attribute {
        Attribute::Attribute(a) => Some(&a.name),
        Attribute::BindDirective(a) | Attribute::ClassDirective(a) | Attribute::LetDirective(a)
        | Attribute::OnDirective(a) | Attribute::AnimateDirective(a) | Attribute::UseDirective(a) => Some(&a.name),
        Attribute::StyleDirective(a) => Some(&a.name),
        Attribute::TransitionDirective(a) => Some(&a.name),
        Attribute::SpreadAttribute(_) | Attribute::AttachTag(_) => None,
    }
}

/// The name a component attribute passes as a prop, if any.
fn component_prop_attribute_name(attribute: &Attribute) -> (r: Option<&Vec<char>>)
    ensures
        r == spec_prop_name(attribute),
{
    match attribute {
        Attribute::Attribute(a) => Some(&a.name),
        Attribute::BindDirective(a) | Attribute::ClassDirective(a) | Attribute::LetDirective(a)
        | Attribute::OnDirective(a) | Attribute::AnimateDirective(a) | Attribute::UseDirective(a) => Some(&a.name),
        Attribute::StyleDirective(a) => Some(&a.name),
        Attribute::TransitionDirective(a) => Some(&a.name),
        Attribute::SpreadAttribute(_) | Attribute::AttachTag(_) => None,
    }
}

/// What the shadowing search does at an entry: components are skipped, and
/// a snippet named like one of `names` is found.
pub open spec fn spec_shadowing_visit<'a>(entry: Entry<'a>, names: Set<Seq<char>>) -> Search<(&'a Vec<char>, usize, usize)> {
    match entry {
        Entry::Node(n) => match n {
            Node::Component(_) => Search::Skip,
            Node::SnippetBlock(block) => if spec_type_is(block.expression.0, "Identifier"@) && (spec_field(
                block.expression.0,
                "name"@,
            ) matches Some(EstreeValue::String(name)) && names.contains(name@)) {
                match spec_field(block.expression.0, "name"@) {
                    Some(EstreeValue::String(name)) => Search::Found((&name, block.start, block.end)),
                    _ => Search::Continue,
                }
            } else {
                Search::Continue
            },
            _ => Search::Continue,
        },
        _ => Search::Continue,
    }
}

fn shadowing_visit<'a>(entry: Entry<'a>, names: &Vec<Vec<char>>) -> (r: Search<(&'a Vec<char>, usize, usize)>)
    ensures
        r == spec_shadowing_visit(entry, names_set(names@)),
{
    match entry {
        Entry::Node(Node::Component(_)) => Search::Skip,
        Entry::Node(Node::SnippetBlock(block)) => match identifier_name(&block.expression.0) {
            Some(name) => if contains_name(names, name.as_slice()) {
                Search::Found((name, block.start, block.end))
            } else {
                Search::Continue
            },
            None => Search::Continue,
        },
        _ => Search::Continue,
    }
}

/// The first snippet, outside nested components, named like one of `names`.
fn find_shadowing_snippet<'a>(fragment: &'a Fragment, names: &Vec<Vec<char>>) -> (r: Option<(&'a Vec<char>, usize, usize)>)
    ensures
        r == search_from(fragment, 0, |e: Entry<'a>| spec_shadowing_visit(e, names_set(names@))),
{
    let visit = |entry: Entry<'a>| -> (r: Search<(&'a Vec<char>, usize, usize)>)
        ensures
            r == spec_shadowing_visit(entry, names_set(names@)),
        { shadowing_visit(entry, names) };
    fragment.search_as(visit, Ghost(|e: Entry<'a>| spec_shadowing_visit(e, names_set(names@))))
}

/// Whether an attribute passes the prop `n`.
pub open spec fn passes_prop(a: Attribute, n: Seq<char>) -> bool {
    spec_prop_name(&a) matches Some(x) && x@ == n
}

/// The names a component passes as props.
pub open spec fn prop_names(attrs: Seq<Attribute>) -> Set<Seq<char>> {
    Set::new(|n: Seq<char>| exists|k: int| 0 <= k < attrs.len() && #[trigger] passes_prop(attrs[k], n))
}

/// The shadowing error among the top-level nodes `nodes[i..]`: the first
/// component with props inside which, outside nested components, a snippet
/// is named like one of them.
pub open spec fn shadowing_from(nodes: Seq<Node>, i: int) -> Option<ErrorView>
    decreases nodes.len() - i,
{
    if 0 <= i < nodes.len() {
        match nodes[i] {
            Node::Component(c) => if !prop_names(c.attributes@).is_empty() {
                match search_from(&c.fragment, 0, |e: Entry| spec_shadowing_visit(e, prop_names(c.attributes@))) {
                    Some((name, s, e)) => Some(
                        (
                            "snippet_shadowing_prop"@,
                            "This snippet is shadowing the prop `"@ + name@ + "` with the same name"@,
                            s as int,
                            e as int,
                        ),
                    ),
                    None => shadowing_from(nodes, i + 1),
                }
            } else {
                shadowing_from(nodes, i + 1)
            },
            _ => shadowing_from(nodes, i + 1),
        }
    } else {
        None
    }
}

/// The error for a snippet, inside a top-level component but not inside a
/// nested one, named like a prop the component is given.
pub fn detect_snippet_shadowing_prop(root: &Root) -> (r: Option<CompileError>)
    ensures
        r matches Some(e) ==> e.code == "snippet_shadowing_prop",
        option_error_view(r) == shadowing_from(root.fragment.nodes@, 0),
{
    let mut i: usize = 0;
    while i < root.fragment.nodes.len()
        invariant
            i <= root.fragment.nodes@.len(),
            shadowing_from(root.fragment.nodes@, 0) == shadowing_from(root.fragment.nodes@, i as int),
        decreases root.fragment.nodes.len() - i,
    {
        if let Node::Component(component) = &root.fragment.nodes[i] {
            let mut names: Vec<Vec<char>> = Vec::new();
            let mut k: usize = 0;
            while k < component.attributes.len()
                invariant
                    k <= component.attributes@.len(),
                    names_set(names@) == Set::new(
                        |n: Seq<char>|
                            exists|j: int| 0 <= j < k && #[trigger] passes_prop(component.attributes@[j], n),
                    ),
                decreases component.attributes.len() - k,
            {
                let ghost before = names@;
                if let Some(n) = component_prop_attribute_name(&component.attributes[k]) {
                    push_unique(&mut names, n.as_slice());
                }
                proof {
                    let kk = k as int;
                    let attrs = component.attributes@;
                    assert forall|n: Seq<char>|
                        names_set(names@).contains(n) <==> (exists|j: int|
                            0 <= j < kk + 1 && #[trigger] passes_prop(attrs[j], n)) by {
                        assert(names_set(before).contains(n) <==> (exists|j: int|
                            0 <= j < kk && #[trigger] passes_prop(attrs[j], n)));
                        if exists|j: int| 0 <= j < kk + 1 && #[trigger] passes_prop(attrs[j], n) {
                            let j = choose|j: int| 0 <= j < kk + 1 && #[trigger] passes_prop(attrs[j], n);
                            if j < kk {
                                assert(names_set(before).contains(n));
                            }
                        }
                        if names_set(names@).contains(n) && !names_set(before).contains(n) {
                            assert(passes_prop(attrs[kk], n));
                        }
                    }
                    assert(names_set(names@) =~= Set::new(
                        |n: Seq<char>|
                            exists|j: int| 0 <= j < k + 1 && #[trigger] passes_prop(component.attributes@[j], n),
                    ));
                }
                k += 1;
            }
            proof {
                assert(names_set(names@) =~= prop_names(component.attributes@));
                if names@.len() > 0 {
                    assert(names_set(names@).contains(names@[0]@));
                } else {
                    assert(names_set(names@) =~= Set::empty());
                }
            }
            if names.len() > 0 {
                if let Some((name, s, e)) = find_shadowing_snippet(&component.fragment, &names) {
                    return Some(
                        compile_error_custom(
                            "snippet_shadowing_prop",
                            message3("This snippet is shadowing the prop `", name.as_slice(), "` with the same name"),
                            s,
                            e,
                        ),
                    );
                }
            }
        }
        i += 1;
    }
    None
}

/// The name of the member a member expression reads: `bind` in `f.bind`.
pub open spec fn spec_member_property(node: EstreeNode) -> Option<Seq<char>> {
    if spec_type_is(node, "MemberExpression"@) {
        match spec_field(node, RawField::Property.spec_key()@) {
            Some(EstreeValue::Object(p)) => crate::consts::spec_str_field(p, RawField::Name.spec_key()@),
            _ => None,
        }
    } else {
        None
    }
}

/// The index of the first spread argument among `args[i..]`.
pub open spec fn spread_from(args: Seq<EstreeValue>, i: int) -> Option<int>
    decreases args.len() - i,
{
    if 0 <= i < args.len() {
        if args[i] matches EstreeValue::Object(a) && spec_type_is(a, "SpreadElement"@) {
            Some(i)
        } else {
            spread_from(args, i + 1)
        }
    } else {
        None
    }
}

/// The call of a `{@render}` tag: its expression, or what an optional chain wraps.
pub open spec fn spec_render_call(raw: EstreeNode) -> EstreeNode {
    if spec_type_is(raw, "ChainExpression"@) {
        match spec_field(raw, RawField::Expression.spec_key()@) {
            Some(EstreeValue::Object(inner)) => inner,
            _ => raw,
        }
    } else {
        raw
    }
}

/// The error of a `{@render}` tag: an expression that is not a call, over
/// the expression's range; else its first spread argument; else a call of
/// `apply`, `bind` or `call`, over the tag.
pub open spec fn spec_render_tag_error(tag: RenderTag) -> Option<ErrorView> {
    let raw = tag.expression.0;
    let call = spec_render_call(raw);
    if !spec_type_is(call, "CallExpression"@) {
        let (s, e) = match spec_estree_span(raw) {
            Some(x) => x,
            None => match spec_estree_span(call) {
                Some(x) => x,
                None => (tag.start as int, tag.end as int),
            },
        };
        Some(kind_error_view(CompilerDiagnosticKind::RenderTagInvalidExpression, s, e))
    } else {
        let spread = match spec_field(call, RawField::Arguments.spec_key()@) {
            Some(EstreeValue::Array(args)) => match spread_from(args@, 0) {
                Some(k) => Some(
                    match spec_estree_span(args@[k]->Object_0) {
                        Some(x) => Some(x),
                        None => spec_estree_span(call),
                    },
                ),
                None => None,
            },
            _ => None,
        };
        match spread {
            Some(span) => match span {
                Some((s, e)) => Some(kind_error_view(CompilerDiagnosticKind::RenderTagInvalidSpreadArgument, s, e)),
                None => None,
            },
            None => match spec_field(call, RawField::Callee.spec_key()@) {
                Some(EstreeValue::Object(callee)) => match spec_member_property(callee) {
                    Some(p) => if p == "apply"@ || p == "bind"@ || p == "call"@ {
                        Some(
                            kind_error_view(
                                CompilerDiagnosticKind::RenderTagInvalidCallExpression,
                                tag.start as int,
                                tag.end as int,
                            ),
                        )
                    } else {
                        None
                    },
                    None => None,
                },
                _ => None,
            },
        }
    }
}

/// The name of the member a member expression reads: `bind` in `f.bind`.
fn member_property_name(node: &EstreeNode) -> (r: Option<&Vec<char>>)
    ensures
        match r {
            Some(n) => spec_member_property(*node) == Some(n@),
            None => spec_member_property(*node) is None,
        },
{
    if !type_is(node, "MemberExpression") {
        return None;
    }
    match field_object(node, RawField::Property) {
        Some(p) => field_str(p, RawField::Name),
        None => None,
    }
}

/// The error of a `{@render}` tag: its expression must be a call (or an
/// optional call), without spread arguments, and not of `apply`, `bind` or `call`.
#[verifier::loop_isolation(false)]
pub fn validate_render_tag(tag: &RenderTag) -> (r: Option<CompileError>)
    ensures
        option_error_view(r) == spec_render_tag_error(*tag),
{
    let raw = &tag.expression.0;
    let call = if type_is(raw, "ChainExpression") {
        match field_object(raw, RawField::Expression) {
            Some(inner) => inner,
            None => raw,
        }
    } else {
        raw
    };
    if !type_is(call, "CallExpression") {
        let (s, e) = match node_span(raw) {
            Some(span) => span,
            None => match node_span(call) {
                Some(span) => span,
                None => (tag.start, tag.end),
            },
        };
        return Some(compile_error_with_range(CompilerDiagnosticKind::RenderTagInvalidExpression, s, e));
    }
    if let Some(arguments) = field_array(call, RawField::Arguments) {
        let mut i: usize = 0;
        while i < arguments.len()
            invariant
                i <= arguments@.len(),
                spread_from(arguments@, 0) == spread_from(arguments@, i as int),
            decreases arguments.len() - i,
        {
            if let EstreeValue::Object(argument) = &arguments[i] {
                if type_is(argument, "SpreadElement") {
                    let span = match node_span(argument) {
                        Some(s) => Some(s),
                        None => node_span(call),
                    };
                    return match span {
                        Some((s, e)) => Some(compile_error_with_range(CompilerDiagnosticKind::RenderTagInvalidSpreadArgument, s, e)),
                        None => None,
                    };
                }
            }
            i += 1;
        }
    }
    let callee = match field_object(call, RawField::Callee) {
        Some(c) => c,
        None => return None,
    };
    match member_property_name(callee) {
        Some(p) => {
            if text_is(p.as_slice(), "apply") || text_is(p.as_slice(), "bind") || text_is(p.as_slice(), "call") {
                Some(compile_error_with_range(CompilerDiagnosticKind::RenderTagInvalidCallExpression, tag.start, tag.end))
            } else {
                None
            }
        },
        None => None,
    }
}

/// The render tag of an entry, where the entry is one whose check fails.
pub open spec fn spec_invalid_render_tag<'a>(entry: Entry<'a>) -> Option<&'a RenderTag> {
    match entry {
        Entry::Node(Node::RenderTag(tag)) => if spec_render_tag_error(*tag) is Some {
            Some(tag)
        } else {
            None
        },
        _ => None,
    }
}

/// The render tag of an entry whose check fails.
fn invalid_render_tag<'a>(entry: Entry<'a>) -> (r: Option<&'a RenderTag>)
    ensures
        r == spec_invalid_render_tag(entry),
{
    match entry {
        Entry::Node(Node::RenderTag(tag)) => if validate_render_tag(tag).is_some() {
            Some(tag)
        } else {
            None
        },
        _ => None,
    }
}

/// The error of the first invalid `{@render}` tag, in document order.
pub open spec fn spec_detect_render_tag_errors(root: &Root) -> Option<ErrorView> {
    match crate::walk::search_from(
        &root.fragment,
        0,
        crate::walk::lift_find(|e: Entry| spec_invalid_render_tag(e)),
    ) {
        Some(tag) => spec_render_tag_error(*tag),
        None => None,
    }
}

/// The error of the first invalid `{@render}` tag, in document order.
pub fn detect_render_tag_errors(root: &Root) -> (r: Option<CompileError>)
    ensures
        option_error_view(r) == spec_detect_render_tag_errors(root),
{
    match root.fragment.find_map_as(invalid_render_tag, Ghost(|e: Entry| spec_invalid_render_tag(e))) {
        Some(tag) => validate_render_tag(tag),
        None => None,
    }
}

/// The error for a second top-level `<style>`.
pub open spec fn spec_detect_multiple_top_level_styles(root: &Root) -> Option<ErrorView> {
    if root.styles@.len() >= 2 {
        Some(kind_error_view(CompilerDiagnosticKind::StyleDuplicate, root.styles@[1].start as int, root.styles@[1].start as int))
    } else {
        None
    }
}

/// The error for a second top-level `<style>`.
pub fn detect_multiple_top_level_styles(root: &Root) -> (r: Option<CompileError>)
    ensures
        option_error_view(r) == spec_detect_multiple_top_level_styles(root),
{
    if root.styles.len() < 2 {
        return None;
    }
    let start = root.styles[1].start;
    Some(compile_error_with_range(CompilerDiagnosticKind::StyleDuplicate, start, start))
}

} // verus!
