//! The structure checks of a template: elements that the browser's HTML
//! repair would move (an `<a>` in an `<a>`, a block element in a `<p>`, a
//! `<form>` in a `<form>`, a `<dt>` in a `<dd>`, what a `<tbody>` holds and
//! where it stands), blocks and `{@html}` inside a `<textarea>`, void
//! elements with content, `<svelte:element>` without a tag, spread
//! attributes on `<svelte:window>` and `<svelte:document>`, and event
//! attributes and modifiers.
use vstd::prelude::*;

use crate::ast::{
    spec_node_span, Alternate, Attribute, AttributeValueList, Fragment, Node, RegularElement, SvelteElement,
};
use crate::diagnostics::{
    compile_error_custom, compile_error_with_range, error_view, first_error, option_error_view, CompileError,
    CompilerDiagnosticKind, ErrorView,
};
use crate::estree::{identifier_name, spec_field, spec_type_is, type_is, EstreeNode, EstreeValue};
use crate::names::{custom_element_name, is_custom_element_name};
use crate::parse::{is_void_element_name, spec_void_element_name};
use crate::template::{first_non_whitespace_fragment_range, is_blank, message3, spec_blank, spec_has_content};
use crate::text::{chars_of, push_chars, push_str, spec_at, starts_with, text_is};

verus! {

/// The elements around a node that decide where other elements may stand.
#[derive(Debug, Clone, Copy, PartialEq, Eq, Structural)]
pub struct StructureAncestors {
    /// Inside an `<a>`.
    pub anchor: bool,
    /// Inside a `<p>`.
    pub paragraph: bool,
    /// Inside a `<textarea>`.
    pub textarea: bool,
    /// Inside a `<form>`, with no block in between.
    pub form: bool,
    /// Inside a `<dd>` that no `<dl>` or custom element closes.
    pub dd: bool,
}

/// The ancestors at the top of a template: none.
pub open spec fn no_ancestors() -> StructureAncestors {
    StructureAncestors { anchor: false, paragraph: false, textarea: false, form: false, dd: false }
}

/// The ancestors inside a block: a `<form>` outside the block no longer counts.
pub open spec fn inside_block(a: StructureAncestors) -> StructureAncestors {
    StructureAncestors { anchor: a.anchor, paragraph: a.paragraph, textarea: a.textarea, form: false, dd: a.dd }
}

/// The ancestors of the children of an element named `name`.
pub open spec fn ancestors_below(a: StructureAncestors, name: Seq<char>) -> StructureAncestors {
    StructureAncestors {
        anchor: a.anchor || name == "a"@,
        paragraph: a.paragraph || name == "p"@,
        textarea: a.textarea || name == "textarea"@,
        form: a.form || name == "form"@,
        dd: if name == "dl"@ || custom_element_name(name) {
            false
        } else if name == "dd"@ {
            true
        } else {
            a.dd
        },
    }
}

/// The elements that cannot stand inside a `<p>`.
pub open spec fn spec_paragraph_forbidden(name: Seq<char>) -> bool {
    name == "address"@ || name == "article"@ || name == "aside"@ || name == "blockquote"@ || name == "div"@
        || name == "dl"@ || name == "fieldset"@ || name == "footer"@ || name == "form"@ || name == "h1"@
        || name == "h2"@ || name == "h3"@ || name == "h4"@ || name == "h5"@ || name == "h6"@ || name
        == "header"@ || name == "hgroup"@ || name == "hr"@ || name == "main"@ || name == "nav"@ || name
        == "ol"@ || name == "p"@ || name == "pre"@ || name == "section"@ || name == "table"@ || name == "ul"@
}

/// The elements that a `<tbody>` may hold.
pub open spec fn spec_tbody_child(name: Seq<char>) -> bool {
    name == "tr"@ || name == "style"@ || name == "script"@ || name == "template"@
}

/// What an element placed where the browser would move it is reported with.
pub open spec fn placement_message(child: Seq<char>, ancestor: Seq<char>) -> Seq<char> {
    "`<"@ + child + ">` cannot be a descendant of `<"@ + ancestor
        + ">`. The browser will 'repair' the HTML (by moving, removing, or inserting elements) which breaks Svelte's assumptions about the structure of your components."@
}

/// What a `<tbody>` outside a `<table>` is reported with.
pub open spec fn tbody_parent_message(parent: Seq<char>) -> Seq<char> {
    "`<tbody>` must be the child of a `<table>`, not a `<"@ + parent
        + ">`. The browser will 'repair' the HTML (by moving, removing, or inserting elements) which breaks Svelte's assumptions about the structure of your components."@
}

/// What a child that a `<tbody>` may not hold is reported with.
pub open spec fn tbody_child_message(child: Seq<char>) -> Seq<char> {
    "`<"@ + child
        + ">` cannot be a child of `<tbody>`. `<tbody>` only allows these children: `<tr>`, `<style>`, `<script>`, `<template>`. The browser will 'repair' the HTML (by moving, removing, or inserting elements) which breaks Svelte's assumptions about the structure of your components."@
}

/// What a block inside a `<textarea>` is reported with.
pub open spec fn textarea_block_message(kind: Seq<char>) -> Seq<char> {
    "{#"@ + kind + " ...} block cannot be inside <textarea>"@
}

/// The error for an element that the browser would move out of an ancestor.
pub open spec fn placement_error_view(child: Seq<char>, ancestor: Seq<char>, start: int, end: int) -> ErrorView {
    ("node_invalid_placement"@, placement_message(child, ancestor), start, end)
}

/// The error for a child of a `<tbody>` that it may not hold.
pub open spec fn tbody_child_error(child: Seq<char>, start: int, end: int) -> ErrorView {
    ("node_invalid_placement"@, tbody_child_message(child), start, end)
}

/// The error for a block inside a `<textarea>`.
pub open spec fn textarea_block_error(kind: Seq<char>, start: int) -> ErrorView {
    ("block_invalid_placement"@, textarea_block_message(kind), start, start)
}

/// The error for an element that the browser would move, if `e` is one:
/// placed where its ancestors, or its direct parent `parent` (a custom
/// element when `parent_custom` holds), do not allow it.
pub open spec fn element_placement_error(
    e: RegularElement,
    a: StructureAncestors,
    parent: Option<Seq<char>>,
    parent_custom: bool,
) -> Option<ErrorView> {
    let name = e.name@;
    if a.anchor && name == "a"@ {
        Some(placement_error_view("a"@, "a"@, e.start as int, e.end as int))
    } else if a.paragraph && spec_paragraph_forbidden(name) {
        Some(placement_error_view(name, "p"@, e.start as int, e.end as int))
    } else if a.form && name == "form"@ {
        Some(placement_error_view("form"@, "form"@, e.start as int, e.end as int))
    } else if a.dd && name == "dt"@ {
        Some(placement_error_view("dt"@, "dd"@, e.start as int, e.end as int))
    } else if parent == Some("tbody"@) && !custom_element_name(name) && !spec_tbody_child(name) {
        Some(tbody_child_error(name, e.start as int, e.end as int))
    } else if parent is Some && name == "tbody"@ && !parent_custom && parent != Some("table"@) {
        Some(("node_invalid_placement"@, tbody_parent_message(parent.unwrap()), e.start as int, e.end as int))
    } else {
        None
    }
}

/// Whether a node is the expression `this`.
pub open spec fn spec_is_this_expression(node: EstreeNode) -> bool {
    spec_type_is(node, "ThisExpression"@)
}

/// The name of an `Identifier` node, if `node` is one.
pub open spec fn spec_identifier_name(node: EstreeNode) -> Option<Seq<char>> {
    if spec_type_is(node, "Identifier"@) {
        match spec_field(node, "name"@) {
            Some(EstreeValue::String(s)) => Some(s@),
            _ => None,
        }
    } else {
        None
    }
}

/// The error for `this` written where a name stands.
pub open spec fn reserved_this_error(at: int) -> ErrorView {
    ("unexpected_reserved_word"@, "'this' is a reserved word in JavaScript and cannot be used here"@, at, at)
}

/// The error for a `<svelte:element>` with no tag to render.
pub open spec fn missing_this_error(start: int, end: int) -> ErrorView {
    ("svelte_element_missing_this"@, "`<svelte:element>` must have a 'this' attribute with a value"@, start, end)
}

/// The first problem with the `this` attribute among `attrs[i..]` of an
/// element written as `<svelte:element>` and read as a plain element that
/// starts at `start`; `seen` tells whether an earlier attribute was `this`.
pub open spec fn svelte_element_attributes_error(attrs: Seq<Attribute>, i: int, seen: bool, start: int) -> Option<
    ErrorView,
>
    decreases attrs.len() - i,
{
    if i < 0 || i >= attrs.len() {
        if seen {
            None
        } else {
            Some(missing_this_error(start, start))
        }
    } else {
        match attrs[i] {
            Attribute::Attribute(a) => {
                if a.name@.len() == 0 && (a.value matches AttributeValueList::ExpressionTag(tag)
                    && spec_is_this_expression(tag.expression.0)) {
                    Some(reserved_this_error(a.name_loc.start.character as int))
                } else if a.name@ != "this"@ {
                    svelte_element_attributes_error(attrs, i + 1, seen, start)
                } else if a.value == AttributeValueList::Boolean(true) {
                    Some(missing_this_error(a.name_loc.start.character as int, a.name_loc.end.character as int))
                } else if a.value matches AttributeValueList::ExpressionTag(tag) && spec_identifier_name(
                    tag.expression.0,
                ) == Some("this"@) {
                    Some(reserved_this_error(a.name_loc.start.character as int))
                } else {
                    svelte_element_attributes_error(attrs, i + 1, true, start)
                }
            },
            _ => svelte_element_attributes_error(attrs, i + 1, seen, start),
        }
    }
}

/// The error for the first spread attribute among `attrs[i..]` of a
/// `<svelte:window>` or `<svelte:document>` named `name`.
pub open spec fn meta_spread_error(name: Seq<char>, attrs: Seq<Attribute>, i: int) -> Option<ErrorView>
    decreases attrs.len() - i,
{
    if i < 0 || i >= attrs.len() {
        None
    } else {
        match attrs[i] {
            Attribute::SpreadAttribute(s) => Some(
                (
                    "illegal_element_attribute"@,
                    "`<"@ + name + ">` does not support non-event attributes or spread attributes"@,
                    s.start as int,
                    s.end as int,
                ),
            ),
            _ => meta_spread_error(name, attrs, i + 1),
        }
    }
}

/// The event modifiers that take no part in a combination rule.
pub open spec fn spec_plain_event_modifier(m: Seq<char>) -> bool {
    m == "stopPropagation"@ || m == "stopImmediatePropagation"@ || m == "capture"@ || m == "once"@ || m
        == "self"@ || m == "trusted"@
}

/// The first problem with the modifiers `mods[i..]` of an `on:` directive at
/// `start..end`, given which of `passive`, `nonpassive` and `preventDefault`
/// came before: a modifier that is not known, then a combination that
/// cannot hold.
pub open spec fn event_modifier_error(
    mods: Seq<Vec<char>>,
    i: int,
    passive: bool,
    nonpassive: bool,
    prevent: bool,
    start: int,
    end: int,
) -> Option<ErrorView>
    decreases mods.len() - i,
{
    if i < 0 || i >= mods.len() {
        if passive && nonpassive {
            Some(
                (
                    "event_handler_invalid_modifier_combination"@,
                    "The 'passive' and 'nonpassive' modifiers cannot be used together"@,
                    start,
                    end,
                ),
            )
        } else if passive && prevent {
            Some(
                (
                    "event_handler_invalid_modifier_combination"@,
                    "The 'passive' and 'preventDefault' modifiers cannot be used together"@,
                    start,
                    end,
                ),
            )
        } else {
            None
        }
    } else {
        let m = mods[i]@;
        if m == "preventDefault"@ {
            event_modifier_error(mods, i + 1, passive, nonpassive, true, start, end)
        } else if spec_plain_event_modifier(m) {
            event_modifier_error(mods, i + 1, passive, nonpassive, prevent, start, end)
        } else if m == "passive"@ {
            event_modifier_error(mods, i + 1, true, nonpassive, prevent, start, end)
        } else if m == "nonpassive"@ {
            event_modifier_error(mods, i + 1, passive, true, prevent, start, end)
        } else {
            Some(
                (
                    "event_handler_invalid_modifier"@,
                    "Valid event modifiers are preventDefault, stopPropagation, stopImmediatePropagation, capture, once, passive, nonpassive, self or trusted"@,
                    start,
                    end,
                ),
            )
        }
    }
}

/// The first problem among `attrs[i..]` of an element named `name`: an
/// `onname` attribute whose value is not one expression (outside `svelte:`
/// elements), or an `on:` directive with bad modifiers.
pub open spec fn event_attribute_error(name: Seq<char>, attrs: Seq<Attribute>, i: int) -> Option<ErrorView>
    decreases attrs.len() - i,
{
    if i < 0 || i >= attrs.len() {
        None
    } else {
        match attrs[i] {
            Attribute::Attribute(a) => {
                if !spec_at(name, 0, "svelte:"@) && a.name@.len() > 2 && spec_at(a.name@, 0, "on"@)
                    && !(a.value is ExpressionTag) {
                    Some(
                        (
                            "attribute_invalid_event_handler"@,
                            "Event attribute must be a JavaScript expression, not a string"@,
                            a.start as int,
                            a.end as int,
                        ),
                    )
                } else {
                    event_attribute_error(name, attrs, i + 1)
                }
            },
            Attribute::OnDirective(d) => first_error(
                event_modifier_error(d.modifiers@, 0, false, false, false, d.start as int, d.end as int),
                event_attribute_error(name, attrs, i + 1),
            ),
            _ => event_attribute_error(name, attrs, i + 1),
        }
    }
}

/// The error for a void element with a closing tag or content, if `e` is one.
pub open spec fn void_content_error(e: RegularElement) -> Option<ErrorView> {
    if spec_void_element_name(e.name@) && (e.has_end_tag || spec_has_content(e.fragment.nodes@)) {
        let start = if e.fragment.nodes@.len() > 0 {
            spec_node_span(&e.fragment.nodes@[0]).0 as int
        } else if e.end > 0 {
            e.end - 1
        } else {
            0
        };
        Some(
            (
                CompilerDiagnosticKind::VoidElementInvalidContent.spec_code()@,
                CompilerDiagnosticKind::VoidElementInvalidContent.spec_message()@,
                start,
                start,
            ),
        )
    } else {
        None
    }
}

/// The first problem with an element itself, apart from where it stands.
pub open spec fn element_content_error(e: RegularElement) -> Option<ErrorView> {
    let name = e.name@;
    first_error(
        void_content_error(e),
        first_error(
            if name == "svelte:element"@ {
                svelte_element_attributes_error(e.attributes@, 0, false, e.start as int)
            } else {
                None
            },
            first_error(
                if name == "svelte:window"@ || name == "svelte:document"@ {
                    meta_spread_error(name, e.attributes@, 0)
                } else {
                    None
                },
                event_attribute_error(name, e.attributes@, 0),
            ),
        ),
    )
}

/// The first problem among `attrs[i..]` of a `<svelte:element>`: an empty
/// attribute name holding `this`, or a `this` attribute with no value.
pub open spec fn svelte_element_this_attribute_error(attrs: Seq<Attribute>, i: int) -> Option<ErrorView>
    decreases attrs.len() - i,
{
    if i < 0 || i >= attrs.len() {
        None
    } else {
        match attrs[i] {
            Attribute::Attribute(a) => {
                if a.name@.len() == 0 && (a.value matches AttributeValueList::ExpressionTag(tag)
                    && spec_is_this_expression(tag.expression.0)) {
                    Some(reserved_this_error(a.name_loc.start.character as int))
                } else if a.name@ == "this"@ && a.value == AttributeValueList::Boolean(true) {
                    Some(missing_this_error(a.name_loc.start.character as int, a.name_loc.end.character as int))
                } else {
                    svelte_element_this_attribute_error(attrs, i + 1)
                }
            },
            _ => svelte_element_this_attribute_error(attrs, i + 1),
        }
    }
}

/// Whether some attribute of `attrs` is named `this`.
pub open spec fn has_this_attribute(attrs: Seq<Attribute>) -> bool {
    exists|k: int| 0 <= k < attrs.len() && (#[trigger] attrs[k] matches Attribute::Attribute(a) && a.name@ == "this"@)
}

/// The first problem with what a `<svelte:element>` renders: its attributes,
/// then its tag expression, which must not be `this` and must be there.
pub open spec fn svelte_element_error(el: SvelteElement) -> Option<ErrorView> {
    first_error(
        svelte_element_this_attribute_error(el.attributes@, 0),
        match el.expression {
            Some(x) => if spec_identifier_name(x.0) == Some("this"@) {
                Some(reserved_this_error(el.start as int))
            } else {
                None
            },
            None => if has_this_attribute(el.attributes@) {
                None
            } else {
                Some(missing_this_error(el.start as int, el.start as int))
            },
        },
    )
}

/// The view of an optional name.
pub open spec fn optional_name(parent: Option<&Vec<char>>) -> Option<Seq<char>> {
    match parent {
        Some(p) => Some(p@),
        None => None,
    }
}

/// Once inside a `<textarea>`, always inside it: neither an element nor a
/// block below it clears that.
pub proof fn lemma_textarea_stays(a: StructureAncestors, name: Seq<char>)
    requires
        a.textarea,
    ensures
        ancestors_below(a, name).textarea,
        inside_block(a).textarea,
{
}

/// Inside a `<textarea>`, at any depth, an `{#if}`, `{#each}`, `{#await}`
/// or `{#snippet}` block is reported at its start, before anything inside it.
pub proof fn lemma_block_inside_textarea(node: Node, a: StructureAncestors, parent: Option<Seq<char>>, parent_custom: bool)
    requires
        a.textarea,
    ensures
        node matches Node::IfBlock(b) ==> structure_error_at(node, a, parent, parent_custom) == Some(
            textarea_block_error("if"@, b.start as int),
        ),
        node matches Node::EachBlock(b) ==> structure_error_at(node, a, parent, parent_custom) == Some(
            textarea_block_error("each"@, b.start as int),
        ),
        node matches Node::AwaitBlock(b) ==> structure_error_at(node, a, parent, parent_custom) == Some(
            textarea_block_error("await"@, b.start as int),
        ),
        node matches Node::SnippetBlock(b) ==> structure_error_at(node, a, parent, parent_custom) == Some(
            textarea_block_error("snippet"@, b.start as int),
        ),
{
}

/// An `<a>`, anywhere inside an `<a>`, is reported as misplaced within an
/// `<a>`; so is a `<form>` inside a `<form>` (with no block between them),
/// unless it also stands inside a `<p>`, which is reported first.
pub proof fn lemma_same_name_nesting(e: RegularElement, a: StructureAncestors, parent: Option<Seq<char>>, parent_custom: bool)
    ensures
        a.anchor && e.name@ == "a"@ ==> element_placement_error(e, a, parent, parent_custom) == Some(
            placement_error_view("a"@, "a"@, e.start as int, e.end as int),
        ),
        !a.paragraph && a.form && e.name@ == "form"@ ==> element_placement_error(e, a, parent, parent_custom) == Some(
            placement_error_view("form"@, "form"@, e.start as int, e.end as int),
        ),
        ancestors_below(ancestors_below(a, "a"@), e.name@).anchor,
{
    reveal_strlit("a");
    reveal_strlit("form");
}

/// A void element with an end tag, or with any child other than blank
/// text, is reported as having content; without them it is not.
pub proof fn lemma_void_content(e: RegularElement)
    ensures
        (spec_void_element_name(e.name@) && (e.has_end_tag || spec_has_content(e.fragment.nodes@))) ==> (void_content_error(
            e,
        ) matches Some(v) && v.0 == "void_element_invalid_content"@),
        !(spec_void_element_name(e.name@) && (e.has_end_tag || spec_has_content(e.fragment.nodes@))) ==> void_content_error(
            e,
        ) is None,
{
}

/// Inside a `<p>`, the elements that close it are exactly `address`,
/// `article`, `aside`, `blockquote`, `div`, `dl`, `fieldset`, `footer`,
/// `form`, `h1`-`h6`, `header`, `hgroup`, `hr`, `main`, `nav`, `ol`, `p`,
/// `pre`, `section`, `table` and `ul`; a `<tbody>` holds only `tr`, `style`,
/// `script` and `template` (custom elements aside).
pub proof fn lemma_paragraph_and_tbody(name: Seq<char>)
    ensures
        spec_paragraph_forbidden(name) <==> (name == "address"@ || name == "article"@ || name == "aside"@ || name
            == "blockquote"@ || name == "div"@ || name == "dl"@ || name == "fieldset"@ || name == "footer"@ || name
            == "form"@ || name == "h1"@ || name == "h2"@ || name == "h3"@ || name == "h4"@ || name == "h5"@ || name
            == "h6"@ || name == "header"@ || name == "hgroup"@ || name == "hr"@ || name == "main"@ || name == "nav"@
            || name == "ol"@ || name == "p"@ || name == "pre"@ || name == "section"@ || name == "table"@ || name
            == "ul"@),
        spec_tbody_child(name) <==> (name == "tr"@ || name == "style"@ || name == "script"@ || name == "template"@),
{
}

/// The first structure error among the nodes `f.nodes[i..]` and their
/// descendants, in document order, for nodes whose ancestors are `a` and
/// whose direct parent element is named `parent` (a custom element when
/// `parent_custom` holds).
pub open spec fn structure_error_from(
    f: Fragment,
    i: int,
    a: StructureAncestors,
    parent: Option<Seq<char>>,
    parent_custom: bool,
) -> Option<ErrorView>
    decreases f, f.nodes@.len() - i,
{
    if 0 <= i < f.nodes@.len() {
        proof {
            assert(decreases_to!(f => f.nodes));
            assert(decreases_to!(f.nodes => f.nodes@));
            assert(decreases_to!(f.nodes@ => f.nodes@[i]));
        }
        first_error(
            structure_error_at(f.nodes@[i], a, parent, parent_custom),
            structure_error_from(f, i + 1, a, parent, parent_custom),
        )
    } else {
        None
    }
}

/// The first structure error of an optional fragment.
pub open spec fn structure_error_in_optional(
    f: Option<Fragment>,
    a: StructureAncestors,
    parent: Option<Seq<char>>,
    parent_custom: bool,
) -> Option<ErrorView>
    decreases f, 1int,
{
    match f {
        Some(fr) => structure_error_from(fr, 0, a, parent, parent_custom),
        None => None,
    }
}

/// The first structure error at a node or among its descendants.
pub open spec fn structure_error_at(
    node: Node,
    a: StructureAncestors,
    parent: Option<Seq<char>>,
    parent_custom: bool,
) -> Option<ErrorView>
    decreases node, 2int,
{
    match node {
        Node::Text(t) => if parent == Some("tbody"@) && !spec_blank(t.data@) {
            Some(tbody_child_error("#text"@, t.start as int, t.end as int))
        } else {
            None
        },
        Node::ExpressionTag(t) => if parent == Some("tbody"@) {
            Some(tbody_child_error("#text"@, t.start as int, t.end as int))
        } else {
            None
        },
        Node::RegularElement(e) => first_error(
            element_placement_error(e, a, parent, parent_custom),
            first_error(
                element_content_error(e),
                structure_error_from(
                    e.fragment,
                    0,
                    ancestors_below(a, e.name@),
                    Some(e.name@),
                    custom_element_name(e.name@),
                ),
            ),
        ),
        Node::Component(e) => structure_error_from(e.fragment, 0, a, parent, parent_custom),
        Node::SlotElement(e) => structure_error_from(e.fragment, 0, a, parent, parent_custom),
        Node::SvelteElement(e) => first_error(
            svelte_element_error(e),
            structure_error_from(e.fragment, 0, a, parent, parent_custom),
        ),
        Node::SvelteWindow(e) => first_error(
            meta_spread_error(e.name@, e.attributes@, 0),
            structure_error_from(e.fragment, 0, a, parent, parent_custom),
        ),
        Node::SvelteDocument(e) => first_error(
            meta_spread_error(e.name@, e.attributes@, 0),
            structure_error_from(e.fragment, 0, a, parent, parent_custom),
        ),
        Node::SvelteHead(e) => structure_error_from(e.fragment, 0, a, parent, parent_custom),
        Node::SvelteBody(e) => structure_error_from(e.fragment, 0, a, parent, parent_custom),
        Node::SvelteComponent(e) => structure_error_from(e.fragment, 0, a, parent, parent_custom),
        Node::SvelteSelf(e) => structure_error_from(e.fragment, 0, a, parent, parent_custom),
        Node::SvelteFragment(e) => structure_error_from(e.fragment, 0, a, parent, parent_custom),
        Node::SvelteBoundary(e) => structure_error_from(e.fragment, 0, a, parent, parent_custom),
        Node::TitleElement(e) => structure_error_from(e.fragment, 0, a, parent, parent_custom),
        Node::IfBlock(b) => if a.textarea {
            Some(textarea_block_error("if"@, b.start as int))
        } else {
            first_error(
                structure_error_from(b.consequent, 0, inside_block(a), parent, parent_custom),
                match b.alternate {
                    Some(alternate) => {
                        proof {
                            assert(decreases_to!(b => b.alternate));
                        }
                        match *alternate {
                            Alternate::Fragment(f) => structure_error_from(f, 0, inside_block(a), parent, parent_custom),
                            Alternate::IfBlock(inner) => structure_error_from(
                                inner.consequent,
                                0,
                                inside_block(a),
                                parent,
                                parent_custom,
                            ),
                        }
                    },
                    None => None,
                },
            )
        },
        Node::EachBlock(b) => if a.textarea {
            Some(textarea_block_error("each"@, b.start as int))
        } else {
            first_error(
                structure_error_from(b.body, 0, inside_block(a), parent, parent_custom),
                structure_error_in_optional(b.fallback, inside_block(a), parent, parent_custom),
            )
        },
        Node::AwaitBlock(b) => if a.textarea {
            Some(textarea_block_error("await"@, b.start as int))
        } else {
            first_error(
                structure_error_in_optional(b.pending, inside_block(a), parent, parent_custom),
                first_error(
                    structure_error_in_optional(b.then_branch, inside_block(a), parent, parent_custom),
                    structure_error_in_optional(b.catch, inside_block(a), parent, parent_custom),
                ),
            )
        },
        Node::SnippetBlock(b) => if a.textarea {
            Some(textarea_block_error("snippet"@, b.start as int))
        } else {
            structure_error_from(b.body, 0, inside_block(a), parent, parent_custom)
        },
        Node::KeyBlock(b) => if a.textarea {
            Some(textarea_block_error("key"@, b.start as int))
        } else {
            structure_error_from(b.fragment, 0, inside_block(a), parent, parent_custom)
        },
        Node::HtmlTag(t) => if a.textarea {
            Some(("tag_invalid_placement"@, "{@html ...} tag cannot be inside <textarea>"@, t.start as int, t.start as int))
        } else {
            None
        },
        _ => None,
    }
}

/// Whether an element named `name` cannot stand inside a `<p>`.
pub fn is_paragraph_forbidden_descendant(name: &[char]) -> (r: bool)
    ensures
        r == spec_paragraph_forbidden(name@),
{
    text_is(name, "address") || text_is(name, "article") || text_is(name, "aside") || text_is(name, "blockquote")
        || text_is(name, "div") || text_is(name, "dl") || text_is(name, "fieldset") || text_is(name, "footer")
        || text_is(name, "form") || text_is(name, "h1") || text_is(name, "h2") || text_is(name, "h3") || text_is(
        name,
        "h4",
    ) || text_is(name, "h5") || text_is(name, "h6") || text_is(name, "header") || text_is(name, "hgroup")
        || text_is(name, "hr") || text_is(name, "main") || text_is(name, "nav") || text_is(name, "ol") || text_is(
        name,
        "p",
    ) || text_is(name, "pre") || text_is(name, "section") || text_is(name, "table") || text_is(name, "ul")
}

/// Whether a `<tbody>` may hold an element named `name`.
fn is_tbody_child(name: &[char]) -> (r: bool)
    ensures
        r == spec_tbody_child(name@),
{
    text_is(name, "tr") || text_is(name, "style") || text_is(name, "script") || text_is(name, "template")
}

/// The error for an element named `child` that the browser would move out of `ancestor`.
fn placement_error(child: &[char], ancestor: &str, start: usize, end: usize) -> (e: CompileError)
    ensures
        error_view(e) == placement_error_view(child@, ancestor@, start as int, end as int),
{
    let mut m = chars_of("`<");
    push_chars(&mut m, child);
    push_str(&mut m, ">` cannot be a descendant of `<");
    push_str(&mut m, ancestor);
    push_str(
        &mut m,
        ">`. The browser will 'repair' the HTML (by moving, removing, or inserting elements) which breaks Svelte's assumptions about the structure of your components.",
    );
    compile_error_custom("node_invalid_placement", m, start, end)
}

/// The error for a child of a `<tbody>` that it may not hold.
fn tbody_child_error_at(child: &[char], start: usize, end: usize) -> (e: CompileError)
    ensures
        error_view(e) == tbody_child_error(child@, start as int, end as int),
{
    let m = message3(
        "`<",
        child,
        ">` cannot be a child of `<tbody>`. `<tbody>` only allows these children: `<tr>`, `<style>`, `<script>`, `<template>`. The browser will 'repair' the HTML (by moving, removing, or inserting elements) which breaks Svelte's assumptions about the structure of your components.",
    );
    compile_error_custom("node_invalid_placement", m, start, end)
}

/// The error for a `<tbody>` whose parent is an element named `parent`.
fn tbody_parent_error_at(parent: &[char], start: usize, end: usize) -> (e: CompileError)
    ensures
        error_view(e) == ("node_invalid_placement"@, tbody_parent_message(parent@), start as int, end as int),
{
    let m = message3(
        "`<tbody>` must be the child of a `<table>`, not a `<",
        parent,
        ">`. The browser will 'repair' the HTML (by moving, removing, or inserting elements) which breaks Svelte's assumptions about the structure of your components.",
    );
    compile_error_custom("node_invalid_placement", m, start, end)
}

/// The error for an element that the browser would move, if `e` is one.
pub fn element_placement_check(
    e: &RegularElement,
    a: StructureAncestors,
    parent: Option<&Vec<char>>,
    parent_custom: bool,
) -> (r: Option<CompileError>)
    ensures
        option_error_view(r) == element_placement_error(*e, a, optional_name(parent), parent_custom),
{
    let name = e.name.as_slice();
    if a.anchor && text_is(name, "a") {
        return Some(placement_error(name, "a", e.start, e.end));
    }
    if a.paragraph && is_paragraph_forbidden_descendant(name) {
        return Some(placement_error(name, "p", e.start, e.end));
    }
    if a.form && text_is(name, "form") {
        return Some(placement_error(name, "form", e.start, e.end));
    }
    if a.dd && text_is(name, "dt") {
        return Some(placement_error(name, "dd", e.start, e.end));
    }
    match parent {
        Some(p) => {
            if text_is(p.as_slice(), "tbody") && !is_custom_element_name(name) && !is_tbody_child(name) {
                return Some(tbody_child_error_at(name, e.start, e.end));
            }
            if text_is(name, "tbody") && !parent_custom && !text_is(p.as_slice(), "table") {
                return Some(tbody_parent_error_at(p.as_slice(), e.start, e.end));
            }
            None
        },
        None => None,
    }
}

/// The error for `this` written where a name stands.
fn reserved_this_at(at: usize) -> (e: CompileError)
    ensures
        error_view(e) == reserved_this_error(at as int),
{
    compile_error_custom(
        "unexpected_reserved_word",
        chars_of("'this' is a reserved word in JavaScript and cannot be used here"),
        at,
        at,
    )
}

/// The error for a `<svelte:element>` with no tag to render.
fn missing_this_at(start: usize, end: usize) -> (e: CompileError)
    ensures
        error_view(e) == missing_this_error(start as int, end as int),
{
    compile_error_custom(
        "svelte_element_missing_this",
        chars_of("`<svelte:element>` must have a 'this' attribute with a value"),
        start,
        end,
    )
}

/// Whether an attribute value is the one expression `this`.
fn value_is_this_expression(value: &AttributeValueList) -> (r: bool)
    ensures
        r == (value matches AttributeValueList::ExpressionTag(tag) && spec_is_this_expression(tag.expression.0)),
{
    match value {
        AttributeValueList::ExpressionTag(tag) => type_is(&tag.expression.0, "ThisExpression"),
        _ => false,
    }
}

/// Whether an attribute value is one identifier named `this`.
fn value_is_this_identifier(value: &AttributeValueList) -> (r: bool)
    ensures
        r == (value matches AttributeValueList::ExpressionTag(tag) && spec_identifier_name(tag.expression.0) == Some(
            "this"@,
        )),
{
    match value {
        AttributeValueList::ExpressionTag(tag) => match identifier_name(&tag.expression.0) {
            Some(n) => text_is(n.as_slice(), "this"),
            None => false,
        },
        _ => false,
    }
}

/// Whether an attribute value is the bare `true` of a valueless attribute.
fn value_is_bare(value: &AttributeValueList) -> (r: bool)
    ensures
        r == (*value == AttributeValueList::Boolean(true)),
{
    match value {
        AttributeValueList::Boolean(b) => *b,
        _ => false,
    }
}

/// The first problem with the `this` attribute of an element written as
/// `<svelte:element>` and read as a plain element starting at `start`.
fn svelte_element_attributes_check(attrs: &Vec<Attribute>, start: usize) -> (r: Option<CompileError>)
    ensures
        option_error_view(r) == svelte_element_attributes_error(attrs@, 0, false, start as int),
{
    let mut seen = false;
    let mut i: usize = 0;
    while i < attrs.len()
        invariant
            i <= attrs@.len(),
            svelte_element_attributes_error(attrs@, 0, false, start as int) == svelte_element_attributes_error(
                attrs@,
                i as int,
                seen,
                start as int,
            ),
        decreases attrs.len() - i,
    {
        if let Attribute::Attribute(a) = &attrs[i] {
            if a.name.len() == 0 && value_is_this_expression(&a.value) {
                return Some(reserved_this_at(a.name_loc.start.character));
            }
            if text_is(a.name.as_slice(), "this") {
                if value_is_bare(&a.value) {
                    return Some(missing_this_at(a.name_loc.start.character, a.name_loc.end.character));
                }
                if value_is_this_identifier(&a.value) {
                    return Some(reserved_this_at(a.name_loc.start.character));
                }
                seen = true;
            }
        }
        i += 1;
    }
    if seen {
        None
    } else {
        Some(missing_this_at(start, start))
    }
}

/// The error for the first spread attribute of a `<svelte:window>` or `<svelte:document>`.
fn meta_spread_check(name: &Vec<char>, attrs: &Vec<Attribute>) -> (r: Option<CompileError>)
    ensures
        option_error_view(r) == meta_spread_error(name@, attrs@, 0),
{
    let mut i: usize = 0;
    while i < attrs.len()
        invariant
            i <= attrs@.len(),
            meta_spread_error(name@, attrs@, 0) == meta_spread_error(name@, attrs@, i as int),
        decreases attrs.len() - i,
    {
        if let Attribute::SpreadAttribute(spread) = &attrs[i] {
            let m = message3("`<", name.as_slice(), ">` does not support non-event attributes or spread attributes");
            return Some(compile_error_custom("illegal_element_attribute", m, spread.start, spread.end));
        }
        i += 1;
    }
    None
}

/// Whether an event modifier takes no part in a combination rule.
fn is_plain_event_modifier(m: &[char]) -> (r: bool)
    ensures
        r == spec_plain_event_modifier(m@),
{
    text_is(m, "stopPropagation") || text_is(m, "stopImmediatePropagation") || text_is(m, "capture")
        || text_is(m, "once") || text_is(m, "self") || text_is(m, "trusted")
}

/// The first problem with the modifiers of an `on:` directive at `start..end`.
fn event_modifier_check(mods: &Vec<Vec<char>>, start: usize, end: usize) -> (r: Option<CompileError>)
    ensures
        option_error_view(r) == event_modifier_error(mods@, 0, false, false, false, start as int, end as int),
{
    let mut passive = false;
    let mut nonpassive = false;
    let mut prevent = false;
    let mut i: usize = 0;
    while i < mods.len()
        invariant
            i <= mods@.len(),
            event_modifier_error(mods@, 0, false, false, false, start as int, end as int) == event_modifier_error(
                mods@,
                i as int,
                passive,
                nonpassive,
                prevent,
                start as int,
                end as int,
            ),
        decreases mods.len() - i,
    {
        let m = mods[i].as_slice();
        if text_is(m, "preventDefault") {
            prevent = true;
        } else if is_plain_event_modifier(m) {
        } else if text_is(m, "passive") {
            passive = true;
        } else if text_is(m, "nonpassive") {
            nonpassive = true;
        } else {
            return Some(
                compile_error_custom(
                    "event_handler_invalid_modifier",
                    chars_of(
                        "Valid event modifiers are preventDefault, stopPropagation, stopImmediatePropagation, capture, once, passive, nonpassive, self or trusted",
                    ),
                    start,
                    end,
                ),
            );
        }
        i += 1;
    }
    if passive && nonpassive {
        return Some(
            compile_error_custom(
                "event_handler_invalid_modifier_combination",
                chars_of("The 'passive' and 'nonpassive' modifiers cannot be used together"),
                start,
                end,
            ),
        );
    }
    if passive && prevent {
        return Some(
            compile_error_custom(
                "event_handler_invalid_modifier_combination",
                chars_of("The 'passive' and 'preventDefault' modifiers cannot be used together"),
                start,
                end,
            ),
        );
    }
    None
}

/// The first problem with the event attributes and `on:` directives of an element named `name`.
pub fn event_attribute_check(name: &Vec<char>, attrs: &Vec<Attribute>) -> (r: Option<CompileError>)
    ensures
        option_error_view(r) == event_attribute_error(name@, attrs@, 0),
{
    let svelte_name = starts_with(name.as_slice(), "svelte:");
    let mut i: usize = 0;
    while i < attrs.len()
        invariant
            i <= attrs@.len(),
            svelte_name == spec_at(name@, 0, "svelte:"@),
            event_attribute_error(name@, attrs@, 0) == event_attribute_error(name@, attrs@, i as int),
        decreases attrs.len() - i,
    {
        match &attrs[i] {
            Attribute::Attribute(a) => {
                let expression = match &a.value {
                    AttributeValueList::ExpressionTag(_) => true,
                    _ => false,
                };
                if !svelte_name && a.name.len() > 2 && starts_with(a.name.as_slice(), "on") && !expression {
                    return Some(
                        compile_error_custom(
                            "attribute_invalid_event_handler",
                            chars_of("Event attribute must be a JavaScript expression, not a string"),
                            a.start,
                            a.end,
                        ),
                    );
                }
            },
            Attribute::OnDirective(d) => {
                if let Some(e) = event_modifier_check(&d.modifiers, d.start, d.end) {
                    return Some(e);
                }
            },
            _ => {},
        }
        i += 1;
    }
    None
}

/// The error for a void element with a closing tag or content, if `e` is one.
fn void_content_check(e: &RegularElement) -> (r: Option<CompileError>)
    ensures
        option_error_view(r) == void_content_error(*e),
{
    if is_void_element_name(e.name.as_slice()) && (e.has_end_tag || first_non_whitespace_fragment_range(
        &e.fragment,
    ).is_some()) {
        let start = if e.fragment.nodes.len() > 0 {
            e.fragment.nodes[0].start()
        } else if e.end > 0 {
            e.end - 1
        } else {
            0
        };
        Some(compile_error_with_range(CompilerDiagnosticKind::VoidElementInvalidContent, start, start))
    } else {
        None
    }
}

/// The first problem with an element itself, apart from where it stands.
pub fn element_content_check(e: &RegularElement) -> (r: Option<CompileError>)
    ensures
        option_error_view(r) == element_content_error(*e),
{
    if let Some(err) = void_content_check(e) {
        return Some(err);
    }
    if text_is(e.name.as_slice(), "svelte:element") {
        if let Some(err) = svelte_element_attributes_check(&e.attributes, e.start) {
            return Some(err);
        }
    }
    if text_is(e.name.as_slice(), "svelte:window") || text_is(e.name.as_slice(), "svelte:document") {
        if let Some(err) = meta_spread_check(&e.name, &e.attributes) {
            return Some(err);
        }
    }
    event_attribute_check(&e.name, &e.attributes)
}

/// The first problem among the attributes of a `<svelte:element>`.
fn svelte_element_this_attribute_check(attrs: &Vec<Attribute>) -> (r: Option<CompileError>)
    ensures
        option_error_view(r) == svelte_element_this_attribute_error(attrs@, 0),
{
    let mut i: usize = 0;
    while i < attrs.len()
        invariant
            i <= attrs@.len(),
            svelte_element_this_attribute_error(attrs@, 0) == svelte_element_this_attribute_error(attrs@, i as int),
        decreases attrs.len() - i,
    {
        if let Attribute::Attribute(a) = &attrs[i] {
            if a.name.len() == 0 && value_is_this_expression(&a.value) {
                return Some(reserved_this_at(a.name_loc.start.character));
            }
            if text_is(a.name.as_slice(), "this") && value_is_bare(&a.value) {
                return Some(missing_this_at(a.name_loc.start.character, a.name_loc.end.character));
            }
        }
        i += 1;
    }
    None
}

/// Whether some attribute is named `this`.
fn find_this_attribute(attrs: &Vec<Attribute>) -> (r: bool)
    ensures
        r == has_this_attribute(attrs@),
{
    let mut i: usize = 0;
    while i < attrs.len()
        invariant
            i <= attrs@.len(),
            forall|k: int| 0 <= k < i ==> !(#[trigger] attrs@[k] matches Attribute::Attribute(a) && a.name@ == "this"@),
        decreases attrs.len() - i,
    {
        if let Attribute::Attribute(a) = &attrs[i] {
            if text_is(a.name.as_slice(), "this") {
                return true;
            }
        }
        i += 1;
    }
    false
}

/// The first problem with what a `<svelte:element>` renders.
pub fn svelte_element_check(el: &SvelteElement) -> (r: Option<CompileError>)
    ensures
        option_error_view(r) == svelte_element_error(*el),
{
    if let Some(err) = svelte_element_this_attribute_check(&el.attributes) {
        return Some(err);
    }
    match &el.expression {
        Some(x) => {
            let is_this = match identifier_name(&x.0) {
                Some(n) => text_is(n.as_slice(), "this"),
                None => false,
            };
            if is_this {
                Some(reserved_this_at(el.start))
            } else {
                None
            }
        },
        None => {
            if find_this_attribute(&el.attributes) {
                None
            } else {
                Some(missing_this_at(el.start, el.start))
            }
        },
    }
}

/// The ancestors of the children of an element named `name`.
fn ancestors_of_children(a: StructureAncestors, name: &[char]) -> (r: StructureAncestors)
    ensures
        r == ancestors_below(a, name@),
{
    let dd = if text_is(name, "dl") || is_custom_element_name(name) {
        false
    } else if text_is(name, "dd") {
        true
    } else {
        a.dd
    };
    StructureAncestors {
        anchor: a.anchor || text_is(name, "a"),
        paragraph: a.paragraph || text_is(name, "p"),
        textarea: a.textarea || text_is(name, "textarea"),
        form: a.form || text_is(name, "form"),
        dd,
    }
}

/// The ancestors inside a block.
fn ancestors_in_block(a: StructureAncestors) -> (r: StructureAncestors)
    ensures
        r == inside_block(a),
{
    StructureAncestors { anchor: a.anchor, paragraph: a.paragraph, textarea: a.textarea, form: false, dd: a.dd }
}

/// The error for a block inside a `<textarea>`.
fn textarea_block_error_at(kind: &str, start: usize) -> (e: CompileError)
    ensures
        error_view(e) == textarea_block_error(kind@, start as int),
{
    let mut m = chars_of("{#");
    push_str(&mut m, kind);
    push_str(&mut m, " ...} block cannot be inside <textarea>");
    compile_error_custom("block_invalid_placement", m, start, start)
}

/// The first structure error among the nodes of `f` and their descendants.
pub fn structure_errors_in_fragment(
    f: &Fragment,
    a: StructureAncestors,
    parent: Option<&Vec<char>>,
    parent_custom: bool,
) -> (r: Option<CompileError>)
    ensures
        option_error_view(r) == structure_error_from(*f, 0, a, optional_name(parent), parent_custom),
    decreases f, 3nat,
{
    let mut i: usize = 0;
    while i < f.nodes.len()
        invariant
            i <= f.nodes@.len(),
            structure_error_from(*f, 0, a, optional_name(parent), parent_custom) == structure_error_from(
                *f,
                i as int,
                a,
                optional_name(parent),
                parent_custom,
            ),
        decreases f.nodes.len() - i,
    {
        proof {
            assert(decreases_to!(f => f.nodes));
            assert(decreases_to!(f.nodes => f.nodes@));
            assert(decreases_to!(f.nodes@ => f.nodes@[i as int]));
        }
        if let Some(e) = structure_errors_in_node(&f.nodes[i], a, parent, parent_custom) {
            return Some(e);
        }
        i += 1;
    }
    None
}

/// The first structure error of an optional fragment.
fn structure_errors_in_optional(
    f: &Option<Fragment>,
    a: StructureAncestors,
    parent: Option<&Vec<char>>,
    parent_custom: bool,
) -> (r: Option<CompileError>)
    ensures
        option_error_view(r) == structure_error_in_optional(*f, a, optional_name(parent), parent_custom),
    decreases f, 4nat,
{
    match f {
        Some(fr) => structure_errors_in_fragment(fr, a, parent, parent_custom),
        None => None,
    }
}

/// The first structure error at a node or among its descendants.
pub fn structure_errors_in_node(
    node: &Node,
    a: StructureAncestors,
    parent: Option<&Vec<char>>,
    parent_custom: bool,
) -> (r: Option<CompileError>)
    ensures
        option_error_view(r) == structure_error_at(*node, a, optional_name(parent), parent_custom),
    decreases node, 2nat,
{
    match node {
        Node::Text(t) => {
            let tbody = match parent {
                Some(p) => text_is(p.as_slice(), "tbody"),
                None => false,
            };
            if tbody && !is_blank(t.data.as_slice()) {
                proof {
                    reveal_strlit("#text");
                }
                Some(tbody_child_error_at(chars_of("#text").as_slice(), t.start, t.end))
            } else {
                None
            }
        },
        Node::ExpressionTag(t) => {
            let tbody = match parent {
                Some(p) => text_is(p.as_slice(), "tbody"),
                None => false,
            };
            if tbody {
                Some(tbody_child_error_at(chars_of("#text").as_slice(), t.start, t.end))
            } else {
                None
            }
        },
        Node::RegularElement(e) => {
            if let Some(err) = element_placement_check(e, a, parent, parent_custom) {
                return Some(err);
            }
            if let Some(err) = element_content_check(e) {
                return Some(err);
            }
            let below = ancestors_of_children(a, e.name.as_slice());
            let custom = is_custom_element_name(e.name.as_slice());
            structure_errors_in_fragment(&e.fragment, below, Some(&e.name), custom)
        },
        Node::Component(e) => structure_errors_in_fragment(&e.fragment, a, parent, parent_custom),
        Node::SlotElement(e) => structure_errors_in_fragment(&e.fragment, a, parent, parent_custom),
        Node::SvelteElement(e) => {
            if let Some(err) = svelte_element_check(e) {
                return Some(err);
            }
            structure_errors_in_fragment(&e.fragment, a, parent, parent_custom)
        },
        Node::SvelteWindow(e) => {
            if let Some(err) = meta_spread_check(&e.name, &e.attributes) {
                return Some(err);
            }
            structure_errors_in_fragment(&e.fragment, a, parent, parent_custom)
        },
        Node::SvelteDocument(e) => {
            if let Some(err) = meta_spread_check(&e.name, &e.attributes) {
                return Some(err);
            }
            structure_errors_in_fragment(&e.fragment, a, parent, parent_custom)
        },
        Node::SvelteHead(e) => structure_errors_in_fragment(&e.fragment, a, parent, parent_custom),
        Node::SvelteBody(e) => structure_errors_in_fragment(&e.fragment, a, parent, parent_custom),
        Node::SvelteComponent(e) => structure_errors_in_fragment(&e.fragment, a, parent, parent_custom),
        Node::SvelteSelf(e) => structure_errors_in_fragment(&e.fragment, a, parent, parent_custom),
        Node::SvelteFragment(e) => structure_errors_in_fragment(&e.fragment, a, parent, parent_custom),
        Node::SvelteBoundary(e) => structure_errors_in_fragment(&e.fragment, a, parent, parent_custom),
        Node::TitleElement(e) => structure_errors_in_fragment(&e.fragment, a, parent, parent_custom),
        Node::IfBlock(b) => {
            if a.textarea {
                return Some(textarea_block_error_at("if", b.start));
            }
            let inner = ancestors_in_block(a);
            if let Some(err) = structure_errors_in_fragment(&b.consequent, inner, parent, parent_custom) {
                return Some(err);
            }
            match &b.alternate {
                Some(alternate) => {
                    proof {
                        assert(decreases_to!(b => b.alternate));
                    }
                    match &**alternate {
                        Alternate::Fragment(f) => structure_errors_in_fragment(f, inner, parent, parent_custom),
                        Alternate::IfBlock(elseif) => structure_errors_in_fragment(
                            &elseif.consequent,
                            inner,
                            parent,
                            parent_custom,
                        ),
                    }
                },
                None => None,
            }
        },
        Node::EachBlock(b) => {
            if a.textarea {
                return Some(textarea_block_error_at("each", b.start));
            }
            let inner = ancestors_in_block(a);
            if let Some(err) = structure_errors_in_fragment(&b.body, inner, parent, parent_custom) {
                return Some(err);
            }
            structure_errors_in_optional(&b.fallback, inner, parent, parent_custom)
        },
        Node::AwaitBlock(b) => {
            if a.textarea {
                return Some(textarea_block_error_at("await", b.start));
            }
            let inner = ancestors_in_block(a);
            if let Some(err) = structure_errors_in_optional(&b.pending, inner, parent, parent_custom) {
                return Some(err);
            }
            if let Some(err) = structure_errors_in_optional(&b.then_branch, inner, parent, parent_custom) {
                return Some(err);
            }
            structure_errors_in_optional(&b.catch, inner, parent, parent_custom)
        },
        Node::SnippetBlock(b) => {
            if a.textarea {
                return Some(textarea_block_error_at("snippet", b.start));
            }
            structure_errors_in_fragment(&b.body, ancestors_in_block(a), parent, parent_custom)
        },
        Node::KeyBlock(b) => {
            if a.textarea {
                return Some(textarea_block_error_at("key", b.start));
            }
            structure_errors_in_fragment(&b.fragment, ancestors_in_block(a), parent, parent_custom)
        },
        Node::HtmlTag(t) => {
            if a.textarea {
                Some(
                    compile_error_custom(
                        "tag_invalid_placement",
                        chars_of("{@html ...} tag cannot be inside <textarea>"),
                        t.start,
                        t.start,
                    ),
                )
            } else {
                None
            }
        },
        _ => None,
    }
}

/// The first structure error of a template, in document order.
pub fn detect_additional_template_structure_errors(root: &crate::ast::Root) -> (r: Option<CompileError>)
    ensures
        option_error_view(r) == structure_error_from(root.fragment, 0, no_ancestors(), None, false),
{
    let a = StructureAncestors { anchor: false, paragraph: false, textarea: false, form: false, dd: false };
    structure_errors_in_fragment(&root.fragment, a, None, false)
}

} // verus!
