//! Checks of `slot="..."` attributes: where they may stand, that their
//! value is static, and that a component gets each slot once.
use vstd::prelude::*;

use crate::ast::{spec_element, spec_node_span, Alternate, Attribute, Fragment, NamedAttribute, Node, Root};
use crate::bindings::{contains_name, has_name, names_set};
use crate::diagnostics::{
    compile_error_custom, compile_error_with_range, kind_error_view, option_error_view, CompileError,
    CompilerDiagnosticKind, ErrorView,
};
use crate::names::custom_element_name;
use crate::parse::{attribute_static_text, spec_named_attribute_from, spec_static_text};
use crate::placement::{element_has_slot_attribute, has_slot_attribute};
use crate::reactive::copy_names;
use crate::template::{is_blank, message3, spec_blank};
use crate::text::{chars_of, copy_chars, push_chars, push_str, text_is};

verus! {

/// What a level of the template is, for slot attributes.
#[derive(Clone, Copy, PartialEq, Eq, Structural)]
pub enum SlotKind {
    Component,
    Element,
    Custom,
    Snippet,
    Other,
}

/// A level of the template: its kind, the component's name, and the slot
/// names its direct children have filled.
pub struct SlotFrame {
    pub kind: SlotKind,
    pub name: Option<Vec<char>>,
    pub slots: Vec<Vec<char>>,
}

/// A level of the template as plain values: its kind, its component's
/// name, and the set of slot names filled.
pub type SlotFrameView = (SlotKind, Option<Seq<char>>, Set<Seq<char>>);

/// A level as plain values.
pub open spec fn frame_view(f: SlotFrame) -> SlotFrameView {
    (
        f.kind,
        match f.name {
            Some(n) => Some(n@),
            None => None,
        },
        names_set(f.slots@),
    )
}

/// The levels of a stack as plain values, outermost first.
pub open spec fn stack_view(s: Seq<SlotFrame>) -> Seq<SlotFrameView> {
    s.map_values(|f: SlotFrame| frame_view(f))
}

/// The kind of level a node opens.
pub open spec fn spec_slot_kind(node: Node) -> SlotKind {
    match node {
        Node::Component(_) | Node::SvelteComponent(_) | Node::SvelteSelf(_) => SlotKind::Component,
        Node::SvelteElement(_) => SlotKind::Element,
        Node::SnippetBlock(_) => SlotKind::Snippet,
        Node::RegularElement(e) => if custom_element_name(e.name@) {
            SlotKind::Custom
        } else {
            SlotKind::Other
        },
        _ => SlotKind::Other,
    }
}

/// The kind of level a node opens.
pub fn slot_kind(node: &Node) -> (r: SlotKind)
    ensures
        r == spec_slot_kind(*node),
{
    match node {
        Node::Component(_) | Node::SvelteComponent(_) | Node::SvelteSelf(_) => SlotKind::Component,
        Node::SvelteElement(_) => SlotKind::Element,
        Node::SnippetBlock(_) => SlotKind::Snippet,
        Node::RegularElement(e) => if crate::names::is_custom_element_name(e.name.as_slice()) {
            SlotKind::Custom
        } else {
            SlotKind::Other
        },
        _ => SlotKind::Other,
    }
}

/// The level a node opens, as plain values: no slot filled yet.
pub open spec fn spec_slot_frame(node: Node) -> SlotFrameView {
    (
        spec_slot_kind(node),
        match node {
            Node::Component(c) => Some(c.name@),
            Node::SvelteComponent(c) => Some(c.name@),
            Node::SvelteSelf(c) => Some(c.name@),
            _ => None,
        },
        Set::empty(),
    )
}

/// The level a node opens.
pub fn slot_frame(node: &Node) -> (f: SlotFrame)
    ensures
        frame_view(f) == spec_slot_frame(*node),
{
    let name = match node {
        Node::Component(c) => Some(copy_chars(c.name.as_slice())),
        Node::SvelteComponent(c) => Some(copy_chars(c.name.as_slice())),
        Node::SvelteSelf(c) => Some(copy_chars(c.name.as_slice())),
        _ => None,
    };
    let f = SlotFrame { kind: slot_kind(node), name, slots: Vec::new() };
    proof {
        assert(names_set(f.slots@) =~= Set::<Seq<char>>::empty());
    }
    f
}

/// Whether a node of a component's content leaves its default slot empty:
/// blank text, or an element or `<svelte:fragment>` with a `slot` attribute.
pub open spec fn leaves_default_slot(node: Node) -> bool {
    match node {
        Node::Text(t) => spec_blank(t.data@),
        Node::RegularElement(e) => has_slot_attribute(e.attributes@),
        Node::SvelteFragment(e) => has_slot_attribute(e.attributes@),
        _ => false,
    }
}

/// The range of the first node of `nodes[i..]` that fills the default slot.
pub open spec fn default_conflict_from(nodes: Seq<Node>, i: int) -> Option<(usize, usize)>
    decreases nodes.len() - i,
{
    if 0 <= i < nodes.len() {
        if leaves_default_slot(nodes[i]) {
            default_conflict_from(nodes, i + 1)
        } else {
            Some(spec_node_span(&nodes[i]))
        }
    } else {
        None
    }
}

/// The range of the first node of a component's content that fills its
/// default slot: not blank text, and not an element or `<svelte:fragment>`
/// with a `slot` attribute.
pub fn default_slot_conflict(fragment: &Fragment) -> (r: Option<(usize, usize)>)
    ensures
        r == default_conflict_from(fragment.nodes@, 0),
{
    let mut i: usize = 0;
    while i < fragment.nodes.len()
        invariant
            i <= fragment.nodes@.len(),
            default_conflict_from(fragment.nodes@, 0) == default_conflict_from(fragment.nodes@, i as int),
        decreases fragment.nodes.len() - i,
    {
        let node = &fragment.nodes[i];
        let skip = match node {
            Node::Text(t) => is_blank(t.data.as_slice()),
            Node::RegularElement(e) => element_has_slot_attribute(&e.attributes),
            Node::SvelteFragment(e) => element_has_slot_attribute(&e.attributes),
            _ => false,
        };
        if !skip {
            return Some((node.start(), node.end()));
        }
        i += 1;
    }
    None
}

/// The `slot` attribute of a node, if it has one.
pub open spec fn spec_slot_attribute(node: Node) -> Option<NamedAttribute> {
    match spec_element(&node) {
        Some(el) => spec_named_attribute_from(el.attributes@, 0, "slot"@),
        None => None,
    }
}

/// The `slot` attribute of a node, if it has one.
fn slot_attribute(node: &Node) -> (r: Option<&NamedAttribute>)
    ensures
        r matches Some(a) ==> spec_slot_attribute(*node) == Some(*a),
        r is None ==> spec_slot_attribute(*node) is None,
{
    match node.as_element() {
        Some(el) => crate::parse::find_named_attribute(el.attributes, "slot"),
        None => None,
    }
}

/// The message for a slot that a component gets twice.
pub open spec fn slot_duplicate_message(slot: Seq<char>, component: Seq<char>) -> Seq<char> {
    "Duplicate slot name '"@ + slot + "' in <"@ + component + ">"@
}

/// The message for a slot that a component gets twice.
fn duplicate_message(slot: &[char], component: &[char]) -> (m: Vec<char>)
    ensures
        m@ == slot_duplicate_message(slot@, component@),
{
    let mut m = message3("Duplicate slot name '", slot, "' in <");
    push_chars(&mut m, component);
    push_str(&mut m, ">");
    m
}

/// Whether a level can own the slot attributes below it.
pub open spec fn owns_slots(kind: SlotKind) -> bool {
    kind == SlotKind::Component || kind == SlotKind::Element || kind == SlotKind::Custom
}

/// The index of the innermost level among `stack[..i]` that owns slots.
pub open spec fn owner_from(stack: Seq<SlotFrameView>, i: int) -> Option<int>
    decreases i,
{
    if i <= 0 {
        None
    } else if owns_slots(stack[i - 1].0) {
        Some(i - 1)
    } else {
        owner_from(stack, i - 1)
    }
}

/// The index of the innermost component, element or custom element level.
fn owner_index(stack: &Vec<SlotFrame>) -> (r: Option<usize>)
    ensures
        r matches Some(i) ==> i < stack@.len(),
        match r {
            Some(i) => owner_from(stack_view(stack@), stack@.len() as int) == Some(i as int),
            None => owner_from(stack_view(stack@), stack@.len() as int) is None,
        },
{
    let mut i = stack.len();
    while i > 0
        invariant
            i <= stack@.len(),
            owner_from(stack_view(stack@), stack@.len() as int) == owner_from(stack_view(stack@), i as int),
        decreases i,
    {
        let k = stack[i - 1].kind;
        if k == SlotKind::Component || k == SlotKind::Element || k == SlotKind::Custom {
            return Some(i - 1);
        }
        i -= 1;
    }
    None
}

/// The error for a slot attribute whose value is not static text.
pub open spec fn slot_static_error(a: NamedAttribute) -> ErrorView {
    ("slot_attribute_invalid"@, "slot attribute must be a static value"@, a.start as int, a.end as int)
}

/// The error for a slot attribute that stands where no component gets it.
pub open spec fn slot_placement_error(a: NamedAttribute) -> ErrorView {
    (
        "slot_attribute_invalid_placement"@,
        "Element with a slot='...' attribute must be a child of a component or a descendant of a custom element"@,
        a.start as int,
        a.end as int,
    )
}

/// The slot error of a node among the nodes of `f`, given the levels around
/// it, and the levels after it: a direct child of a component records the
/// slot it fills in the component's level.
pub open spec fn slot_node_step(node: Node, f: Fragment, stack: Seq<SlotFrameView>) -> (
    Option<ErrorView>,
    Seq<SlotFrameView>,
) {
    match spec_slot_attribute(node) {
        None => (None, stack),
        Some(a) => {
            let kind = spec_slot_kind(node);
            let is_component_attribute = kind == SlotKind::Component || kind == SlotKind::Element;
            let parent_kind = if stack.len() > 0 {
                Some(stack.last().0)
            } else {
                None
            };
            if parent_kind == Some(SlotKind::Snippet) {
                if spec_static_text(a.value) is None {
                    (Some(slot_static_error(a)), stack)
                } else {
                    (None, stack)
                }
            } else {
                match owner_from(stack, stack.len() as int) {
                    Some(idx) => if stack[idx].0 == SlotKind::Component {
                        let direct = parent_kind == Some(SlotKind::Component);
                        if !direct && !is_component_attribute {
                            (Some(slot_placement_error(a)), stack)
                        } else if !direct {
                            (None, stack)
                        } else {
                            match spec_static_text(a.value) {
                                None => (Some(slot_static_error(a)), stack),
                                Some(name) => if stack[idx].2.contains(name) {
                                    (
                                        Some(
                                            (
                                                "slot_attribute_duplicate"@,
                                                slot_duplicate_message(
                                                    name,
                                                    match stack[idx].1 {
                                                        Some(c) => c,
                                                        None => "Component"@,
                                                    },
                                                ),
                                                a.start as int,
                                                a.end as int,
                                            ),
                                        ),
                                        stack,
                                    )
                                } else {
                                    let after = stack.update(idx, (stack[idx].0, stack[idx].1, stack[idx].2.insert(name)));
                                    if name == "default"@ {
                                        match default_conflict_from(f.nodes@, 0) {
                                            Some((s, e)) => (
                                                Some(
                                                    kind_error_view(
                                                        CompilerDiagnosticKind::SlotDefaultDuplicate,
                                                        s as int,
                                                        e as int,
                                                    ),
                                                ),
                                                after,
                                            ),
                                            None => (None, after),
                                        }
                                    } else {
                                        (None, after)
                                    }
                                },
                            }
                        }
                    } else {
                        (None, stack)
                    },
                    None => if !is_component_attribute {
                        (Some(slot_placement_error(a)), stack)
                    } else {
                        (None, stack)
                    },
                }
            }
        },
    }
}

/// Adding a name to a list adds it to the set of names the list holds.
proof fn lemma_names_set_push(names: Seq<Vec<char>>, v: Vec<char>)
    ensures
        names_set(names.push(v)) == names_set(names).insert(v@),
{
    assert forall|n: Seq<char>| names_set(names.push(v)).contains(n) <==> names_set(names).insert(v@).contains(n) by {
        if has_name(names.push(v), n) {
            let k = choose|k: int| 0 <= k < names.push(v).len() && (#[trigger] names.push(v)[k])@ == n;
            if k < names.len() {
                assert(names[k] == names.push(v)[k]);
            }
        }
        if has_name(names, n) {
            let k = choose|k: int| 0 <= k < names.len() && (#[trigger] names[k])@ == n;
            assert(names.push(v)[k] == names[k]);
        }
        if n == v@ {
            assert(names.push(v)[names.len() as int] == v);
        }
    }
    assert(names_set(names.push(v)) =~= names_set(names).insert(v@));
}

/// Two lists with the same names, one for one, hold the same set of names.
proof fn lemma_names_set_copy(a: Seq<Vec<char>>, b: Seq<Vec<char>>)
    requires
        a.len() == b.len(),
        forall|i: int| 0 <= i < a.len() ==> (#[trigger] a[i])@ == b[i]@,
    ensures
        names_set(a) == names_set(b),
{
    assert forall|n: Seq<char>| names_set(a).contains(n) <==> names_set(b).contains(n) by {
        if has_name(a, n) {
            let k = choose|k: int| 0 <= k < a.len() && (#[trigger] a[k])@ == n;
            assert(b[k]@ == n);
        }
        if has_name(b, n) {
            let k = choose|k: int| 0 <= k < b.len() && (#[trigger] b[k])@ == n;
            assert(a[k]@ == n);
        }
    }
    assert(names_set(a) =~= names_set(b));
}

/// The slot error of a node with a `slot` attribute, among the nodes of
/// `fragment`, given the levels around it. Records the slot it fills.
pub fn detect_slot_attribute_error_for_node(node: &Node, fragment: &Fragment, stack: &mut Vec<SlotFrame>) -> (r: Option<
    CompileError,
>)
    ensures
        (option_error_view(r), stack_view(final(stack)@)) == slot_node_step(*node, *fragment, stack_view(old(stack)@)),
        final(stack)@.len() == old(stack)@.len(),
{
    let ghost before = stack_view(stack@);
    let attribute = match slot_attribute(node) {
        Some(a) => a,
        None => return None,
    };
    let kind = slot_kind(node);
    let is_component_attribute = kind == SlotKind::Component || kind == SlotKind::Element;
    let parent_kind = if stack.len() > 0 { Some(stack[stack.len() - 1].kind) } else { None };
    proof {
        if stack@.len() > 0 {
            assert(before.last().0 == stack@[stack@.len() - 1].kind);
        }
    }
    if parent_kind == Some(SlotKind::Snippet) {
        if attribute_static_text(&attribute.value).is_none() {
            return Some(compile_error_custom("slot_attribute_invalid", chars_of("slot attribute must be a static value"), attribute.start, attribute.end));
        }
        return None;
    }
    let invalid_placement = "Element with a slot='...' attribute must be a child of a component or a descendant of a custom element";
    match owner_index(stack) {
        Some(idx) => {
            proof {
                assert(before[idx as int] == frame_view(stack@[idx as int]));
            }
            if stack[idx].kind == SlotKind::Component {
                let direct = parent_kind == Some(SlotKind::Component);
                if !direct && !is_component_attribute {
                    return Some(compile_error_custom("slot_attribute_invalid_placement", chars_of(invalid_placement), attribute.start, attribute.end));
                }
                if !direct {
                    return None;
                }
                let name = match attribute_static_text(&attribute.value) {
                    Some(n) => n,
                    None => {
                        return Some(compile_error_custom("slot_attribute_invalid", chars_of("slot attribute must be a static value"), attribute.start, attribute.end));
                    },
                };
                if contains_name(&stack[idx].slots, name.as_slice()) {
                    let component = match &stack[idx].name {
                        Some(c) => copy_chars(c.as_slice()),
                        None => chars_of("Component"),
                    };
                    return Some(
                        compile_error_custom(
                            "slot_attribute_duplicate",
                            duplicate_message(name.as_slice(), component.as_slice()),
                            attribute.start,
                            attribute.end,
                        ),
                    );
                }
                let mut slots = copy_names(&stack[idx].slots);
                let ghost copied = slots@;
                let added = copy_chars(name.as_slice());
                slots.push(added);
                proof {
                    lemma_names_set_copy(copied, stack@[idx as int].slots@);
                    lemma_names_set_push(copied, added);
                }
                let frame = SlotFrame {
                    kind: stack[idx].kind,
                    name: match &stack[idx].name {
                        Some(c) => Some(copy_chars(c.as_slice())),
                        None => None,
                    },
                    slots,
                };
                let ghost fv = frame_view(frame);
                stack.set(idx, frame);
                proof {
                    assert(stack_view(stack@) =~= before.update(idx as int, fv));
                }
                if text_is(name.as_slice(), "default") {
                    if let Some((s, e)) = default_slot_conflict(fragment) {
                        return Some(compile_error_with_range(CompilerDiagnosticKind::SlotDefaultDuplicate, s, e));
                    }
                }
            }
            None
        },
        None => {
            if !is_component_attribute {
                return Some(compile_error_custom("slot_attribute_invalid_placement", chars_of(invalid_placement), attribute.start, attribute.end));
            }
            None
        },
    }
}

/// The first slot error among `f.nodes[i..]` and their descendants, and the
/// levels after the walk, from `stack`.
pub open spec fn slot_from(f: Fragment, i: int, stack: Seq<SlotFrameView>) -> (Option<ErrorView>, Seq<SlotFrameView>)
    decreases f, f.nodes@.len() - i,
{
    if 0 <= i < f.nodes@.len() {
        proof {
            assert(decreases_to!(f => f.nodes));
            assert(decreases_to!(f.nodes => f.nodes@));
            assert(decreases_to!(f.nodes@ => f.nodes@[i]));
        }
        let (r1, s1) = slot_node_step(f.nodes@[i], f, stack);
        if r1 is Some {
            (r1, s1)
        } else {
            let (r2, s2) = slot_children(f.nodes@[i], s1);
            if r2 is Some {
                (r2, s2)
            } else {
                slot_from(f, i + 1, s2)
            }
        }
    } else {
        (None, stack)
    }
}

/// The slot errors of an optional fragment.
pub open spec fn slot_optional(f: Option<Fragment>, stack: Seq<SlotFrameView>) -> (Option<ErrorView>, Seq<SlotFrameView>)
    decreases f, 0int,
{
    match f {
        Some(fr) => slot_from(fr, 0, stack),
        None => (None, stack),
    }
}

/// The slot errors inside the fragments a node holds, walked with the level
/// the node opens on top of `stack`; the level is dropped afterwards.
pub open spec fn slot_children(node: Node, stack: Seq<SlotFrameView>) -> (Option<ErrorView>, Seq<SlotFrameView>)
    decreases node, 2int,
{
    let opens = match node {
        Node::IfBlock(_) | Node::EachBlock(_) | Node::AwaitBlock(_) | Node::SnippetBlock(_) | Node::KeyBlock(_) => true,
        _ => spec_element(&node) is Some,
    };
    if !opens {
        (None, stack)
    } else {
        let inner = stack.push(spec_slot_frame(node));
        let (r, s) = match node {
            Node::IfBlock(b) => {
                let (r1, s1) = slot_from(b.consequent, 0, inner);
                if r1 is Some {
                    (r1, s1)
                } else {
                    match b.alternate {
                        Some(alternate) => {
                            proof {
                                assert(decreases_to!(b => b.alternate));
                            }
                            match *alternate {
                                Alternate::Fragment(f) => slot_from(f, 0, s1),
                                Alternate::IfBlock(eb) => slot_from(eb.consequent, 0, s1),
                            }
                        },
                        None => (None, s1),
                    }
                }
            },
            Node::EachBlock(b) => {
                let (r1, s1) = slot_from(b.body, 0, inner);
                if r1 is Some {
                    (r1, s1)
                } else {
                    slot_optional(b.fallback, s1)
                }
            },
            Node::AwaitBlock(b) => {
                let (r1, s1) = slot_optional(b.pending, inner);
                if r1 is Some {
                    (r1, s1)
                } else {
                    let (r2, s2) = slot_optional(b.then_branch, s1);
                    if r2 is Some {
                        (r2, s2)
                    } else {
                        slot_optional(b.catch, s2)
                    }
                }
            },
            Node::SnippetBlock(b) => slot_from(b.body, 0, inner),
            Node::KeyBlock(b) => slot_from(b.fragment, 0, inner),
            _ => match spec_element(&node) {
                Some(el) => slot_from(*el.fragment, 0, inner),
                None => (None, inner),
            },
        };
        (r, s.drop_last())
    }
}

/// Whether the levels `b` are the levels `a`, each with its kind and its
/// component's name unchanged.
pub open spec fn frames_kept(a: Seq<SlotFrameView>, b: Seq<SlotFrameView>) -> bool {
    &&& a.len() == b.len()
    &&& forall|k: int| 0 <= k < a.len() ==> (#[trigger] b[k]).0 == a[k].0 && b[k].1 == a[k].1
}

proof fn lemma_owner_in_range(stack: Seq<SlotFrameView>, i: int)
    requires
        i <= stack.len(),
    ensures
        owner_from(stack, i) matches Some(k) ==> 0 <= k < i,
    decreases i,
{
    if i > 0 && !owns_slots(stack[i - 1].0) {
        lemma_owner_in_range(stack, i - 1);
    }
}

proof fn lemma_step_keeps_frames(node: Node, f: Fragment, stack: Seq<SlotFrameView>)
    ensures
        frames_kept(stack, slot_node_step(node, f, stack).1),
{
    lemma_owner_in_range(stack, stack.len() as int);
}

proof fn lemma_from_keeps_frames(f: Fragment, i: int, stack: Seq<SlotFrameView>)
    ensures
        frames_kept(stack, slot_from(f, i, stack).1),
    decreases f, f.nodes@.len() - i,
{
    if 0 <= i < f.nodes@.len() {
        assert(decreases_to!(f => f.nodes));
        assert(decreases_to!(f.nodes => f.nodes@));
        assert(decreases_to!(f.nodes@ => f.nodes@[i]));
        let (r1, s1) = slot_node_step(f.nodes@[i], f, stack);
        lemma_step_keeps_frames(f.nodes@[i], f, stack);
        if r1 is None {
            let (r2, s2) = slot_children(f.nodes@[i], s1);
            lemma_children_keep_frames(f.nodes@[i], s1);
            if r2 is None {
                lemma_from_keeps_frames(f, i + 1, s2);
            }
        }
    }
}

proof fn lemma_optional_keeps_frames(f: Option<Fragment>, stack: Seq<SlotFrameView>)
    ensures
        frames_kept(stack, slot_optional(f, stack).1),
    decreases f, 0int,
{
    if let Some(fr) = f {
        lemma_from_keeps_frames(fr, 0, stack);
    }
}

proof fn lemma_children_keep_frames(node: Node, stack: Seq<SlotFrameView>)
    ensures
        frames_kept(stack, slot_children(node, stack).1),
    decreases node, 2int,
{
    let opens = match node {
        Node::IfBlock(_) | Node::EachBlock(_) | Node::AwaitBlock(_) | Node::SnippetBlock(_) | Node::KeyBlock(_) => true,
        _ => spec_element(&node) is Some,
    };
    if opens {
        let inner = stack.push(spec_slot_frame(node));
        let s = match node {
            Node::IfBlock(b) => {
                let (r1, s1) = slot_from(b.consequent, 0, inner);
                lemma_from_keeps_frames(b.consequent, 0, inner);
                if r1 is Some {
                    s1
                } else {
                    match b.alternate {
                        Some(alternate) => {
                            assert(decreases_to!(b => b.alternate));
                            match *alternate {
                                Alternate::Fragment(f) => {
                                    lemma_from_keeps_frames(f, 0, s1);
                                    slot_from(f, 0, s1).1
                                },
                                Alternate::IfBlock(eb) => {
                                    lemma_from_keeps_frames(eb.consequent, 0, s1);
                                    slot_from(eb.consequent, 0, s1).1
                                },
                            }
                        },
                        None => s1,
                    }
                }
            },
            Node::EachBlock(b) => {
                let (r1, s1) = slot_from(b.body, 0, inner);
                lemma_from_keeps_frames(b.body, 0, inner);
                if r1 is Some {
                    s1
                } else {
                    lemma_optional_keeps_frames(b.fallback, s1);
                    slot_optional(b.fallback, s1).1
                }
            },
            Node::AwaitBlock(b) => {
                let (r1, s1) = slot_optional(b.pending, inner);
                lemma_optional_keeps_frames(b.pending, inner);
                if r1 is Some {
                    s1
                } else {
                    let (r2, s2) = slot_optional(b.then_branch, s1);
                    lemma_optional_keeps_frames(b.then_branch, s1);
                    if r2 is Some {
                        s2
                    } else {
                        lemma_optional_keeps_frames(b.catch, s2);
                        slot_optional(b.catch, s2).1
                    }
                }
            },
            Node::SnippetBlock(b) => {
                lemma_from_keeps_frames(b.body, 0, inner);
                slot_from(b.body, 0, inner).1
            },
            Node::KeyBlock(b) => {
                lemma_from_keeps_frames(b.fragment, 0, inner);
                slot_from(b.fragment, 0, inner).1
            },
            _ => match spec_element(&node) {
                Some(el) => {
                    lemma_from_keeps_frames(*el.fragment, 0, inner);
                    slot_from(*el.fragment, 0, inner).1
                },
                None => inner,
            },
        };
        assert(frames_kept(inner, s));
        assert(slot_children(node, stack).1 == s.drop_last());
    }
}

/// A walk of the slot checks over a fragment changes only which slots each
/// level has seen filled: every level keeps its kind and its component's name.
pub proof fn lemma_slot_frames_keep_kind_and_name(f: Fragment, stack: Seq<SlotFrameView>)
    ensures
        frames_kept(stack, slot_from(f, 0, stack).1),
{
    lemma_from_keeps_frames(f, 0, stack);
}

/// The slot errors of the nodes of a fragment and their descendants, in document order.
pub fn detect_slot_attribute_errors_in_fragment(fragment: &Fragment, stack: &mut Vec<SlotFrame>) -> (r: Option<
    CompileError,
>)
    ensures
        (option_error_view(r), stack_view(final(stack)@)) == slot_from(*fragment, 0, stack_view(old(stack)@)),
        final(stack)@.len() == old(stack)@.len(),
        frames_kept(stack_view(old(stack)@), stack_view(final(stack)@)),
    decreases fragment, 3nat,
{
    proof {
        lemma_from_keeps_frames(*fragment, 0, stack_view(stack@));
    }
    let mut i: usize = 0;
    while i < fragment.nodes.len()
        invariant
            i <= fragment.nodes@.len(),
            slot_from(*fragment, 0, stack_view(old(stack)@)) == slot_from(*fragment, i as int, stack_view(stack@)),
            stack@.len() == old(stack)@.len(),
            frames_kept(stack_view(old(stack)@), slot_from(*fragment, 0, stack_view(old(stack)@)).1),
        decreases fragment.nodes.len() - i,
    {
        proof {
            assert(decreases_to!(fragment => fragment.nodes));
            assert(decreases_to!(fragment.nodes => fragment.nodes@));
            assert(decreases_to!(fragment.nodes@ => fragment.nodes@[i as int]));
        }
        let node = &fragment.nodes[i];
        if let Some(e) = detect_slot_attribute_error_for_node(node, fragment, stack) {
            return Some(e);
        }
        if let Some(e) = detect_slot_attribute_errors_in_children(node, stack) {
            return Some(e);
        }
        i += 1;
    }
    None
}

/// The slot errors of an optional fragment.
fn detect_slot_attribute_errors_in_optional(fragment: &Option<Fragment>, stack: &mut Vec<SlotFrame>) -> (r: Option<
    CompileError,
>)
    ensures
        (option_error_view(r), stack_view(final(stack)@)) == slot_optional(*fragment, stack_view(old(stack)@)),
        final(stack)@.len() == old(stack)@.len(),
    decreases fragment, 4nat,
{
    match fragment {
        Some(f) => detect_slot_attribute_errors_in_fragment(f, stack),
        None => None,
    }
}

/// The slot errors inside the fragments a node holds, one level deeper.
fn detect_slot_attribute_errors_in_children(node: &Node, stack: &mut Vec<SlotFrame>) -> (r: Option<CompileError>)
    ensures
        (option_error_view(r), stack_view(final(stack)@)) == slot_children(*node, stack_view(old(stack)@)),
        final(stack)@.len() == old(stack)@.len(),
    decreases node, 2nat,
{
    let opens = match node {
        Node::IfBlock(_) | Node::EachBlock(_) | Node::AwaitBlock(_) | Node::SnippetBlock(_) | Node::KeyBlock(_) => true,
        _ => node.as_element().is_some(),
    };
    if !opens {
        return None;
    }
    let ghost before = stack_view(stack@);
    let frame = slot_frame(node);
    let ghost fv = frame_view(frame);
    stack.push(frame);
    proof {
        assert(stack_view(stack@) =~= before.push(fv));
    }
    let result = match node {
        Node::IfBlock(block) => match detect_slot_attribute_errors_in_fragment(&block.consequent, stack) {
            Some(e) => Some(e),
            None => match &block.alternate {
                Some(alternate) => {
                    proof {
                        assert(decreases_to!(block => block.alternate));
                    }
                    match &**alternate {
                        Alternate::Fragment(f) => detect_slot_attribute_errors_in_fragment(f, stack),
                        Alternate::IfBlock(b) => detect_slot_attribute_errors_in_fragment(&b.consequent, stack),
                    }
                },
                None => None,
            },
        },
        Node::EachBlock(block) => match detect_slot_attribute_errors_in_fragment(&block.body, stack) {
            Some(e) => Some(e),
            None => detect_slot_attribute_errors_in_optional(&block.fallback, stack),
        },
        Node::AwaitBlock(block) => match detect_slot_attribute_errors_in_optional(&block.pending, stack) {
            Some(e) => Some(e),
            None => match detect_slot_attribute_errors_in_optional(&block.then_branch, stack) {
                Some(e) => Some(e),
                None => detect_slot_attribute_errors_in_optional(&block.catch, stack),
            },
        },
        Node::SnippetBlock(block) => detect_slot_attribute_errors_in_fragment(&block.body, stack),
        Node::KeyBlock(block) => detect_slot_attribute_errors_in_fragment(&block.fragment, stack),
        _ => match node.as_element() {
            Some(el) => detect_slot_attribute_errors_in_fragment(el.fragment, stack),
            None => None,
        },
    };
    let ghost inner_after = stack_view(stack@);
    let _ = stack.pop();
    proof {
        assert(stack_view(stack@) =~= inner_after.drop_last());
    }
    result
}

/// The slot errors of the template, in document order.
pub fn detect_slot_attribute_errors(root: &Root) -> (r: Option<CompileError>)
    ensures
        option_error_view(r) == slot_from(root.fragment, 0, Seq::empty()).0,
{
    let mut stack: Vec<SlotFrame> = Vec::new();
    proof {
        assert(stack_view(stack@) =~= Seq::<SlotFrameView>::empty());
    }
    detect_slot_attribute_errors_in_fragment(&root.fragment, &mut stack)
}

} // verus!
