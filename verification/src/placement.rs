//! Where special elements and directives may stand, and what they may carry:
//! `<svelte:self>`, `<svelte:fragment>` and `<svelte:head>` placement and
//! attributes, `let:` directives, `style:` modifiers, directives without a
//! name or with a value that is not an expression, keyed `{#each}` blocks
//! without an `as` clause, the context of `{#each}` blocks, and the values of
//! `<svelte:options>`.
use vstd::prelude::*;

use crate::ast::{
    spec_element, Alternate, Attribute, AttributeValue, AttributeValueList, DirectiveValueSyntax, Entry, Fragment,
    Node, NamedAttribute, ParseErrorKind, Root, Search,
};
use crate::diagnostics::{
    compile_error_custom, compile_error_with_range, error_view, first_error, option_error_view, CompileError,
    CompilerDiagnosticKind, ErrorView,
};
use crate::estree::{spec_type_is, type_is};
use crate::parse::{attribute_static_text, spec_static_text};
use crate::template::{attribute_span, message3, spec_attribute_span};
use crate::text::{chars_of, copy_chars, push_str, text_is};
use crate::walk::{lift_find, search_from};

verus! {

/// The first value that a check of entries gives in a template, in document order.
pub open spec fn first_in_template<'a, T>(root: &'a Root, g: spec_fn(Entry<'a>) -> Option<T>) -> Option<T> {
    search_from(&root.fragment, 0, lift_find(g))
}

/// The error reported for a range found by a check, with the given code and message.
pub open spec fn found_error(found: Option<(usize, usize)>, code: Seq<char>, message: Seq<char>) -> Option<ErrorView> {
    match found {
        Some((s, e)) => Some((code, message, s as int, e as int)),
        None => None,
    }
}

// ----- `{#each}` blocks with a key and no `as` clause

/// The range of an `{#each}` block with a key and no context, if `entry` is one.
pub open spec fn spec_each_key_without_as(entry: Entry) -> Option<(usize, usize)> {
    match entry {
        Entry::Node(Node::EachBlock(b)) => if b.key is Some && b.context is None {
            Some((b.start, b.end))
        } else {
            None
        },
        _ => None,
    }
}

/// A keyed `{#each}` block without an `as` clause is reported over its
/// whole range; one with an `as` clause, or without a key, is not.
pub proof fn lemma_each_key_without_as(b: crate::ast::EachBlock)
    ensures
        (b.key is Some && b.context is None) ==> spec_each_key_without_as(Entry::Node(&Node::EachBlock(b))) == Some(
            (b.start, b.end),
        ),
        (b.key is None || b.context is Some) ==> spec_each_key_without_as(Entry::Node(&Node::EachBlock(b))) is None,
{
}

fn each_key_without_as(entry: Entry<'_>) -> (r: Option<(usize, usize)>)
    ensures
        r == spec_each_key_without_as(entry),
{
    match entry {
        Entry::Node(Node::EachBlock(b)) => if b.key.is_some() && b.context.is_none() {
            Some((b.start, b.end))
        } else {
            None
        },
        _ => None,
    }
}

/// The first keyed `{#each}` block without an `as` clause, in document order.
pub open spec fn spec_detect_each_key_without_as(root: &Root) -> Option<ErrorView> {
    found_error(
        first_in_template(root, |e: Entry| spec_each_key_without_as(e)),
        CompilerDiagnosticKind::EachKeyWithoutAs.spec_code()@,
        CompilerDiagnosticKind::EachKeyWithoutAs.spec_message()@,
    )
}

/// The first keyed `{#each}` block without an `as` clause, in document order.
pub fn detect_each_key_without_as(root: &Root) -> (r: Option<CompileError>)
    ensures
        option_error_view(r) == spec_detect_each_key_without_as(root),
{
    let found = root.fragment.find_map_as(
        each_key_without_as,
        Ghost(|e: Entry| spec_each_key_without_as(e)),
    );
    match found {
        Some((s, e)) => Some(compile_error_with_range(CompilerDiagnosticKind::EachKeyWithoutAs, s, e)),
        None => None,
    }
}

// ----- directives without a name

/// The prefix a directive is written with, without its colon.
pub open spec fn spec_directive_prefix(attribute: Attribute) -> Option<Seq<char>> {
    match attribute {
        Attribute::BindDirective(_) => Some("bind"@),
        Attribute::OnDirective(_) => Some("on"@),
        Attribute::ClassDirective(_) => Some("class"@),
        Attribute::LetDirective(_) => Some("let"@),
        Attribute::StyleDirective(_) => Some("style"@),
        Attribute::TransitionDirective(t) => Some(
            if t.intro && !t.outro {
                "in"@
            } else if !t.intro && t.outro {
                "out"@
            } else {
                "transition"@
            },
        ),
        Attribute::AnimateDirective(_) => Some("animate"@),
        Attribute::UseDirective(_) => Some("use"@),
        _ => None,
    }
}

/// The name, start and name end of a directive.
pub open spec fn spec_directive_name_range(attribute: Attribute) -> (Seq<char>, usize, usize) {
    match attribute {
        Attribute::BindDirective(d) | Attribute::OnDirective(d) | Attribute::ClassDirective(d)
        | Attribute::LetDirective(d) | Attribute::AnimateDirective(d) | Attribute::UseDirective(d) => (
            d.name@,
            d.start,
            d.name_loc.end.character,
        ),
        Attribute::StyleDirective(d) => (d.name@, d.start, d.name_loc.end.character),
        Attribute::TransitionDirective(d) => (d.name@, d.start, d.name_loc.end.character),
        _ => (Seq::empty(), 0, 0),
    }
}

/// What a directive without a name is reported with.
pub open spec fn missing_name_message(prefix: Seq<char>) -> Seq<char> {
    "`"@ + prefix + ":` name cannot be empty"@
}

/// The index of the first directive without a name among `attrs[i..]`.
pub open spec fn unnamed_directive_from(attrs: Seq<Attribute>, i: int) -> Option<int>
    decreases attrs.len() - i,
{
    if i < 0 || i >= attrs.len() {
        None
    } else if spec_directive_prefix(attrs[i]) is Some && spec_directive_name_range(attrs[i]).0.len() == 0 {
        Some(i)
    } else {
        unnamed_directive_from(attrs, i + 1)
    }
}

/// The first directive without a name on an element entry.
pub open spec fn spec_unnamed_directive<'a>(entry: Entry<'a>) -> Option<&'a Attribute> {
    match entry {
        Entry::Node(n) => match spec_element(n) {
            Some(el) => match unnamed_directive_from(el.attributes@, 0) {
                Some(k) => Some(&el.attributes@[k]),
                None => None,
            },
            None => None,
        },
        _ => None,
    }
}

/// The error for a directive without a name.
pub open spec fn missing_name_error(attribute: Attribute) -> ErrorView {
    let (_, start, end) = spec_directive_name_range(attribute);
    let prefix = match spec_directive_prefix(attribute) {
        Some(p) => p,
        None => ""@,
    };
    ("directive_missing_name"@, missing_name_message(prefix), start as int, end as int)
}

fn directive_prefix_of(attribute: &Attribute) -> (r: Option<&'static str>)
    ensures
        r matches Some(p) ==> spec_directive_prefix(*attribute) == Some(p@),
        r is None ==> spec_directive_prefix(*attribute) is None,
{
    match attribute {
        Attribute::BindDirective(_) => Some("bind"),
        Attribute::OnDirective(_) => Some("on"),
        Attribute::ClassDirective(_) => Some("class"),
        Attribute::LetDirective(_) => Some("let"),
        Attribute::StyleDirective(_) => Some("style"),
        Attribute::TransitionDirective(t) => Some(
            if t.intro && !t.outro {
                "in"
            } else if !t.intro && t.outro {
                "out"
            } else {
                "transition"
            },
        ),
        Attribute::AnimateDirective(_) => Some("animate"),
        Attribute::UseDirective(_) => Some("use"),
        _ => None,
    }
}

fn directive_name_range(attribute: &Attribute) -> (r: (usize, usize, usize))
    ensures
        spec_directive_name_range(*attribute).0.len() == r.0,
        spec_directive_name_range(*attribute).1 == r.1,
        spec_directive_name_range(*attribute).2 == r.2,
{
    match attribute {
        Attribute::BindDirective(d) | Attribute::OnDirective(d) | Attribute::ClassDirective(d)
        | Attribute::LetDirective(d) | Attribute::AnimateDirective(d) | Attribute::UseDirective(d) => (
            d.name.len(),
            d.start,
            d.name_loc.end.character,
        ),
        Attribute::StyleDirective(d) => (d.name.len(), d.start, d.name_loc.end.character),
        Attribute::TransitionDirective(d) => (d.name.len(), d.start, d.name_loc.end.character),
        _ => (0, 0, 0),
    }
}

/// The first directive without a name among `attrs`.
pub fn unnamed_directive_in_attributes(attrs: &Vec<Attribute>) -> (r: Option<&Attribute>)
    ensures
        r matches Some(a) ==> unnamed_directive_from(attrs@, 0) matches Some(k) && *a == attrs@[k],
        r is None ==> unnamed_directive_from(attrs@, 0) is None,
{
    let mut i: usize = 0;
    while i < attrs.len()
        invariant
            i <= attrs@.len(),
            unnamed_directive_from(attrs@, 0) == unnamed_directive_from(attrs@, i as int),
        decreases attrs.len() - i,
    {
        if directive_prefix_of(&attrs[i]).is_some() {
            let (len, _, _) = directive_name_range(&attrs[i]);
            if len == 0 {
                return Some(&attrs[i]);
            }
        }
        i += 1;
    }
    None
}

fn unnamed_directive_at(entry: Entry<'_>) -> (r: Option<&Attribute>)
    ensures
        r == spec_unnamed_directive(entry),
{
    match entry {
        Entry::Node(n) => match n.as_element() {
            Some(el) => unnamed_directive_in_attributes(el.attributes),
            None => None,
        },
        _ => None,
    }
}

/// The error for a directive without a name.
pub fn missing_name_error_of(attribute: &Attribute) -> (e: CompileError)
    ensures
        error_view(e) == missing_name_error(*attribute),
{
    let prefix = match directive_prefix_of(attribute) {
        Some(p) => p,
        None => "",
    };
    let (_, start, end) = directive_name_range(attribute);
    let mut m = chars_of("`");
    push_str(&mut m, prefix);
    push_str(&mut m, ":` name cannot be empty");
    compile_error_custom("directive_missing_name", m, start, end)
}

/// The first directive without a name in a template, in document order.
pub open spec fn spec_detect_missing_directive_name(root: &Root) -> Option<ErrorView> {
    match first_in_template(root, |e: Entry| spec_unnamed_directive(e)) {
        Some(a) => Some(missing_name_error(*a)),
        None => None,
    }
}

/// The first directive without a name in a template, in document order.
pub fn detect_missing_directive_name(root: &Root) -> (r: Option<CompileError>)
    ensures
        option_error_view(r) == spec_detect_missing_directive_name(root),
{
    let found = root.fragment.find_map_as(
        unnamed_directive_at,
        Ghost(|e: Entry| spec_unnamed_directive(e)),
    );
    match found {
        Some(a) => {
            Some(missing_name_error_of(a))
        },
        None => None,
    }
}

// ----- directive values that are not expressions

/// Where the value of a directive that is not an expression starts, if
/// `attribute` is a directive written so.
pub open spec fn spec_invalid_directive_value(attribute: Attribute) -> Option<usize> {
    match attribute {
        Attribute::BindDirective(d) | Attribute::OnDirective(d) | Attribute::ClassDirective(d)
        | Attribute::AnimateDirective(d) | Attribute::UseDirective(d) => if d.value_syntax
            == DirectiveValueSyntax::Invalid {
            Some(d.value_start)
        } else {
            None
        },
        Attribute::TransitionDirective(d) => if d.value_syntax == DirectiveValueSyntax::Invalid {
            Some(d.value_start)
        } else {
            None
        },
        _ => None,
    }
}

/// Where the first directive value among `attrs[i..]` that is not an expression starts.
pub open spec fn invalid_directive_value_from(attrs: Seq<Attribute>, i: int) -> Option<usize>
    decreases attrs.len() - i,
{
    if i < 0 || i >= attrs.len() {
        None
    } else {
        match spec_invalid_directive_value(attrs[i]) {
            Some(p) => Some(p),
            None => invalid_directive_value_from(attrs, i + 1),
        }
    }
}

/// Where the first directive value of an element entry that is not an expression starts.
pub open spec fn spec_invalid_directive_value_at(entry: Entry) -> Option<usize> {
    match entry {
        Entry::Node(n) => match spec_element(n) {
            Some(el) => invalid_directive_value_from(el.attributes@, 0),
            None => None,
        },
        _ => None,
    }
}

fn invalid_directive_value(attribute: &Attribute) -> (r: Option<usize>)
    ensures
        r == spec_invalid_directive_value(*attribute),
{
    match attribute {
        Attribute::BindDirective(d) | Attribute::OnDirective(d) | Attribute::ClassDirective(d)
        | Attribute::AnimateDirective(d) | Attribute::UseDirective(d) => match d.value_syntax {
            DirectiveValueSyntax::Invalid => Some(d.value_start),
            _ => None,
        },
        Attribute::TransitionDirective(d) => match d.value_syntax {
            DirectiveValueSyntax::Invalid => Some(d.value_start),
            _ => None,
        },
        _ => None,
    }
}

fn invalid_directive_value_in(attrs: &Vec<Attribute>) -> (r: Option<usize>)
    ensures
        r == invalid_directive_value_from(attrs@, 0),
{
    let mut i: usize = 0;
    while i < attrs.len()
        invariant
            i <= attrs@.len(),
            invalid_directive_value_from(attrs@, 0) == invalid_directive_value_from(attrs@, i as int),
        decreases attrs.len() - i,
    {
        if let Some(p) = invalid_directive_value(&attrs[i]) {
            return Some(p);
        }
        i += 1;
    }
    None
}

fn invalid_directive_value_at(entry: Entry<'_>) -> (r: Option<usize>)
    ensures
        r == spec_invalid_directive_value_at(entry),
{
    match entry {
        Entry::Node(n) => match n.as_element() {
            Some(el) => invalid_directive_value_in(el.attributes),
            None => None,
        },
        _ => None,
    }
}

/// The first directive in a template whose value is not an expression in
/// curly braces, reported at the start of its value.
pub open spec fn spec_detect_directive_invalid_value(root: &Root) -> Option<ErrorView> {
    match first_in_template(root, |e: Entry| spec_invalid_directive_value_at(e)) {
        Some(p) => Some(
            (
                "directive_invalid_value"@,
                "Directive value must be a JavaScript expression enclosed in curly braces"@,
                p as int,
                p as int,
            ),
        ),
        None => None,
    }
}

/// The first directive in a template whose value is not an expression in
/// curly braces, reported at the start of its value.
pub fn detect_directive_invalid_value(root: &Root) -> (r: Option<CompileError>)
    ensures
        option_error_view(r) == spec_detect_directive_invalid_value(root),
{
    let found = root.fragment.find_map_as(
        invalid_directive_value_at,
        Ghost(|e: Entry| spec_invalid_directive_value_at(e)),
    );
    match found {
        Some(p) => Some(
            compile_error_custom(
                "directive_invalid_value",
                chars_of("Directive value must be a JavaScript expression enclosed in curly braces"),
                p,
                p,
            ),
        ),
        None => None,
    }
}

// ----- `let:` directives where no slot props arrive

/// Whether a node is a special element that receives no slot props.
pub open spec fn spec_takes_no_let(node: Node) -> bool {
    node is SvelteWindow || node is SvelteDocument || node is SvelteBody || node is SvelteHead
        || node is SvelteElement || node is SvelteBoundary
}

/// The range of the first `let:` directive among `attrs[i..]`.
pub open spec fn let_directive_from(attrs: Seq<Attribute>, i: int) -> Option<(usize, usize)>
    decreases attrs.len() - i,
{
    if i < 0 || i >= attrs.len() {
        None
    } else {
        match attrs[i] {
            Attribute::LetDirective(d) => Some((d.start, d.end)),
            _ => let_directive_from(attrs, i + 1),
        }
    }
}

/// The range of the first `let:` directive of a special element that receives no slot props.
pub open spec fn spec_misplaced_let(entry: Entry) -> Option<(usize, usize)> {
    match entry {
        Entry::Node(n) => if spec_takes_no_let(*n) {
            let_directive_from(spec_element(n).unwrap().attributes@, 0)
        } else {
            None
        },
        _ => None,
    }
}

fn let_directive_in(attrs: &Vec<Attribute>) -> (r: Option<(usize, usize)>)
    ensures
        r == let_directive_from(attrs@, 0),
{
    let mut i: usize = 0;
    while i < attrs.len()
        invariant
            i <= attrs@.len(),
            let_directive_from(attrs@, 0) == let_directive_from(attrs@, i as int),
        decreases attrs.len() - i,
    {
        if let Attribute::LetDirective(d) = &attrs[i] {
            return Some((d.start, d.end));
        }
        i += 1;
    }
    None
}

fn misplaced_let_at(entry: Entry<'_>) -> (r: Option<(usize, usize)>)
    ensures
        r == spec_misplaced_let(entry),
{
    match entry {
        Entry::Node(n) => {
            let takes_no_let = match n {
                Node::SvelteWindow(_) | Node::SvelteDocument(_) | Node::SvelteBody(_) | Node::SvelteHead(_)
                | Node::SvelteElement(_) | Node::SvelteBoundary(_) => true,
                _ => false,
            };
            if !takes_no_let {
                return None;
            }
            let_directive_in(n.as_element().unwrap().attributes)
        },
        _ => None,
    }
}

/// The first `let:` directive on a special element that receives no slot props.
pub open spec fn spec_detect_let_directive_invalid_placement(root: &Root) -> Option<ErrorView> {
    found_error(
        first_in_template(root, |e: Entry| spec_misplaced_let(e)),
        "let_directive_invalid_placement"@,
        "`let:` directive at invalid position"@,
    )
}

/// The first `let:` directive on a special element that receives no slot props.
pub fn detect_let_directive_invalid_placement(root: &Root) -> (r: Option<CompileError>)
    ensures
        option_error_view(r) == spec_detect_let_directive_invalid_placement(root),
{
    let found = root.fragment.find_map_as(misplaced_let_at, Ghost(|e: Entry| spec_misplaced_let(e)));
    match found {
        Some((s, e)) => Some(
            compile_error_custom("let_directive_invalid_placement", chars_of("`let:` directive at invalid position"), s, e),
        ),
        None => None,
    }
}

// ----- `style:` modifiers

/// Whether every modifier among `mods` is `important`.
pub open spec fn only_important(mods: Seq<Vec<char>>) -> bool {
    forall|k: int| 0 <= k < mods.len() ==> (#[trigger] mods[k])@ == "important"@
}

/// The range of the first `style:` directive among `attrs[i..]` with a modifier other than `important`.
pub open spec fn bad_style_modifier_from(attrs: Seq<Attribute>, i: int) -> Option<(usize, usize)>
    decreases attrs.len() - i,
{
    if i < 0 || i >= attrs.len() {
        None
    } else {
        match attrs[i] {
            Attribute::StyleDirective(d) => if only_important(d.modifiers@) {
                bad_style_modifier_from(attrs, i + 1)
            } else {
                Some((d.start, d.end))
            },
            _ => bad_style_modifier_from(attrs, i + 1),
        }
    }
}

/// Among an element's attributes, the first `style:` directive with any
/// modifier other than `important` is the one reported; directives whose
/// modifiers are all `important` (or that have none) pass.
pub proof fn lemma_style_modifiers(attrs: Seq<Attribute>, k: int)
    requires
        0 <= k < attrs.len(),
        attrs[k] matches Attribute::StyleDirective(d) && exists|m: int|
            0 <= m < d.modifiers@.len() && (#[trigger] d.modifiers@[m])@ != "important"@,
        forall|j: int|
            0 <= j < k ==> !((#[trigger] attrs[j]) matches Attribute::StyleDirective(d) && exists|m: int|
                0 <= m < d.modifiers@.len() && (#[trigger] d.modifiers@[m])@ != "important"@),
    ensures
        bad_style_modifier_from(attrs, 0) == Some(spec_attribute_span(attrs[k])),
{
    lemma_style_modifiers_from(attrs, 0, k);
}

proof fn lemma_style_modifiers_from(attrs: Seq<Attribute>, i: int, k: int)
    requires
        0 <= i <= k < attrs.len(),
        attrs[k] matches Attribute::StyleDirective(d) && exists|m: int|
            0 <= m < d.modifiers@.len() && (#[trigger] d.modifiers@[m])@ != "important"@,
        forall|j: int|
            0 <= j < k ==> !((#[trigger] attrs[j]) matches Attribute::StyleDirective(d) && exists|m: int|
                0 <= m < d.modifiers@.len() && (#[trigger] d.modifiers@[m])@ != "important"@),
    ensures
        bad_style_modifier_from(attrs, i) == Some(spec_attribute_span(attrs[k])),
    decreases k - i,
{
    if i < k {
        assert(!(attrs[i] matches Attribute::StyleDirective(d) && exists|m: int|
            0 <= m < d.modifiers@.len() && (#[trigger] d.modifiers@[m])@ != "important"@));
        lemma_style_modifiers_from(attrs, i + 1, k);
    }
}

/// The first `style:` directive with a modifier other than `important` on an
/// element, component or slot entry.
pub open spec fn spec_bad_style_modifier(entry: Entry) -> Option<(usize, usize)> {
    match entry {
        Entry::Node(Node::RegularElement(e)) => bad_style_modifier_from(e.attributes@, 0),
        Entry::Node(Node::Component(e)) => bad_style_modifier_from(e.attributes@, 0),
        Entry::Node(Node::SlotElement(e)) => bad_style_modifier_from(e.attributes@, 0),
        _ => None,
    }
}

fn modifiers_only_important(mods: &Vec<Vec<char>>) -> (r: bool)
    ensures
        r == only_important(mods@),
{
    let mut k: usize = 0;
    while k < mods.len()
        invariant
            k <= mods@.len(),
            forall|j: int| 0 <= j < k ==> (#[trigger] mods@[j])@ == "important"@,
        decreases mods.len() - k,
    {
        if !text_is(mods[k].as_slice(), "important") {
            return false;
        }
        k += 1;
    }
    true
}

fn bad_style_modifier_in(attrs: &Vec<Attribute>) -> (r: Option<(usize, usize)>)
    ensures
        r == bad_style_modifier_from(attrs@, 0),
{
    let mut i: usize = 0;
    while i < attrs.len()
        invariant
            i <= attrs@.len(),
            bad_style_modifier_from(attrs@, 0) == bad_style_modifier_from(attrs@, i as int),
        decreases attrs.len() - i,
    {
        if let Attribute::StyleDirective(d) = &attrs[i] {
            if !modifiers_only_important(&d.modifiers) {
                return Some((d.start, d.end));
            }
        }
        i += 1;
    }
    None
}

fn bad_style_modifier_at(entry: Entry<'_>) -> (r: Option<(usize, usize)>)
    ensures
        r == spec_bad_style_modifier(entry),
{
    match entry {
        Entry::Node(Node::RegularElement(e)) => bad_style_modifier_in(&e.attributes),
        Entry::Node(Node::Component(e)) => bad_style_modifier_in(&e.attributes),
        Entry::Node(Node::SlotElement(e)) => bad_style_modifier_in(&e.attributes),
        _ => None,
    }
}

/// The first `style:` directive in a template with a modifier other than `important`.
pub open spec fn spec_detect_style_directive_invalid_modifier(root: &Root) -> Option<ErrorView> {
    found_error(
        first_in_template(root, |e: Entry| spec_bad_style_modifier(e)),
        "style_directive_invalid_modifier"@,
        "`style:` directive can only use the `important` modifier"@,
    )
}

/// The first `style:` directive in a template with a modifier other than `important`.
pub fn detect_style_directive_invalid_modifier(root: &Root) -> (r: Option<CompileError>)
    ensures
        option_error_view(r) == spec_detect_style_directive_invalid_modifier(root),
{
    let found = root.fragment.find_map_as(bad_style_modifier_at, Ghost(|e: Entry| spec_bad_style_modifier(e)));
    match found {
        Some((s, e)) => Some(
            compile_error_custom(
                "style_directive_invalid_modifier",
                chars_of("`style:` directive can only use the `important` modifier"),
                s,
                e,
            ),
        ),
        None => None,
    }
}

// ----- the context of `{#each}` blocks

/// The error recorded for the context of an `{#each}` block, if `entry` is such a block.
pub open spec fn spec_each_context_error<'a>(entry: Entry<'a>) -> Option<&'a crate::ast::ParseError> {
    match entry {
        Entry::Node(Node::EachBlock(b)) => match &b.context_error {
            Some(e) => Some(e),
            None => None,
        },
        _ => None,
    }
}

fn each_context_error_at(entry: Entry<'_>) -> (r: Option<&crate::ast::ParseError>)
    ensures
        r == spec_each_context_error(entry),
{
    match entry {
        Entry::Node(Node::EachBlock(b)) => match &b.context_error {
            Some(e) => Some(e),
            None => None,
        },
        _ => None,
    }
}

/// What follows the reserved word in its error message.
pub open spec fn reserved_word_suffix() -> Seq<char> {
    "' is a reserved word in JavaScript and cannot be used here"@
}

/// Whether a message is the one for a reserved word: a quote, a word that is
/// not empty, and the rest of the reserved word message.
pub open spec fn names_reserved_word(message: Seq<char>) -> bool {
    &&& message.len() > 1 + reserved_word_suffix().len()
    &&& message[0] == '\''
    &&& message.subrange(message.len() - reserved_word_suffix().len(), message.len() as int) == reserved_word_suffix()
}

/// Whether a message is the one for a reserved word.
pub fn is_reserved_word_message(message: &[char]) -> (r: bool)
    ensures
        r == names_reserved_word(message@),
{
    let suffix = chars_of("' is a reserved word in JavaScript and cannot be used here");
    if message.len() < 1 || message.len() - 1 <= suffix.len() {
        return false;
    }
    if message[0] != '\'' {
        return false;
    }
    let r = crate::text::at(message, message.len() - suffix.len(), "' is a reserved word in JavaScript and cannot be used here");
    r
}

/// The error reported for the recorded error of an `{#each}` context.
pub open spec fn each_context_error_view(e: crate::ast::ParseError) -> Option<ErrorView> {
    match e.kind {
        ParseErrorKind::UnexpectedReservedWord { word } => Some(
            ("unexpected_reserved_word"@, "'"@ + word@ + reserved_word_suffix(), e.start as int, e.end as int),
        ),
        ParseErrorKind::JsParseError { message } => Some(
            (
                if names_reserved_word(message@) {
                    "unexpected_reserved_word"@
                } else {
                    "js_parse_error"@
                },
                message@,
                e.start as int,
                e.end as int,
            ),
        ),
        _ => None,
    }
}

/// The error of the first `{#each}` block whose context could not be read;
/// none when that block's error is of another kind.
pub open spec fn spec_detect_each_context_error(root: &Root) -> Option<ErrorView> {
    match first_in_template(root, |e: Entry| spec_each_context_error(e)) {
        Some(e) => each_context_error_view(*e),
        None => None,
    }
}

/// The error of the first `{#each}` block whose context could not be read;
/// none when that block's error is of another kind.
pub fn detect_each_context_error(root: &Root) -> (r: Option<CompileError>)
    ensures
        option_error_view(r) == spec_detect_each_context_error(root),
{
    let found = root.fragment.find_map_as(each_context_error_at, Ghost(|e: Entry| spec_each_context_error(e)));
    let error = match found {
        Some(e) => e,
        None => return None,
    };
    match &error.kind {
        ParseErrorKind::UnexpectedReservedWord { word } => {
            let m = message3("'", word.as_slice(), "' is a reserved word in JavaScript and cannot be used here");
            Some(compile_error_custom("unexpected_reserved_word", m, error.start, error.end))
        },
        ParseErrorKind::JsParseError { message } => {
            let code = if is_reserved_word_message(message.as_slice()) {
                "unexpected_reserved_word"
            } else {
                "js_parse_error"
            };
            Some(compile_error_custom(code, copy_chars(message.as_slice()), error.start, error.end))
        },
        _ => None,
    }
}

// ----- `<svelte:self>` outside a block or a component

/// Whether some attribute is named `slot`.
pub open spec fn has_slot_attribute(attrs: Seq<Attribute>) -> bool {
    exists|k: int| 0 <= k < attrs.len() && (#[trigger] attrs[k] matches Attribute::Attribute(a) && a.name@ == "slot"@)
}

/// Whether some attribute is named `slot`.
pub fn element_has_slot_attribute(attrs: &Vec<Attribute>) -> (r: bool)
    ensures
        r == has_slot_attribute(attrs@),
{
    let mut i: usize = 0;
    while i < attrs.len()
        invariant
            i <= attrs@.len(),
            forall|k: int| 0 <= k < i ==> !(#[trigger] attrs@[k] matches Attribute::Attribute(a) && a.name@ == "slot"@),
        decreases attrs.len() - i,
    {
        if let Attribute::Attribute(a) = &attrs[i] {
            if text_is(a.name.as_slice(), "slot") {
                return true;
            }
        }
        i += 1;
    }
    false
}

/// The first `<svelte:self>` among `f.nodes[i..]` and below that stands
/// outside every block (`in_block`) and every component (`in_component`)
/// and is not passed to a slot.
pub open spec fn misplaced_self_from(f: Fragment, i: int, in_block: bool, in_component: bool) -> Option<(usize, usize)>
    decreases f, f.nodes@.len() - i,
{
    if 0 <= i < f.nodes@.len() {
        proof {
            assert(decreases_to!(f => f.nodes));
            assert(decreases_to!(f.nodes => f.nodes@));
            assert(decreases_to!(f.nodes@ => f.nodes@[i]));
        }
        match misplaced_self_at(f.nodes@[i], in_block, in_component) {
            Some(r) => Some(r),
            None => misplaced_self_from(f, i + 1, in_block, in_component),
        }
    } else {
        None
    }
}

/// The first misplaced `<svelte:self>` of an optional fragment.
pub open spec fn misplaced_self_optional(f: Option<Fragment>, in_block: bool, in_component: bool) -> Option<(usize, usize)>
    decreases f, 1int,
{
    match f {
        Some(fr) => misplaced_self_from(fr, 0, in_block, in_component),
        None => None,
    }
}

/// The first misplaced `<svelte:self>` in an `{#if}` block and its `{:else if}` branches.
pub open spec fn misplaced_self_if(b: crate::ast::IfBlock, in_block: bool, in_component: bool) -> Option<(usize, usize)>
    decreases b, 1int,
{
    match misplaced_self_from(b.consequent, 0, true, in_component) {
        Some(r) => Some(r),
        None => match b.alternate {
            Some(alternate) => {
                proof {
                    assert(decreases_to!(b => b.alternate));
                }
                match *alternate {
                    Alternate::Fragment(f) => misplaced_self_from(f, 0, true, in_component),
                    Alternate::IfBlock(inner) => misplaced_self_if(inner, in_block, in_component),
                }
            },
            None => None,
        },
    }
}

/// The first misplaced `<svelte:self>` at a node or below it.
pub open spec fn misplaced_self_at(n: Node, in_block: bool, in_component: bool) -> Option<(usize, usize)>
    decreases n, 2int,
{
    match n {
        Node::SvelteSelf(el) => if !in_block && !in_component && !has_slot_attribute(el.attributes@) {
            Some((el.start, el.end))
        } else {
            misplaced_self_from(el.fragment, 0, in_block, true)
        },
        Node::RegularElement(e) => misplaced_self_from(e.fragment, 0, in_block, in_component),
        Node::Component(e) => misplaced_self_from(e.fragment, 0, in_block, true),
        Node::SlotElement(e) => misplaced_self_from(e.fragment, 0, in_block, in_component),
        Node::IfBlock(b) => misplaced_self_if(b, in_block, in_component),
        Node::EachBlock(b) => match misplaced_self_from(b.body, 0, true, in_component) {
            Some(r) => Some(r),
            None => misplaced_self_optional(b.fallback, true, in_component),
        },
        Node::AwaitBlock(b) => match misplaced_self_optional(b.pending, in_block, in_component) {
            Some(r) => Some(r),
            None => match misplaced_self_optional(b.then_branch, in_block, in_component) {
                Some(r) => Some(r),
                None => misplaced_self_optional(b.catch, in_block, in_component),
            },
        },
        Node::SnippetBlock(b) => misplaced_self_from(b.body, 0, true, in_component),
        Node::KeyBlock(b) => misplaced_self_from(b.fragment, 0, in_block, in_component),
        Node::SvelteHead(e) => misplaced_self_from(e.fragment, 0, in_block, in_component),
        Node::SvelteBody(e) => misplaced_self_from(e.fragment, 0, in_block, in_component),
        Node::SvelteWindow(e) => misplaced_self_from(e.fragment, 0, in_block, in_component),
        Node::SvelteDocument(e) => misplaced_self_from(e.fragment, 0, in_block, in_component),
        Node::SvelteComponent(e) => misplaced_self_from(e.fragment, 0, in_block, true),
        Node::SvelteElement(e) => misplaced_self_from(e.fragment, 0, in_block, in_component),
        Node::SvelteFragment(e) => misplaced_self_from(e.fragment, 0, in_block, in_component),
        Node::SvelteBoundary(e) => misplaced_self_from(e.fragment, 0, in_block, in_component),
        Node::TitleElement(e) => misplaced_self_from(e.fragment, 0, in_block, in_component),
        _ => None,
    }
}

fn misplaced_self_in_fragment(f: &Fragment, in_block: bool, in_component: bool) -> (r: Option<(usize, usize)>)
    ensures
        r == misplaced_self_from(*f, 0, in_block, in_component),
    decreases f, 3nat,
{
    let mut i: usize = 0;
    while i < f.nodes.len()
        invariant
            i <= f.nodes@.len(),
            misplaced_self_from(*f, 0, in_block, in_component) == misplaced_self_from(*f, i as int, in_block, in_component),
        decreases f.nodes.len() - i,
    {
        proof {
            assert(decreases_to!(f => f.nodes));
            assert(decreases_to!(f.nodes => f.nodes@));
            assert(decreases_to!(f.nodes@ => f.nodes@[i as int]));
        }
        if let Some(r) = misplaced_self_in_node(&f.nodes[i], in_block, in_component) {
            return Some(r);
        }
        i += 1;
    }
    None
}

fn misplaced_self_in_optional(f: &Option<Fragment>, in_block: bool, in_component: bool) -> (r: Option<(usize, usize)>)
    ensures
        r == misplaced_self_optional(*f, in_block, in_component),
    decreases f, 4nat,
{
    match f {
        Some(fr) => misplaced_self_in_fragment(fr, in_block, in_component),
        None => None,
    }
}

fn misplaced_self_in_if(b: &crate::ast::IfBlock, in_block: bool, in_component: bool) -> (r: Option<(usize, usize)>)
    ensures
        r == misplaced_self_if(*b, in_block, in_component),
    decreases b, 4nat,
{
    if let Some(r) = misplaced_self_in_fragment(&b.consequent, true, in_component) {
        return Some(r);
    }
    match &b.alternate {
        Some(alternate) => {
            proof {
                assert(decreases_to!(b => b.alternate));
            }
            match &**alternate {
                Alternate::Fragment(f) => misplaced_self_in_fragment(f, true, in_component),
                Alternate::IfBlock(inner) => misplaced_self_in_if(inner, in_block, in_component),
            }
        },
        None => None,
    }
}

fn misplaced_self_in_node(n: &Node, in_block: bool, in_component: bool) -> (r: Option<(usize, usize)>)
    ensures
        r == misplaced_self_at(*n, in_block, in_component),
    decreases n, 5nat,
{
    match n {
        Node::SvelteSelf(el) => {
            if !in_block && !in_component && !element_has_slot_attribute(&el.attributes) {
                Some((el.start, el.end))
            } else {
                misplaced_self_in_fragment(&el.fragment, in_block, true)
            }
        },
        Node::RegularElement(e) => misplaced_self_in_fragment(&e.fragment, in_block, in_component),
        Node::Component(e) => misplaced_self_in_fragment(&e.fragment, in_block, true),
        Node::SlotElement(e) => misplaced_self_in_fragment(&e.fragment, in_block, in_component),
        Node::IfBlock(b) => misplaced_self_in_if(b, in_block, in_component),
        Node::EachBlock(b) => {
            if let Some(r) = misplaced_self_in_fragment(&b.body, true, in_component) {
                return Some(r);
            }
            misplaced_self_in_optional(&b.fallback, true, in_component)
        },
        Node::AwaitBlock(b) => {
            if let Some(r) = misplaced_self_in_optional(&b.pending, in_block, in_component) {
                return Some(r);
            }
            if let Some(r) = misplaced_self_in_optional(&b.then_branch, in_block, in_component) {
                return Some(r);
            }
            misplaced_self_in_optional(&b.catch, in_block, in_component)
        },
        Node::SnippetBlock(b) => misplaced_self_in_fragment(&b.body, true, in_component),
        Node::KeyBlock(b) => misplaced_self_in_fragment(&b.fragment, in_block, in_component),
        Node::SvelteHead(e) => misplaced_self_in_fragment(&e.fragment, in_block, in_component),
        Node::SvelteBody(e) => misplaced_self_in_fragment(&e.fragment, in_block, in_component),
        Node::SvelteWindow(e) => misplaced_self_in_fragment(&e.fragment, in_block, in_component),
        Node::SvelteDocument(e) => misplaced_self_in_fragment(&e.fragment, in_block, in_component),
        Node::SvelteComponent(e) => misplaced_self_in_fragment(&e.fragment, in_block, true),
        Node::SvelteElement(e) => misplaced_self_in_fragment(&e.fragment, in_block, in_component),
        Node::SvelteFragment(e) => misplaced_self_in_fragment(&e.fragment, in_block, in_component),
        Node::SvelteBoundary(e) => misplaced_self_in_fragment(&e.fragment, in_block, in_component),
        Node::TitleElement(e) => misplaced_self_in_fragment(&e.fragment, in_block, in_component),
        _ => None,
    }
}

/// The first `<svelte:self>` that stands outside every block and component
/// and is not passed to a slot.
pub open spec fn spec_detect_svelte_self_invalid_placement(root: &Root) -> Option<ErrorView> {
    found_error(
        misplaced_self_from(root.fragment, 0, false, false),
        CompilerDiagnosticKind::SvelteSelfInvalidPlacement.spec_code()@,
        CompilerDiagnosticKind::SvelteSelfInvalidPlacement.spec_message()@,
    )
}

/// The first `<svelte:self>` that stands outside every block and component
/// and is not passed to a slot.
pub fn detect_svelte_self_invalid_placement(root: &Root) -> (r: Option<CompileError>)
    ensures
        option_error_view(r) == spec_detect_svelte_self_invalid_placement(root),
{
    match misplaced_self_in_fragment(&root.fragment, false, false) {
        Some((s, e)) => Some(compile_error_with_range(CompilerDiagnosticKind::SvelteSelfInvalidPlacement, s, e)),
        None => None,
    }
}

// ----- `<svelte:fragment>` outside a component

/// The first `<svelte:fragment>` among `f.nodes[i..]` and below that is not a
/// direct child of a component; `direct` tells whether `f` is a component's content.
pub open spec fn misplaced_fragment_from(f: Fragment, i: int, direct: bool) -> Option<(usize, usize)>
    decreases f, f.nodes@.len() - i,
{
    if 0 <= i < f.nodes@.len() {
        proof {
            assert(decreases_to!(f => f.nodes));
            assert(decreases_to!(f.nodes => f.nodes@));
            assert(decreases_to!(f.nodes@ => f.nodes@[i]));
        }
        match misplaced_fragment_at(f.nodes@[i], direct) {
            Some(r) => Some(r),
            None => misplaced_fragment_from(f, i + 1, direct),
        }
    } else {
        None
    }
}

/// The first misplaced `<svelte:fragment>` of an optional fragment.
pub open spec fn misplaced_fragment_optional(f: Option<Fragment>) -> Option<(usize, usize)>
    decreases f, 1int,
{
    match f {
        Some(fr) => misplaced_fragment_from(fr, 0, false),
        None => None,
    }
}

/// The first misplaced `<svelte:fragment>` at a node or below it. Of an
/// `{:else if}` branch only the fragment right after it is looked at.
pub open spec fn misplaced_fragment_at(n: Node, direct: bool) -> Option<(usize, usize)>
    decreases n, 2int,
{
    match n {
        Node::RegularElement(e) => misplaced_fragment_from(e.fragment, 0, false),
        Node::SvelteFragment(el) => if !direct {
            Some((el.start, el.end))
        } else {
            misplaced_fragment_from(el.fragment, 0, false)
        },
        Node::Component(e) => misplaced_fragment_from(e.fragment, 0, true),
        Node::SvelteComponent(e) => misplaced_fragment_from(e.fragment, 0, true),
        Node::SvelteElement(e) => misplaced_fragment_from(e.fragment, 0, true),
        Node::SlotElement(e) => misplaced_fragment_from(e.fragment, 0, false),
        Node::SvelteHead(e) => misplaced_fragment_from(e.fragment, 0, false),
        Node::SvelteBody(e) => misplaced_fragment_from(e.fragment, 0, false),
        Node::SvelteWindow(e) => misplaced_fragment_from(e.fragment, 0, false),
        Node::SvelteDocument(e) => misplaced_fragment_from(e.fragment, 0, false),
        Node::SvelteSelf(e) => misplaced_fragment_from(e.fragment, 0, false),
        Node::SvelteBoundary(e) => misplaced_fragment_from(e.fragment, 0, false),
        Node::TitleElement(e) => misplaced_fragment_from(e.fragment, 0, false),
        Node::IfBlock(b) => match misplaced_fragment_from(b.consequent, 0, false) {
            Some(r) => Some(r),
            None => match b.alternate {
                Some(alternate) => {
                    proof {
                        assert(decreases_to!(b => b.alternate));
                    }
                    match *alternate {
                        Alternate::Fragment(f) => misplaced_fragment_from(f, 0, false),
                        Alternate::IfBlock(inner) => misplaced_fragment_from(inner.consequent, 0, false),
                    }
                },
                None => None,
            },
        },
        Node::EachBlock(b) => match misplaced_fragment_from(b.body, 0, false) {
            Some(r) => Some(r),
            None => misplaced_fragment_optional(b.fallback),
        },
        Node::AwaitBlock(b) => match misplaced_fragment_optional(b.pending) {
            Some(r) => Some(r),
            None => match misplaced_fragment_optional(b.then_branch) {
                Some(r) => Some(r),
                None => misplaced_fragment_optional(b.catch),
            },
        },
        Node::SnippetBlock(b) => misplaced_fragment_from(b.body, 0, false),
        Node::KeyBlock(b) => misplaced_fragment_from(b.fragment, 0, false),
        _ => None,
    }
}

fn misplaced_fragment_in_fragment(f: &Fragment, direct: bool) -> (r: Option<(usize, usize)>)
    ensures
        r == misplaced_fragment_from(*f, 0, direct),
    decreases f, 3nat,
{
    let mut i: usize = 0;
    while i < f.nodes.len()
        invariant
            i <= f.nodes@.len(),
            misplaced_fragment_from(*f, 0, direct) == misplaced_fragment_from(*f, i as int, direct),
        decreases f.nodes.len() - i,
    {
        proof {
            assert(decreases_to!(f => f.nodes));
            assert(decreases_to!(f.nodes => f.nodes@));
            assert(decreases_to!(f.nodes@ => f.nodes@[i as int]));
        }
        if let Some(r) = misplaced_fragment_in_node(&f.nodes[i], direct) {
            return Some(r);
        }
        i += 1;
    }
    None
}

fn misplaced_fragment_in_optional(f: &Option<Fragment>) -> (r: Option<(usize, usize)>)
    ensures
        r == misplaced_fragment_optional(*f),
    decreases f, 4nat,
{
    match f {
        Some(fr) => misplaced_fragment_in_fragment(fr, false),
        None => None,
    }
}

fn misplaced_fragment_in_node(n: &Node, direct: bool) -> (r: Option<(usize, usize)>)
    ensures
        r == misplaced_fragment_at(*n, direct),
    decreases n, 5nat,
{
    match n {
        Node::RegularElement(e) => misplaced_fragment_in_fragment(&e.fragment, false),
        Node::SvelteFragment(el) => {
            if !direct {
                Some((el.start, el.end))
            } else {
                misplaced_fragment_in_fragment(&el.fragment, false)
            }
        },
        Node::Component(e) => misplaced_fragment_in_fragment(&e.fragment, true),
        Node::SvelteComponent(e) => misplaced_fragment_in_fragment(&e.fragment, true),
        Node::SvelteElement(e) => misplaced_fragment_in_fragment(&e.fragment, true),
        Node::SlotElement(e) => misplaced_fragment_in_fragment(&e.fragment, false),
        Node::SvelteHead(e) => misplaced_fragment_in_fragment(&e.fragment, false),
        Node::SvelteBody(e) => misplaced_fragment_in_fragment(&e.fragment, false),
        Node::SvelteWindow(e) => misplaced_fragment_in_fragment(&e.fragment, false),
        Node::SvelteDocument(e) => misplaced_fragment_in_fragment(&e.fragment, false),
        Node::SvelteSelf(e) => misplaced_fragment_in_fragment(&e.fragment, false),
        Node::SvelteBoundary(e) => misplaced_fragment_in_fragment(&e.fragment, false),
        Node::TitleElement(e) => misplaced_fragment_in_fragment(&e.fragment, false),
        Node::IfBlock(b) => {
            if let Some(r) = misplaced_fragment_in_fragment(&b.consequent, false) {
                return Some(r);
            }
            match &b.alternate {
                Some(alternate) => {
                    proof {
                        assert(decreases_to!(b => b.alternate));
                    }
                    match &**alternate {
                        Alternate::Fragment(f) => misplaced_fragment_in_fragment(f, false),
                        Alternate::IfBlock(inner) => misplaced_fragment_in_fragment(&inner.consequent, false),
                    }
                },
                None => None,
            }
        },
        Node::EachBlock(b) => {
            if let Some(r) = misplaced_fragment_in_fragment(&b.body, false) {
                return Some(r);
            }
            misplaced_fragment_in_optional(&b.fallback)
        },
        Node::AwaitBlock(b) => {
            if let Some(r) = misplaced_fragment_in_optional(&b.pending) {
                return Some(r);
            }
            if let Some(r) = misplaced_fragment_in_optional(&b.then_branch) {
                return Some(r);
            }
            misplaced_fragment_in_optional(&b.catch)
        },
        Node::SnippetBlock(b) => misplaced_fragment_in_fragment(&b.body, false),
        Node::KeyBlock(b) => misplaced_fragment_in_fragment(&b.fragment, false),
        _ => None,
    }
}

/// The first `<svelte:fragment>` that is not a direct child of a component.
pub open spec fn spec_detect_svelte_fragment_invalid_placement(root: &Root) -> Option<ErrorView> {
    found_error(
        misplaced_fragment_from(root.fragment, 0, false),
        "svelte_fragment_invalid_placement"@,
        "`<svelte:fragment>` must be the direct child of a component"@,
    )
}

/// The first `<svelte:fragment>` that is not a direct child of a component.
pub fn detect_svelte_fragment_invalid_placement(root: &Root) -> (r: Option<CompileError>)
    ensures
        option_error_view(r) == spec_detect_svelte_fragment_invalid_placement(root),
{
    match misplaced_fragment_in_fragment(&root.fragment, false) {
        Some((s, e)) => Some(
            compile_error_custom(
                "svelte_fragment_invalid_placement",
                chars_of("`<svelte:fragment>` must be the direct child of a component"),
                s,
                e,
            ),
        ),
        None => None,
    }
}

// ----- attributes on `<svelte:head>`

/// The range of the first attribute of the first `<svelte:head>` that has one,
/// among `f.nodes[i..]` and below.
pub open spec fn head_attribute_from(f: Fragment, i: int) -> Option<(usize, usize)>
    decreases f, f.nodes@.len() - i,
{
    if 0 <= i < f.nodes@.len() {
        proof {
            assert(decreases_to!(f => f.nodes));
            assert(decreases_to!(f.nodes => f.nodes@));
            assert(decreases_to!(f.nodes@ => f.nodes@[i]));
        }
        match head_attribute_at(f.nodes@[i]) {
            Some(r) => Some(r),
            None => head_attribute_from(f, i + 1),
        }
    } else {
        None
    }
}

/// The first `<svelte:head>` attribute of an optional fragment.
pub open spec fn head_attribute_optional(f: Option<Fragment>) -> Option<(usize, usize)>
    decreases f, 1int,
{
    match f {
        Some(fr) => head_attribute_from(fr, 0),
        None => None,
    }
}

/// The first `<svelte:head>` attribute at a node or below it. Of an
/// `{:else if}` branch only the fragment right after it is looked at.
pub open spec fn head_attribute_at(n: Node) -> Option<(usize, usize)>
    decreases n, 2int,
{
    match n {
        Node::RegularElement(e) => head_attribute_from(e.fragment, 0),
        Node::SvelteHead(el) => if el.attributes@.len() > 0 {
            Some(spec_attribute_span(el.attributes@[0]))
        } else {
            head_attribute_from(el.fragment, 0)
        },
        Node::Component(e) => head_attribute_from(e.fragment, 0),
        Node::SlotElement(e) => head_attribute_from(e.fragment, 0),
        Node::SvelteBody(e) => head_attribute_from(e.fragment, 0),
        Node::SvelteWindow(e) => head_attribute_from(e.fragment, 0),
        Node::SvelteDocument(e) => head_attribute_from(e.fragment, 0),
        Node::SvelteComponent(e) => head_attribute_from(e.fragment, 0),
        Node::SvelteElement(e) => head_attribute_from(e.fragment, 0),
        Node::SvelteSelf(e) => head_attribute_from(e.fragment, 0),
        Node::SvelteFragment(e) => head_attribute_from(e.fragment, 0),
        Node::SvelteBoundary(e) => head_attribute_from(e.fragment, 0),
        Node::TitleElement(e) => head_attribute_from(e.fragment, 0),
        Node::IfBlock(b) => match head_attribute_from(b.consequent, 0) {
            Some(r) => Some(r),
            None => match b.alternate {
                Some(alternate) => {
                    proof {
                        assert(decreases_to!(b => b.alternate));
                    }
                    match *alternate {
                        Alternate::Fragment(f) => head_attribute_from(f, 0),
                        Alternate::IfBlock(inner) => head_attribute_from(inner.consequent, 0),
                    }
                },
                None => None,
            },
        },
        Node::EachBlock(b) => match head_attribute_from(b.body, 0) {
            Some(r) => Some(r),
            None => head_attribute_optional(b.fallback),
        },
        Node::AwaitBlock(b) => match head_attribute_optional(b.pending) {
            Some(r) => Some(r),
            None => match head_attribute_optional(b.then_branch) {
                Some(r) => Some(r),
                None => head_attribute_optional(b.catch),
            },
        },
        Node::SnippetBlock(b) => head_attribute_from(b.body, 0),
        Node::KeyBlock(b) => head_attribute_from(b.fragment, 0),
        _ => None,
    }
}

fn head_attribute_in_fragment(f: &Fragment) -> (r: Option<(usize, usize)>)
    ensures
        r == head_attribute_from(*f, 0),
    decreases f, 3nat,
{
    let mut i: usize = 0;
    while i < f.nodes.len()
        invariant
            i <= f.nodes@.len(),
            head_attribute_from(*f, 0) == head_attribute_from(*f, i as int),
        decreases f.nodes.len() - i,
    {
        proof {
            assert(decreases_to!(f => f.nodes));
            assert(decreases_to!(f.nodes => f.nodes@));
            assert(decreases_to!(f.nodes@ => f.nodes@[i as int]));
        }
        if let Some(r) = head_attribute_in_node(&f.nodes[i]) {
            return Some(r);
        }
        i += 1;
    }
    None
}

fn head_attribute_in_optional(f: &Option<Fragment>) -> (r: Option<(usize, usize)>)
    ensures
        r == head_attribute_optional(*f),
    decreases f, 4nat,
{
    match f {
        Some(fr) => head_attribute_in_fragment(fr),
        None => None,
    }
}

fn head_attribute_in_node(n: &Node) -> (r: Option<(usize, usize)>)
    ensures
        r == head_attribute_at(*n),
    decreases n, 5nat,
{
    match n {
        Node::RegularElement(e) => head_attribute_in_fragment(&e.fragment),
        Node::SvelteHead(el) => {
            if el.attributes.len() > 0 {
                Some(attribute_span(&el.attributes[0]))
            } else {
                head_attribute_in_fragment(&el.fragment)
            }
        },
        Node::Component(e) => head_attribute_in_fragment(&e.fragment),
        Node::SlotElement(e) => head_attribute_in_fragment(&e.fragment),
        Node::SvelteBody(e) => head_attribute_in_fragment(&e.fragment),
        Node::SvelteWindow(e) => head_attribute_in_fragment(&e.fragment),
        Node::SvelteDocument(e) => head_attribute_in_fragment(&e.fragment),
        Node::SvelteComponent(e) => head_attribute_in_fragment(&e.fragment),
        Node::SvelteElement(e) => head_attribute_in_fragment(&e.fragment),
        Node::SvelteSelf(e) => head_attribute_in_fragment(&e.fragment),
        Node::SvelteFragment(e) => head_attribute_in_fragment(&e.fragment),
        Node::SvelteBoundary(e) => head_attribute_in_fragment(&e.fragment),
        Node::TitleElement(e) => head_attribute_in_fragment(&e.fragment),
        Node::IfBlock(b) => {
            if let Some(r) = head_attribute_in_fragment(&b.consequent) {
                return Some(r);
            }
            match &b.alternate {
                Some(alternate) => {
                    proof {
                        assert(decreases_to!(b => b.alternate));
                    }
                    match &**alternate {
                        Alternate::Fragment(f) => head_attribute_in_fragment(f),
                        Alternate::IfBlock(inner) => head_attribute_in_fragment(&inner.consequent),
                    }
                },
                None => None,
            }
        },
        Node::EachBlock(b) => {
            if let Some(r) = head_attribute_in_fragment(&b.body) {
                return Some(r);
            }
            head_attribute_in_optional(&b.fallback)
        },
        Node::AwaitBlock(b) => {
            if let Some(r) = head_attribute_in_optional(&b.pending) {
                return Some(r);
            }
            if let Some(r) = head_attribute_in_optional(&b.then_branch) {
                return Some(r);
            }
            head_attribute_in_optional(&b.catch)
        },
        Node::SnippetBlock(b) => head_attribute_in_fragment(&b.body),
        Node::KeyBlock(b) => head_attribute_in_fragment(&b.fragment),
        _ => None,
    }
}

/// The first attribute or directive written on a `<svelte:head>`.
pub open spec fn spec_detect_svelte_head_illegal_attribute(root: &Root) -> Option<ErrorView> {
    found_error(
        head_attribute_from(root.fragment, 0),
        "svelte_head_illegal_attribute"@,
        "`<svelte:head>` cannot have attributes nor directives"@,
    )
}

/// The first attribute or directive written on a `<svelte:head>`.
pub fn detect_svelte_head_illegal_attribute(root: &Root) -> (r: Option<CompileError>)
    ensures
        option_error_view(r) == spec_detect_svelte_head_illegal_attribute(root),
{
    match head_attribute_in_fragment(&root.fragment) {
        Some((s, e)) => Some(
            compile_error_custom(
                "svelte_head_illegal_attribute",
                chars_of("`<svelte:head>` cannot have attributes nor directives"),
                s,
                e,
            ),
        ),
        None => None,
    }
}

// ----- `<svelte:options>` values

/// The namespaces `<svelte:options namespace>` accepts.
pub open spec fn spec_valid_namespace(text: Seq<char>) -> bool {
    text == "html"@ || text == "mathml"@ || text == "svg"@ || text == "http://www.w3.org/1998/Math/MathML"@
        || text == "http://www.w3.org/2000/svg"@
}

/// `<svelte:options namespace>` accepts exactly `html`, `mathml`, `svg` and
/// the MathML and SVG namespace URIs, written as plain text.
pub proof fn lemma_namespace_values(text: Seq<char>)
    ensures
        spec_valid_namespace("html"@),
        spec_valid_namespace("mathml"@),
        spec_valid_namespace("svg"@),
        spec_valid_namespace("http://www.w3.org/1998/Math/MathML"@),
        spec_valid_namespace("http://www.w3.org/2000/svg"@),
        spec_valid_namespace(text) ==> text == "html"@ || text == "mathml"@ || text == "svg"@ || text
            == "http://www.w3.org/1998/Math/MathML"@ || text == "http://www.w3.org/2000/svg"@,
{
}

/// The range of the first `namespace` attribute among `attrs[i..]` whose
/// value is not one of the accepted namespaces written as plain text.
pub open spec fn invalid_namespace_from(attrs: Seq<Attribute>, i: int) -> Option<(usize, usize)>
    decreases attrs.len() - i,
{
    if i < 0 || i >= attrs.len() {
        None
    } else {
        match attrs[i] {
            Attribute::Attribute(a) => if a.name@ == "namespace"@ && !(spec_static_text(a.value) matches Some(t)
                && spec_valid_namespace(t)) {
                Some((a.start, a.end))
            } else {
                invalid_namespace_from(attrs, i + 1)
            },
            _ => invalid_namespace_from(attrs, i + 1),
        }
    }
}

fn is_valid_namespace(text: &[char]) -> (r: bool)
    ensures
        r == spec_valid_namespace(text@),
{
    text_is(text, "html") || text_is(text, "mathml") || text_is(text, "svg") || text_is(
        text,
        "http://www.w3.org/1998/Math/MathML",
    ) || text_is(text, "http://www.w3.org/2000/svg")
}

/// The error for the first `namespace` attribute among `attrs` that is not an accepted namespace.
fn invalid_namespace_in(attrs: &Vec<Attribute>) -> (r: Option<CompileError>)
    ensures
        option_error_view(r) == found_error(
            invalid_namespace_from(attrs@, 0),
            "svelte_options_invalid_attribute_value"@,
            "Value must be \"html\", \"mathml\" or \"svg\", if specified"@,
        ),
{
    let mut i: usize = 0;
    while i < attrs.len()
        invariant
            i <= attrs@.len(),
            invalid_namespace_from(attrs@, 0) == invalid_namespace_from(attrs@, i as int),
        decreases attrs.len() - i,
    {
        if let Attribute::Attribute(a) = &attrs[i] {
            if text_is(a.name.as_slice(), "namespace") {
                let valid = match attribute_static_text(&a.value) {
                    Some(t) => is_valid_namespace(t.as_slice()),
                    None => false,
                };
                if !valid {
                    return Some(
                        compile_error_custom(
                            "svelte_options_invalid_attribute_value",
                            chars_of("Value must be \"html\", \"mathml\" or \"svg\", if specified"),
                            a.start,
                            a.end,
                        ),
                    );
                }
            }
        }
        i += 1;
    }
    None
}

/// The error for a `namespace` option that is not an accepted namespace.
pub open spec fn spec_detect_svelte_options_invalid_namespace(root: &Root) -> Option<ErrorView> {
    match root.options {
        Some(o) => found_error(
            invalid_namespace_from(o.attributes@, 0),
            "svelte_options_invalid_attribute_value"@,
            "Value must be \"html\", \"mathml\" or \"svg\", if specified"@,
        ),
        None => None,
    }
}

/// The error for a `namespace` option that is not an accepted namespace.
pub fn detect_svelte_options_invalid_namespace(root: &Root) -> (r: Option<CompileError>)
    ensures
        option_error_view(r) == spec_detect_svelte_options_invalid_namespace(root),
{
    match &root.options {
        Some(o) => invalid_namespace_in(&o.attributes),
        None => None,
    }
}

/// Whether a custom element tag name holds a hyphen and no white space or upper-case letter.
pub open spec fn spec_valid_custom_element_tag(name: Seq<char>) -> bool {
    name.contains('-') && forall|k: int| 0 <= k < name.len() ==> !crate::css_parser::spec_is_white_space(
        #[trigger] name[k],
    ) && !crate::names::unicode_uppercase(name[k])
}

/// The custom element tag names that are reserved.
pub open spec fn spec_reserved_custom_element_tag(name: Seq<char>) -> bool {
    name == "annotation-xml"@ || name == "color-profile"@ || name == "font-face"@ || name == "font-face-src"@
        || name == "font-face-uri"@ || name == "font-face-format"@ || name == "font-face-name"@ || name
        == "missing-glyph"@
}

fn is_valid_custom_element_tag(name: &[char]) -> (r: bool)
    ensures
        r == spec_valid_custom_element_tag(name@),
{
    let mut hyphen = false;
    let mut k: usize = 0;
    while k < name.len()
        invariant
            k <= name@.len(),
            hyphen == exists|j: int| 0 <= j < k && #[trigger] name@[j] == '-',
            forall|j: int| 0 <= j < k ==> !crate::css_parser::spec_is_white_space(#[trigger] name@[j])
                && !crate::names::unicode_uppercase(name@[j]),
        decreases name.len() - k,
    {
        let c = name[k];
        if crate::css_parser::is_white_space(c) || crate::names::char_is_uppercase(c) {
            return false;
        }
        if c == '-' {
            hyphen = true;
        }
        k += 1;
    }
    hyphen
}

fn is_reserved_custom_element_tag(name: &[char]) -> (r: bool)
    ensures
        r == spec_reserved_custom_element_tag(name@),
{
    text_is(name, "annotation-xml") || text_is(name, "color-profile") || text_is(name, "font-face") || text_is(
        name,
        "font-face-src",
    ) || text_is(name, "font-face-uri") || text_is(name, "font-face-format") || text_is(name, "font-face-name")
        || text_is(name, "missing-glyph")
}

/// What a `customElement` option that is neither a name nor an object is reported with.
pub open spec fn invalid_custom_element_message() -> Seq<char> {
    "\"customElement\" must be a string literal defining a valid custom element name or an object of the form { tag?: string; shadow?: \"open\" | \"none\" | `ShadowRootInit`; props?: { [key: string]: { attribute?: string; reflect?: boolean; type: .. } } }"@
}

/// The first problem among the `customElement` attributes `attrs[i..]`:
/// a value that is neither plain text nor an object, a tag name without a
/// hyphen or with white space or upper case, or a reserved tag name.
pub open spec fn custom_element_option_error(attrs: Seq<Attribute>, i: int) -> Option<ErrorView>
    decreases attrs.len() - i,
{
    if i < 0 || i >= attrs.len() {
        None
    } else {
        match attrs[i] {
            Attribute::Attribute(a) => if a.name@ != "customElement"@ {
                custom_element_option_error(attrs, i + 1)
            } else {
                let invalid = Some(
                    (
                        "svelte_options_invalid_customelement"@,
                        invalid_custom_element_message(),
                        a.start as int,
                        a.end as int,
                    ),
                );
                match a.value {
                    AttributeValueList::ExpressionTag(tag) => if spec_type_is(tag.expression.0, "ObjectExpression"@) {
                        custom_element_option_error(attrs, i + 1)
                    } else {
                        invalid
                    },
                    AttributeValueList::Boolean(_) => invalid,
                    AttributeValueList::Values(_) => match spec_static_text(a.value) {
                        Some(tag) => if !spec_valid_custom_element_tag(tag) {
                            Some(
                                (
                                    "svelte_options_invalid_tagname"@,
                                    "Tag name must be lowercase and hyphenated"@,
                                    a.start as int,
                                    a.end as int,
                                ),
                            )
                        } else if spec_reserved_custom_element_tag(tag) {
                            Some(("svelte_options_reserved_tagname"@, "Tag name is reserved"@, a.start as int, a.end as int))
                        } else {
                            custom_element_option_error(attrs, i + 1)
                        },
                        None => invalid,
                    },
                }
            },
            _ => custom_element_option_error(attrs, i + 1),
        }
    }
}

fn invalid_custom_element_at(a: &NamedAttribute) -> (e: CompileError)
    ensures
        error_view(e) == (
            "svelte_options_invalid_customelement"@,
            invalid_custom_element_message(),
            a.start as int,
            a.end as int,
        ),
{
    compile_error_custom(
        "svelte_options_invalid_customelement",
        chars_of(
            "\"customElement\" must be a string literal defining a valid custom element name or an object of the form { tag?: string; shadow?: \"open\" | \"none\" | `ShadowRootInit`; props?: { [key: string]: { attribute?: string; reflect?: boolean; type: .. } } }",
        ),
        a.start,
        a.end,
    )
}

/// The first problem among the `customElement` attributes of `attrs`.
fn custom_element_option_in(attrs: &Vec<Attribute>) -> (r: Option<CompileError>)
    ensures
        option_error_view(r) == custom_element_option_error(attrs@, 0),
{
    let mut i: usize = 0;
    while i < attrs.len()
        invariant
            i <= attrs@.len(),
            custom_element_option_error(attrs@, 0) == custom_element_option_error(attrs@, i as int),
        decreases attrs.len() - i,
    {
        if let Attribute::Attribute(a) = &attrs[i] {
            if text_is(a.name.as_slice(), "customElement") {
                match &a.value {
                    AttributeValueList::ExpressionTag(tag) => {
                        if !type_is(&tag.expression.0, "ObjectExpression") {
                            return Some(invalid_custom_element_at(a));
                        }
                    },
                    AttributeValueList::Boolean(_) => {
                        return Some(invalid_custom_element_at(a));
                    },
                    AttributeValueList::Values(_) => match attribute_static_text(&a.value) {
                        Some(tag) => {
                            if !is_valid_custom_element_tag(tag.as_slice()) {
                                return Some(
                                    compile_error_custom(
                                        "svelte_options_invalid_tagname",
                                        chars_of("Tag name must be lowercase and hyphenated"),
                                        a.start,
                                        a.end,
                                    ),
                                );
                            }
                            if is_reserved_custom_element_tag(tag.as_slice()) {
                                return Some(
                                    compile_error_custom(
                                        "svelte_options_reserved_tagname",
                                        chars_of("Tag name is reserved"),
                                        a.start,
                                        a.end,
                                    ),
                                );
                            }
                        },
                        None => {
                            return Some(invalid_custom_element_at(a));
                        },
                    },
                }
            }
        }
        i += 1;
    }
    None
}

/// The first problem with the `customElement` option of a component.
pub open spec fn spec_detect_svelte_options_invalid_custom_element(root: &Root) -> Option<ErrorView> {
    match root.options {
        Some(o) => custom_element_option_error(o.attributes@, 0),
        None => None,
    }
}

/// The first problem with the `customElement` option of a component.
pub fn detect_svelte_options_invalid_custom_element(root: &Root) -> (r: Option<CompileError>)
    ensures
        option_error_view(r) == spec_detect_svelte_options_invalid_custom_element(root),
{
    match &root.options {
        Some(o) => custom_element_option_in(&o.attributes),
        None => None,
    }
}

} // verus!
