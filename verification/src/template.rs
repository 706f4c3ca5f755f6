//! Checks of the template that the compiler reports as errors: the recorded
//! syntax errors, names of tags and attributes, attribute syntax, duplicate
//! attributes, `svelte:` meta elements and `{@debug}` tags.
use vstd::prelude::*;

use crate::ast::{
    AttrErrorKind, Attribute, AttributeValueList, DebugTag, Entry, Fragment, NameLocation, NamedAttribute,
    Node, ParseError, ParseErrorKind, Root, Search,
};
use crate::diagnostics::{
    compile_error_custom, compile_error_with_range, error_view, kind_error_view, option_error_view, CompileError,
    CompilerDiagnosticKind, ErrorView,
};
use crate::estree::{field_str, node_span, type_is, RawField};
use crate::names::{is_known_svelte_name, is_valid_component_name, is_valid_element_name, spec_known_svelte_name};
use crate::parse::is_void_element_name;
use crate::text::{chars_of, push_chars, push_str, slice_chars, spec_at, starts_with};

verus! {

/// `prefix`, then `middle`, then `suffix`, as one message.
pub fn message3(prefix: &str, middle: &[char], suffix: &str) -> (m: Vec<char>)
    ensures
        m@ == prefix@ + middle@ + suffix@,
{
    let mut m = chars_of(prefix);
    push_chars(&mut m, middle);
    push_str(&mut m, suffix);
    m
}

/// The code of the error that a recorded syntax error is reported as.
pub open spec fn parse_error_code(kind: ParseErrorKind) -> &'static str {
    match kind {
        ParseErrorKind::BlockInvalidContinuationPlacement => "block_invalid_continuation_placement",
        ParseErrorKind::BlockUnexpectedCharacter => "block_unexpected_character",
        ParseErrorKind::ExpectedTokenElse => "expected_token",
        ParseErrorKind::ExpectedTokenAwaitBranch => "expected_token",
        ParseErrorKind::ExpectedTokenCommentClose => "expected_token",
        ParseErrorKind::ExpectedTokenStyleClose => "expected_token",
        ParseErrorKind::ExpectedTokenRightBrace => "expected_token",
        ParseErrorKind::ExpectedWhitespace => "expected_whitespace",
        ParseErrorKind::CssExpectedIdentifier => "css_expected_identifier",
        ParseErrorKind::UnexpectedEof => "unexpected_eof",
        ParseErrorKind::BlockUnclosed => "block_unclosed",
        ParseErrorKind::BlockUnexpectedClose => "block_unexpected_close",
        ParseErrorKind::UnexpectedReservedWord { .. } => "unexpected_reserved_word",
        ParseErrorKind::JsParseError { .. } => "js_parse_error",
        ParseErrorKind::ElementUnclosed { .. } => "element_unclosed",
        ParseErrorKind::ElementInvalidClosingTag { name } => if crate::parse::spec_void_element_name(name@) {
            "void_element_invalid_content"
        } else {
            "element_invalid_closing_tag"
        },
        ParseErrorKind::ElementInvalidClosingTagAutoclosed { .. } => "element_invalid_closing_tag_autoclosed",
    }
}

/// The message of the error that a recorded syntax error is reported as.
pub open spec fn parse_error_message(kind: ParseErrorKind) -> Seq<char> {
    match kind {
        ParseErrorKind::BlockInvalidContinuationPlacement => CompilerDiagnosticKind::BlockInvalidContinuationPlacement.spec_message()@,
        ParseErrorKind::BlockUnexpectedCharacter => "Expected a `#` character immediately following the opening bracket"@,
        ParseErrorKind::ExpectedTokenElse => CompilerDiagnosticKind::ExpectedTokenElse.spec_message()@,
        ParseErrorKind::ExpectedTokenAwaitBranch => CompilerDiagnosticKind::ExpectedTokenAwaitBranch.spec_message()@,
        ParseErrorKind::ExpectedTokenCommentClose => CompilerDiagnosticKind::ExpectedTokenCommentClose.spec_message()@,
        ParseErrorKind::ExpectedTokenStyleClose => CompilerDiagnosticKind::ExpectedTokenStyleClose.spec_message()@,
        ParseErrorKind::ExpectedTokenRightBrace => CompilerDiagnosticKind::ExpectedTokenRightBrace.spec_message()@,
        ParseErrorKind::ExpectedWhitespace => CompilerDiagnosticKind::ExpectedWhitespace.spec_message()@,
        ParseErrorKind::CssExpectedIdentifier => CompilerDiagnosticKind::CssExpectedIdentifier.spec_message()@,
        ParseErrorKind::UnexpectedEof => CompilerDiagnosticKind::UnexpectedEof.spec_message()@,
        ParseErrorKind::BlockUnclosed => CompilerDiagnosticKind::BlockUnclosed.spec_message()@,
        ParseErrorKind::BlockUnexpectedClose => CompilerDiagnosticKind::BlockUnexpectedClose.spec_message()@,
        ParseErrorKind::UnexpectedReservedWord { word } => "'"@ + word@
            + "' is a reserved word in JavaScript and cannot be used here"@,
        ParseErrorKind::JsParseError { message } => message@,
        ParseErrorKind::ElementUnclosed { name } => "`<"@ + name@ + ">` was left open"@,
        ParseErrorKind::ElementInvalidClosingTag { name } => if crate::parse::spec_void_element_name(name@) {
            CompilerDiagnosticKind::VoidElementInvalidContent.spec_message()@
        } else {
            "`</"@ + name@ + ">` attempted to close an element that was not open"@
        },
        ParseErrorKind::ElementInvalidClosingTagAutoclosed { name, reason } => "`</"@ + name@
            + ">` attempted to close element that was already automatically closed by `<"@ + reason@
            + ">` (cannot nest `<"@ + reason@ + ">` inside `<"@ + name@ + ">`)"@,
    }
}

/// The error that a recorded syntax error is reported as, as plain values;
/// `None` for a `{ #if}` with a space after the brace outside runes mode.
pub open spec fn spec_parse_error(error: ParseError, runes_mode: bool) -> Option<ErrorView> {
    if error.kind is BlockUnexpectedCharacter && !runes_mode {
        None
    } else {
        Some((parse_error_code(error.kind)@, parse_error_message(error.kind), error.start as int, error.end as int))
    }
}

/// The error that a recorded syntax error is reported as. A `{ #if}` with a
/// space after the brace is reported only in runes mode.
pub fn parse_error(error: &ParseError, runes_mode: bool) -> (r: Option<CompileError>)
    ensures
        r is None <==> (error.kind is BlockUnexpectedCharacter && !runes_mode),
        r matches Some(e) ==> e.code == parse_error_code(error.kind) && e.start == error.start && e.end
            == error.end,
        option_error_view(r) == spec_parse_error(*error, runes_mode),
{
    let kind = match &error.kind {
        ParseErrorKind::BlockInvalidContinuationPlacement => CompilerDiagnosticKind::BlockInvalidContinuationPlacement,
        ParseErrorKind::ExpectedTokenElse => CompilerDiagnosticKind::ExpectedTokenElse,
        ParseErrorKind::ExpectedTokenAwaitBranch => CompilerDiagnosticKind::ExpectedTokenAwaitBranch,
        ParseErrorKind::ExpectedTokenCommentClose => CompilerDiagnosticKind::ExpectedTokenCommentClose,
        ParseErrorKind::ExpectedTokenStyleClose => CompilerDiagnosticKind::ExpectedTokenStyleClose,
        ParseErrorKind::ExpectedTokenRightBrace => CompilerDiagnosticKind::ExpectedTokenRightBrace,
        ParseErrorKind::ExpectedWhitespace => CompilerDiagnosticKind::ExpectedWhitespace,
        ParseErrorKind::BlockUnexpectedCharacter => {
            if !runes_mode {
                return None;
            }
            return Some(
                compile_error_custom(
                    "block_unexpected_character",
                    chars_of("Expected a `#` character immediately following the opening bracket"),
                    error.start,
                    error.end,
                ),
            );
        },
        ParseErrorKind::UnexpectedReservedWord { word } => {
            return Some(
                compile_error_custom(
                    "unexpected_reserved_word",
                    message3("'", word.as_slice(), "' is a reserved word in JavaScript and cannot be used here"),
                    error.start,
                    error.end,
                ),
            );
        },
        ParseErrorKind::JsParseError { message } => {
            return Some(
                compile_error_custom("js_parse_error", crate::text::copy_chars(message.as_slice()), error.start, error.end),
            );
        },
        ParseErrorKind::CssExpectedIdentifier => CompilerDiagnosticKind::CssExpectedIdentifier,
        ParseErrorKind::UnexpectedEof => CompilerDiagnosticKind::UnexpectedEof,
        ParseErrorKind::BlockUnclosed => CompilerDiagnosticKind::BlockUnclosed,
        ParseErrorKind::BlockUnexpectedClose => CompilerDiagnosticKind::BlockUnexpectedClose,
        ParseErrorKind::ElementUnclosed { name } => {
            return Some(
                compile_error_custom("element_unclosed", message3("`<", name.as_slice(), ">` was left open"), error.start, error.end),
            );
        },
        ParseErrorKind::ElementInvalidClosingTag { name } => {
            if is_void_element_name(name.as_slice()) {
                return Some(
                    compile_error_with_range(CompilerDiagnosticKind::VoidElementInvalidContent, error.start, error.end),
                );
            }
            return Some(
                compile_error_custom(
                    "element_invalid_closing_tag",
                    message3("`</", name.as_slice(), ">` attempted to close an element that was not open"),
                    error.start,
                    error.end,
                ),
            );
        },
        ParseErrorKind::ElementInvalidClosingTagAutoclosed { name, reason } => {
            let mut m = message3("`</", name.as_slice(), ">` attempted to close element that was already automatically closed by `<");
            push_chars(&mut m, reason.as_slice());
            push_str(&mut m, ">` (cannot nest `<");
            push_chars(&mut m, reason.as_slice());
            push_str(&mut m, ">` inside `<");
            push_chars(&mut m, name.as_slice());
            push_str(&mut m, ">`)");
            return Some(compile_error_custom("element_invalid_closing_tag_autoclosed", m, error.start, error.end));
        },
    };
    Some(compile_error_with_range(kind, error.start, error.end))
}

/// The index of the first recorded error satisfying `kind_matches`, if any.
fn first_error_of_kind(errors: &Vec<ParseError>, continuation: bool) -> (r: Option<usize>)
    ensures
        r matches Some(i) ==> i < errors@.len() && (if continuation {
            errors@[i as int].kind is BlockInvalidContinuationPlacement
        } else {
            errors@[i as int].kind is BlockUnexpectedCharacter
        }),
        r matches Some(i) ==> forall|j: int|
            0 <= j < i ==> !(if continuation {
                errors@[j].kind is BlockInvalidContinuationPlacement
            } else {
                errors@[j].kind is BlockUnexpectedCharacter
            }),
        r is None ==> forall|j: int|
            0 <= j < errors@.len() ==> !(if continuation {
                errors@[j].kind is BlockInvalidContinuationPlacement
            } else {
                errors@[j].kind is BlockUnexpectedCharacter
            }),
        first_of_kind_from(errors@, 0, continuation) == match r {
            Some(i) => Some(i as int),
            None => None,
        },
{
    let mut i: usize = 0;
    while i < errors.len()
        invariant
            i <= errors@.len(),
            forall|j: int|
                0 <= j < i ==> !(if continuation {
                    errors@[j].kind is BlockInvalidContinuationPlacement
                } else {
                    errors@[j].kind is BlockUnexpectedCharacter
                }),
            first_of_kind_from(errors@, 0, continuation) == first_of_kind_from(errors@, i as int, continuation),
        decreases errors.len() - i,
    {
        let hit = match &errors[i].kind {
            ParseErrorKind::BlockInvalidContinuationPlacement => continuation,
            ParseErrorKind::BlockUnexpectedCharacter => !continuation,
            _ => false,
        };
        if hit {
            return Some(i);
        }
        i += 1;
    }
    None
}

/// Whether a recorded error is a misplaced continuation (`continuation`) or
/// an unexpected character after an opening brace (otherwise).
pub open spec fn error_of_kind(error: ParseError, continuation: bool) -> bool {
    if continuation {
        error.kind is BlockInvalidContinuationPlacement
    } else {
        error.kind is BlockUnexpectedCharacter
    }
}

/// The index of the first error among `errors[i..]` of the given kind.
pub open spec fn first_of_kind_from(errors: Seq<ParseError>, i: int, continuation: bool) -> Option<int>
    decreases errors.len() - i,
{
    if i < 0 || i >= errors.len() {
        None
    } else if error_of_kind(errors[i], continuation) {
        Some(i)
    } else {
        first_of_kind_from(errors, i + 1, continuation)
    }
}

/// The first error among `errors[i..]` that is reported.
pub open spec fn first_reported_from(errors: Seq<ParseError>, i: int, runes_mode: bool) -> Option<ErrorView>
    decreases errors.len() - i,
{
    if i < 0 || i >= errors.len() {
        None
    } else if spec_parse_error(errors[i], runes_mode) is Some {
        spec_parse_error(errors[i], runes_mode)
    } else {
        first_reported_from(errors, i + 1, runes_mode)
    }
}

/// The syntax error that a template's recorded errors are reported as: the
/// first misplaced continuation; else, where some opening brace is followed
/// by an unexpected character, the first such error in runes mode and none
/// outside it; else the first error that is reported.
pub open spec fn spec_root_parse_error(errors: Seq<ParseError>, runes_mode: bool) -> Option<ErrorView> {
    match first_of_kind_from(errors, 0, true) {
        Some(i) => spec_parse_error(errors[i], runes_mode),
        None => match first_of_kind_from(errors, 0, false) {
            Some(i) => if runes_mode {
                spec_parse_error(errors[i], true)
            } else {
                None
            },
            None => first_reported_from(errors, 0, runes_mode),
        },
    }
}

/// The error reported for the syntax errors recorded while reading: a
/// misplaced `{:...}` first; then, where a `{ #...}` with a space was met, that
/// one in runes mode and none in legacy mode; else the first recorded error.
pub fn detect_parse_error_from_root(root: &Root, runes_mode: bool) -> (r: Option<CompileError>)
    ensures
        option_error_view(r) == spec_root_parse_error(root.errors@, runes_mode),
        root.errors@.len() == 0 ==> r is None,
        (root.errors@.len() > 0 && (forall|i: int|
            0 <= i < root.errors@.len() ==> !(#[trigger] root.errors@[i].kind is BlockUnexpectedCharacter))) ==> r is Some,
        r matches Some(e) ==> exists|i: int|
            0 <= i < root.errors@.len() && e.code == parse_error_code(#[trigger] root.errors@[i].kind) && e.start
                == root.errors@[i].start,
{
    if let Some(i) = first_error_of_kind(&root.errors, true) {
        return parse_error(&root.errors[i], runes_mode);
    }
    if let Some(i) = first_error_of_kind(&root.errors, false) {
        if !runes_mode {
            return None;
        }
        return parse_error(&root.errors[i], true);
    }
    let mut i: usize = 0;
    while i < root.errors.len()
        invariant
            i == 0,
            forall|j: int| 0 <= j < root.errors@.len() ==> !(#[trigger] root.errors@[j].kind is BlockUnexpectedCharacter),
            first_of_kind_from(root.errors@, 0, true) is None,
            first_of_kind_from(root.errors@, 0, false) is None,
        decreases root.errors.len() - i,
    {
        let reported = parse_error(&root.errors[i], runes_mode);
        if reported.is_some() {
            proof {
                assert(first_reported_from(root.errors@, 0, runes_mode) == spec_parse_error(root.errors@[0], runes_mode));
            }
            return reported;
        }
        i += 1;
    }
    None
}

/// The source range of a name.
pub fn name_range(name: &NameLocation) -> (r: (usize, usize))
    ensures
        r == (name.start.character, name.end.character),
{
    (name.start.character, name.end.character)
}

/// The range of the name of an element or component entry whose name is not valid as such.
pub open spec fn spec_invalid_tag_name(entry: Entry) -> Option<(usize, usize)> {
    match entry {
        Entry::Node(Node::RegularElement(e)) => if !crate::names::spec_valid_element_name(e.name@) {
            Some((e.name_loc.start.character, e.name_loc.end.character))
        } else {
            None
        },
        Entry::Node(Node::Component(c)) => if !crate::names::spec_valid_component_name(c.name@) {
            Some((c.name_loc.start.character, c.name_loc.end.character))
        } else {
            None
        },
        _ => None,
    }
}

/// The name of an element or component that is not valid as such, by its range.
fn invalid_tag_name_range(entry: Entry<'_>) -> (r: Option<(usize, usize)>)
    ensures
        r == spec_invalid_tag_name(entry),
{
    match entry {
        Entry::Node(Node::RegularElement(element)) => {
            if !is_valid_element_name(element.name.as_slice()) {
                Some(name_range(&element.name_loc))
            } else {
                None
            }
        },
        Entry::Node(Node::Component(component)) => {
            if !is_valid_component_name(component.name.as_slice()) {
                Some(name_range(&component.name_loc))
            } else {
                None
            }
        },
        _ => None,
    }
}

/// The first element or component, in document order, whose name is not valid.
pub open spec fn spec_detect_tag_invalid_name(root: &Root) -> Option<ErrorView> {
    crate::placement::found_error(
        crate::placement::first_in_template(root, |e: Entry| spec_invalid_tag_name(e)),
        CompilerDiagnosticKind::TagInvalidName.spec_code()@,
        CompilerDiagnosticKind::TagInvalidName.spec_message()@,
    )
}

/// The first element or component, in document order, whose name is not valid.
pub fn detect_tag_invalid_name(root: &Root) -> (r: Option<CompileError>)
    ensures
        option_error_view(r) == spec_detect_tag_invalid_name(root),
{
    match root.fragment.find_map_as(invalid_tag_name_range, Ghost(|e: Entry| spec_invalid_tag_name(e))) {
        Some((start, end)) => Some(compile_error_with_range(CompilerDiagnosticKind::TagInvalidName, start, end)),
        None => None,
    }
}

/// Whether every character of `data` is Unicode white space.
pub open spec fn spec_blank(data: Seq<char>) -> bool {
    forall|k: int| 0 <= k < data.len() ==> crate::css_parser::spec_is_white_space(#[trigger] data[k])
}

/// Whether every character of `data` is Unicode white space.
pub fn is_blank(data: &[char]) -> (r: bool)
    ensures
        r == spec_blank(data@),
{
    let mut i: usize = 0;
    while i < data.len()
        invariant
            i <= data@.len(),
            forall|k: int| 0 <= k < i ==> crate::css_parser::spec_is_white_space(#[trigger] data@[k]),
        decreases data.len() - i,
    {
        if !crate::css_parser::is_white_space(data[i]) {
            return false;
        }
        i += 1;
    }
    true
}

/// Whether a node is text made of white space alone.
pub open spec fn spec_blank_text(node: Node) -> bool {
    node matches Node::Text(t) && spec_blank(t.data@)
}

/// Whether some node of `nodes` is not blank text.
pub open spec fn spec_has_content(nodes: Seq<Node>) -> bool {
    exists|k: int| 0 <= k < nodes.len() && !spec_blank_text(#[trigger] nodes[k])
}

/// The range of the first node of `nodes[i..]` that is not blank text.
pub open spec fn first_content_range(nodes: Seq<Node>, i: int) -> Option<(usize, usize)>
    decreases nodes.len() - i,
{
    if 0 <= i < nodes.len() {
        if spec_blank_text(nodes[i]) {
            first_content_range(nodes, i + 1)
        } else {
            Some(crate::ast::spec_node_span(&nodes[i]))
        }
    } else {
        None
    }
}

/// The range of the first node of `fragment` that is not blank text.
pub fn first_non_whitespace_fragment_range(fragment: &Fragment) -> (r: Option<(usize, usize)>)
    ensures
        r == first_content_range(fragment.nodes@, 0),
        r is Some <==> spec_has_content(fragment.nodes@),
        r matches Some((s, e)) ==> exists|k: int|
            0 <= k < fragment.nodes@.len() && !spec_blank_text(#[trigger] fragment.nodes@[k])
                && (forall|j: int| 0 <= j < k ==> spec_blank_text(#[trigger] fragment.nodes@[j]))
                && crate::ast::spec_node_span(&fragment.nodes@[k]) == (s, e),
{
    let mut i: usize = 0;
    while i < fragment.nodes.len()
        invariant
            i <= fragment.nodes@.len(),
            forall|k: int| 0 <= k < i ==> spec_blank_text(#[trigger] fragment.nodes@[k]),
            first_content_range(fragment.nodes@, 0) == first_content_range(fragment.nodes@, i as int),
        decreases fragment.nodes.len() - i,
    {
        match &fragment.nodes[i] {
            Node::Text(text) => {
                if !is_blank(text.data.as_slice()) {
                    return Some((text.start, text.end));
                }
            },
            node => {
                return Some((node.start(), node.end()));
            },
        }
        i += 1;
    }
    None
}

/// The `svelte:` meta elements that may stand once, at the top level.
#[derive(Clone, Copy, PartialEq, Eq, Structural)]
pub enum SvelteMetaKind {
    Head,
    Window,
    Document,
    Body,
}

/// How many of each meta element a scan has met.
pub struct SvelteMetaScanState {
    pub head_count: usize,
    pub window_count: usize,
    pub document_count: usize,
    pub body_count: usize,
}

impl SvelteMetaScanState {
    /// The state of a scan that has met none yet.
    pub open spec fn empty() -> Self {
        SvelteMetaScanState { head_count: 0, window_count: 0, document_count: 0, body_count: 0 }
    }

    /// A scan that has met none yet.
    pub fn new() -> (s: Self)
        ensures
            s == Self::empty(),
    {
        SvelteMetaScanState { head_count: 0, window_count: 0, document_count: 0, body_count: 0 }
    }

    /// How many elements of `kind` were met.
    pub open spec fn count_of(&self, kind: SvelteMetaKind) -> usize {
        match kind {
            SvelteMetaKind::Head => self.head_count,
            SvelteMetaKind::Window => self.window_count,
            SvelteMetaKind::Document => self.document_count,
            SvelteMetaKind::Body => self.body_count,
        }
    }
}

/// The name of a meta element of `kind`.
pub open spec fn spec_meta_element_name(kind: SvelteMetaKind) -> &'static str {
    match kind {
        SvelteMetaKind::Head => "svelte:head",
        SvelteMetaKind::Window => "svelte:window",
        SvelteMetaKind::Document => "svelte:document",
        SvelteMetaKind::Body => "svelte:body",
    }
}

/// The name of a meta element of `kind`.
pub fn meta_element_name(kind: SvelteMetaKind) -> (r: &'static str)
    ensures
        r == spec_meta_element_name(kind),
{
    match kind {
        SvelteMetaKind::Head => "svelte:head",
        SvelteMetaKind::Window => "svelte:window",
        SvelteMetaKind::Document => "svelte:document",
        SvelteMetaKind::Body => "svelte:body",
    }
}

/// The error for content inside a meta element named `name`, at `start..end`.
pub open spec fn meta_content_view(name: Seq<char>, start: int, end: int) -> ErrorView {
    ("svelte_meta_invalid_content"@, "<"@ + name + "> cannot have children"@, start, end)
}

/// The error for content inside a meta element named `name`, at `start..end`.
pub fn meta_invalid_content_error(name: &str, start: usize, end: usize) -> (e: CompileError)
    ensures
        error_view(e) == meta_content_view(name@, start as int, end as int),
{
    let mut m = chars_of("<");
    push_str(&mut m, name);
    push_str(&mut m, "> cannot have children");
    compile_error_custom("svelte_meta_invalid_content", m, start, end)
}

/// The scan state with one more element of `kind`, saturating.
pub open spec fn counted(state: SvelteMetaScanState, kind: SvelteMetaKind) -> SvelteMetaScanState {
    let next = |n: usize| if n < usize::MAX { (n + 1) as usize } else { n };
    match kind {
        SvelteMetaKind::Head => SvelteMetaScanState { head_count: next(state.head_count), ..state },
        SvelteMetaKind::Window => SvelteMetaScanState { window_count: next(state.window_count), ..state },
        SvelteMetaKind::Document => SvelteMetaScanState { document_count: next(state.document_count), ..state },
        SvelteMetaKind::Body => SvelteMetaScanState { body_count: next(state.body_count), ..state },
    }
}

/// The check of a meta element of `kind` at `start` holding `fragment`,
/// and the state after it: misplaced below an element or a block, else
/// counted, then repeated, then (but for `svelte:head`) not empty.
pub open spec fn root_meta_step(
    kind: SvelteMetaKind,
    start: int,
    fragment: Fragment,
    state: SvelteMetaScanState,
    element_depth: int,
    block_depth: int,
) -> (Option<ErrorView>, SvelteMetaScanState) {
    if element_depth > 0 || block_depth > 0 {
        (Some(kind_error_view(CompilerDiagnosticKind::SvelteMetaInvalidPlacement, start, start)), state)
    } else if state.count_of(kind) >= 1 {
        (Some(kind_error_view(CompilerDiagnosticKind::SvelteMetaDuplicate, start, start)), counted(state, kind))
    } else if kind != SvelteMetaKind::Head {
        match first_content_range(fragment.nodes@, 0) {
            Some((s, e)) => (
                Some(meta_content_view(spec_meta_element_name(kind)@, s as int, e as int)),
                counted(state, kind),
            ),
            None => (None, counted(state, kind)),
        }
    } else {
        (None, counted(state, kind))
    }
}

/// Checks a meta element of `kind` at `start`: it must stand at the top
/// level, once, and (but for `svelte:head`) be empty. Counts it.
pub fn scan_root_meta(
    kind: SvelteMetaKind,
    start: usize,
    fragment: &Fragment,
    state: &mut SvelteMetaScanState,
    element_depth: usize,
    block_depth: usize,
) -> (r: Option<CompileError>)
    ensures
        (option_error_view(r), *final(state)) == root_meta_step(
            kind,
            start as int,
            *fragment,
            *old(state),
            element_depth as int,
            block_depth as int,
        ),
{
    if element_depth > 0 || block_depth > 0 {
        return Some(compile_error_with_range(CompilerDiagnosticKind::SvelteMetaInvalidPlacement, start, start));
    }
    let previous = match kind {
        SvelteMetaKind::Head => state.head_count,
        SvelteMetaKind::Window => state.window_count,
        SvelteMetaKind::Document => state.document_count,
        SvelteMetaKind::Body => state.body_count,
    };
    let next = if previous < usize::MAX { previous + 1 } else { previous };
    match kind {
        SvelteMetaKind::Head => state.head_count = next,
        SvelteMetaKind::Window => state.window_count = next,
        SvelteMetaKind::Document => state.document_count = next,
        SvelteMetaKind::Body => state.body_count = next,
    }
    if previous >= 1 {
        return Some(compile_error_with_range(CompilerDiagnosticKind::SvelteMetaDuplicate, start, start));
    }
    if kind != SvelteMetaKind::Head {
        if let Some((s, e)) = first_non_whitespace_fragment_range(fragment) {
            return Some(meta_invalid_content_error(meta_element_name(kind), s, e));
        }
    }
    None
}

/// One more level of nesting, saturating.
pub open spec fn spec_deeper(depth: int) -> int {
    if depth < usize::MAX {
        depth + 1
    } else {
        depth
    }
}

/// The first meta error among `f.nodes[i..]` and their descendants, and the
/// state after the scan, from `state`.
pub open spec fn meta_scan_from(f: Fragment, i: int, ed: int, bd: int, state: SvelteMetaScanState) -> (
    Option<ErrorView>,
    SvelteMetaScanState,
)
    decreases f, f.nodes@.len() - i,
{
    if 0 <= i < f.nodes@.len() {
        proof {
            assert(decreases_to!(f => f.nodes));
            assert(decreases_to!(f.nodes => f.nodes@));
            assert(decreases_to!(f.nodes@ => f.nodes@[i]));
        }
        let (r, s1) = meta_scan_at(f.nodes@[i], ed, bd, state);
        if r is Some {
            (r, s1)
        } else {
            meta_scan_from(f, i + 1, ed, bd, s1)
        }
    } else {
        (None, state)
    }
}

/// Scans the fragments `a` then `b` (each optional), stopping at an error.
pub open spec fn meta_scan_optional(f: Option<Fragment>, ed: int, bd: int, state: SvelteMetaScanState) -> (
    Option<ErrorView>,
    SvelteMetaScanState,
)
    decreases f, 1int,
{
    match f {
        Some(fr) => meta_scan_from(fr, 0, ed, bd, state),
        None => (None, state),
    }
}

/// The meta scan of a node: a meta element is checked, then its content
/// scanned one element deeper; an element named `svelte:` with an unknown
/// name is refused; blocks are scanned one block deeper.
pub open spec fn meta_scan_at(node: Node, ed: int, bd: int, state: SvelteMetaScanState) -> (
    Option<ErrorView>,
    SvelteMetaScanState,
)
    decreases node, 3int,
{
    match node {
        Node::RegularElement(e) => if spec_at(e.name@, 0, "svelte:"@) && !spec_known_svelte_name(
            e.name@.subrange(7, e.name@.len() as int),
        ) {
            (
                Some(
                    kind_error_view(
                        CompilerDiagnosticKind::SvelteMetaInvalidTag,
                        e.name_loc.start.character as int,
                        e.name_loc.end.character as int,
                    ),
                ),
                state,
            )
        } else {
            meta_scan_from(e.fragment, 0, spec_deeper(ed), bd, state)
        },
        Node::SvelteHead(e) => meta_scan_element(SvelteMetaKind::Head, e.start as int, e.fragment, ed, bd, state),
        Node::SvelteWindow(e) => meta_scan_element(SvelteMetaKind::Window, e.start as int, e.fragment, ed, bd, state),
        Node::SvelteDocument(e) => meta_scan_element(
            SvelteMetaKind::Document,
            e.start as int,
            e.fragment,
            ed,
            bd,
            state,
        ),
        Node::SvelteBody(e) => meta_scan_element(SvelteMetaKind::Body, e.start as int, e.fragment, ed, bd, state),
        Node::Component(e) => meta_scan_from(e.fragment, 0, spec_deeper(ed), bd, state),
        Node::SlotElement(e) => meta_scan_from(e.fragment, 0, spec_deeper(ed), bd, state),
        Node::IfBlock(b) => meta_scan_if(b, ed, bd, state),
        Node::EachBlock(b) => {
            let (r, s1) = meta_scan_from(b.body, 0, ed, spec_deeper(bd), state);
            if r is Some {
                (r, s1)
            } else {
                meta_scan_optional(b.fallback, ed, spec_deeper(bd), s1)
            }
        },
        Node::AwaitBlock(b) => {
            let (r1, s1) = meta_scan_optional(b.pending, ed, spec_deeper(bd), state);
            if r1 is Some {
                (r1, s1)
            } else {
                let (r2, s2) = meta_scan_optional(b.then_branch, ed, spec_deeper(bd), s1);
                if r2 is Some {
                    (r2, s2)
                } else {
                    meta_scan_optional(b.catch, ed, spec_deeper(bd), s2)
                }
            }
        },
        Node::SnippetBlock(b) => meta_scan_from(b.body, 0, ed, spec_deeper(bd), state),
        Node::KeyBlock(b) => meta_scan_from(b.fragment, 0, ed, spec_deeper(bd), state),
        _ => (None, state),
    }
}

/// A meta element: checked where it stands, then its content scanned one
/// element deeper.
pub open spec fn meta_scan_element(
    kind: SvelteMetaKind,
    start: int,
    f: Fragment,
    ed: int,
    bd: int,
    state: SvelteMetaScanState,
) -> (Option<ErrorView>, SvelteMetaScanState)
    decreases f, f.nodes@.len() + 1,
{
    let (r, s1) = root_meta_step(kind, start, f, state, ed, bd);
    if r is Some {
        (r, s1)
    } else {
        meta_scan_from(f, 0, spec_deeper(ed), bd, s1)
    }
}

/// The meta scan of an `{#if}` block: its branches are one block deeper.
pub open spec fn meta_scan_if(b: crate::ast::IfBlock, ed: int, bd: int, state: SvelteMetaScanState) -> (
    Option<ErrorView>,
    SvelteMetaScanState,
)
    decreases b, 0int,
{
    let (r, s1) = meta_scan_from(b.consequent, 0, ed, spec_deeper(bd), state);
    if r is Some {
        (r, s1)
    } else {
        match b.alternate {
            Some(alternate) => {
                proof {
                    assert(decreases_to!(b => b.alternate));
                }
                match *alternate {
                    crate::ast::Alternate::Fragment(f) => meta_scan_from(f, 0, ed, spec_deeper(bd), s1),
                    crate::ast::Alternate::IfBlock(inner) => meta_scan_if(inner, ed, spec_deeper(bd), s1),
                }
            },
            None => (None, s1),
        }
    }
}

/// Scans the nodes of `fragment` for misplaced, repeated or unknown meta elements.
pub fn scan_modern_fragment_for_svelte_meta(
    fragment: &Fragment,
    element_depth: usize,
    block_depth: usize,
    state: &mut SvelteMetaScanState,
) -> (r: Option<CompileError>)
    ensures
        (option_error_view(r), *final(state)) == meta_scan_from(
            *fragment,
            0,
            element_depth as int,
            block_depth as int,
            *old(state),
        ),
    decreases fragment, 3nat,
{
    let mut i: usize = 0;
    while i < fragment.nodes.len()
        invariant
            i <= fragment.nodes@.len(),
            meta_scan_from(*fragment, 0, element_depth as int, block_depth as int, *old(state)) == meta_scan_from(
                *fragment,
                i as int,
                element_depth as int,
                block_depth as int,
                *state,
            ),
        decreases fragment.nodes.len() - i,
    {
        proof {
            assert(decreases_to!(fragment => fragment.nodes));
            assert(decreases_to!(fragment.nodes => fragment.nodes@));
            assert(decreases_to!(fragment.nodes@ => fragment.nodes@[i as int]));
        }
        if let Some(e) = scan_modern_node_for_svelte_meta(&fragment.nodes[i], element_depth, block_depth, state) {
            return Some(e);
        }
        i += 1;
    }
    None
}

/// One more level of nesting, saturating.
fn deeper(depth: usize) -> (r: usize)
    ensures
        r == spec_deeper(depth as int),
{
    if depth < usize::MAX { depth + 1 } else { depth }
}

/// Scans an optional fragment.
fn scan_optional_for_svelte_meta(
    fragment: &Option<Fragment>,
    element_depth: usize,
    block_depth: usize,
    state: &mut SvelteMetaScanState,
) -> (r: Option<CompileError>)
    ensures
        (option_error_view(r), *final(state)) == meta_scan_optional(
            *fragment,
            element_depth as int,
            block_depth as int,
            *old(state),
        ),
    decreases fragment, 4nat,
{
    match fragment {
        Some(f) => scan_modern_fragment_for_svelte_meta(f, element_depth, block_depth, state),
        None => None,
    }
}

/// Scans a meta element: checks it where it stands, then its content.
fn scan_meta_element(
    kind: SvelteMetaKind,
    start: usize,
    fragment: &Fragment,
    element_depth: usize,
    block_depth: usize,
    state: &mut SvelteMetaScanState,
) -> (r: Option<CompileError>)
    ensures
        (option_error_view(r), *final(state)) == meta_scan_element(
            kind,
            start as int,
            *fragment,
            element_depth as int,
            block_depth as int,
            *old(state),
        ),
    decreases fragment, 4nat,
{
    if let Some(e) = scan_root_meta(kind, start, fragment, state, element_depth, block_depth) {
        return Some(e);
    }
    scan_modern_fragment_for_svelte_meta(fragment, deeper(element_depth), block_depth, state)
}

/// Scans a node: meta elements are checked where they stand, `svelte:`
/// elements of unknown names are refused, and the scan goes on into children.
pub fn scan_modern_node_for_svelte_meta(
    node: &Node,
    element_depth: usize,
    block_depth: usize,
    state: &mut SvelteMetaScanState,
) -> (r: Option<CompileError>)
    ensures
        (option_error_view(r), *final(state)) == meta_scan_at(
            *node,
            element_depth as int,
            block_depth as int,
            *old(state),
        ),
    decreases node, 3nat,
{
    let ed = deeper(element_depth);
    let bd = deeper(block_depth);
    match node {
        Node::RegularElement(element) => {
            if starts_with(element.name.as_slice(), "svelte:") {
                proof {
                    reveal_strlit("svelte:");
                }
                let local = slice_chars(element.name.as_slice(), 7, element.name.len());
                if !is_known_svelte_name(local.as_slice()) {
                    let (s, e) = name_range(&element.name_loc);
                    return Some(compile_error_with_range(CompilerDiagnosticKind::SvelteMetaInvalidTag, s, e));
                }
            }
            scan_modern_fragment_for_svelte_meta(&element.fragment, ed, block_depth, state)
        },
        Node::SvelteHead(element) => scan_meta_element(SvelteMetaKind::Head, element.start, &element.fragment, element_depth, block_depth, state),
        Node::SvelteWindow(element) => scan_meta_element(SvelteMetaKind::Window, element.start, &element.fragment, element_depth, block_depth, state),
        Node::SvelteDocument(element) => scan_meta_element(SvelteMetaKind::Document, element.start, &element.fragment, element_depth, block_depth, state),
        Node::SvelteBody(element) => scan_meta_element(SvelteMetaKind::Body, element.start, &element.fragment, element_depth, block_depth, state),
        Node::Component(component) => scan_modern_fragment_for_svelte_meta(&component.fragment, ed, block_depth, state),
        Node::SlotElement(slot) => scan_modern_fragment_for_svelte_meta(&slot.fragment, ed, block_depth, state),
        Node::IfBlock(block) => scan_modern_if_block_for_svelte_meta(block, element_depth, block_depth, state),
        Node::EachBlock(block) => {
            if let Some(e) = scan_modern_fragment_for_svelte_meta(&block.body, element_depth, bd, state) {
                return Some(e);
            }
            scan_optional_for_svelte_meta(&block.fallback, element_depth, bd, state)
        },
        Node::AwaitBlock(block) => {
            if let Some(e) = scan_optional_for_svelte_meta(&block.pending, element_depth, bd, state) {
                return Some(e);
            }
            if let Some(e) = scan_optional_for_svelte_meta(&block.then_branch, element_depth, bd, state) {
                return Some(e);
            }
            scan_optional_for_svelte_meta(&block.catch, element_depth, bd, state)
        },
        Node::SnippetBlock(block) => scan_modern_fragment_for_svelte_meta(&block.body, element_depth, bd, state),
        Node::KeyBlock(block) => scan_modern_fragment_for_svelte_meta(&block.fragment, element_depth, bd, state),
        _ => None,
    }
}

/// Scans an `{#if}` block: its branches are one block deeper.
pub fn scan_modern_if_block_for_svelte_meta(
    block: &crate::ast::IfBlock,
    element_depth: usize,
    block_depth: usize,
    state: &mut SvelteMetaScanState,
) -> (r: Option<CompileError>)
    ensures
        (option_error_view(r), *final(state)) == meta_scan_if(
            *block,
            element_depth as int,
            block_depth as int,
            *old(state),
        ),
    decreases block, 1nat,
{
    let bd = deeper(block_depth);
    if let Some(e) = scan_modern_fragment_for_svelte_meta(&block.consequent, element_depth, bd, state) {
        return Some(e);
    }
    match &block.alternate {
        Some(alternate) => {
            proof {
                assert(decreases_to!(block => block.alternate));
            }
            match &**alternate {
                crate::ast::Alternate::Fragment(f) => scan_modern_fragment_for_svelte_meta(f, element_depth, bd, state),
                crate::ast::Alternate::IfBlock(inner) => scan_modern_if_block_for_svelte_meta(inner, element_depth, bd, state),
            }
        },
        None => None,
    }
}

/// Errors of the meta elements: content inside `<svelte:options>`, then
/// the first misplaced, repeated, non-empty or unknown `svelte:` element.
pub open spec fn spec_detect_svelte_meta_structure_errors(root: &Root) -> Option<ErrorView> {
    match root.options {
        Some(o) => match first_content_range(o.fragment.nodes@, 0) {
            Some((s, e)) => Some(meta_content_view("svelte:options"@, s as int, e as int)),
            None => meta_scan_from(root.fragment, 0, 0, 0, SvelteMetaScanState::empty()).0,
        },
        None => meta_scan_from(root.fragment, 0, 0, 0, SvelteMetaScanState::empty()).0,
    }
}

/// Errors of the meta elements: content inside `<svelte:options>`, then
/// the first misplaced, repeated, non-empty or unknown `svelte:` element.
pub fn detect_svelte_meta_structure_errors(root: &Root) -> (r: Option<CompileError>)
    ensures
        option_error_view(r) == spec_detect_svelte_meta_structure_errors(root),
{
    if let Some(options) = &root.options {
        if let Some((s, e)) = first_non_whitespace_fragment_range(&options.fragment) {
            return Some(meta_invalid_content_error("svelte:options", s, e));
        }
    }
    let mut state = SvelteMetaScanState::new();
    scan_modern_fragment_for_svelte_meta(&root.fragment, 0, 0, &mut state)
}

/// The fragment an element node holds.
pub fn element_fragment(node: &Node) -> (r: Option<&Fragment>)
    ensures
        r matches Some(f) ==> decreases_to!(*node => *f),
        r == match crate::ast::spec_element(node) {
            Some(el) => Some(el.fragment),
            None => None,
        },
{
    match node {
        Node::RegularElement(e) => Some(&e.fragment),
        Node::Component(e) => Some(&e.fragment),
        Node::SlotElement(e) => Some(&e.fragment),
        Node::SvelteHead(e) => Some(&e.fragment),
        Node::SvelteBody(e) => Some(&e.fragment),
        Node::SvelteWindow(e) => Some(&e.fragment),
        Node::SvelteDocument(e) => Some(&e.fragment),
        Node::SvelteComponent(e) => Some(&e.fragment),
        Node::SvelteElement(e) => Some(&e.fragment),
        Node::SvelteSelf(e) => Some(&e.fragment),
        Node::SvelteFragment(e) => Some(&e.fragment),
        Node::SvelteBoundary(e) => Some(&e.fragment),
        Node::TitleElement(e) => Some(&e.fragment),
        _ => None,
    }
}

/// The start and end of an attribute.
pub fn attribute_span(attribute: &Attribute) -> (r: (usize, usize))
    ensures
        r == crate::template::spec_attribute_span(*attribute),
{
    match attribute {
        Attribute::Attribute(a) => (a.start, a.end),
        Attribute::SpreadAttribute(a) => (a.start, a.end),
        Attribute::BindDirective(a) => (a.start, a.end),
        Attribute::ClassDirective(a) => (a.start, a.end),
        Attribute::StyleDirective(a) => (a.start, a.end),
        Attribute::LetDirective(a) => (a.start, a.end),
        Attribute::OnDirective(a) => (a.start, a.end),
        Attribute::AnimateDirective(a) => (a.start, a.end),
        Attribute::UseDirective(a) => (a.start, a.end),
        Attribute::TransitionDirective(a) => (a.start, a.end),
        Attribute::AttachTag(a) => (a.start, a.end),
    }
}

/// The start and end of an attribute.
pub open spec fn spec_attribute_span(attribute: Attribute) -> (usize, usize) {
    match attribute {
        Attribute::Attribute(a) => (a.start, a.end),
        Attribute::SpreadAttribute(a) => (a.start, a.end),
        Attribute::BindDirective(a) => (a.start, a.end),
        Attribute::ClassDirective(a) => (a.start, a.end),
        Attribute::StyleDirective(a) => (a.start, a.end),
        Attribute::LetDirective(a) => (a.start, a.end),
        Attribute::OnDirective(a) => (a.start, a.end),
        Attribute::AnimateDirective(a) => (a.start, a.end),
        Attribute::UseDirective(a) => (a.start, a.end),
        Attribute::TransitionDirective(a) => (a.start, a.end),
        Attribute::AttachTag(a) => (a.start, a.end),
    }
}

/// The code of the error for an attribute that could not be read.
pub open spec fn attr_error_code(kind: AttrErrorKind) -> &'static str {
    match kind {
        AttrErrorKind::InvalidName => "attribute_invalid_name",
        AttrErrorKind::ExpectedEquals => "expected_token",
        AttrErrorKind::ExpectedValue => "expected_attribute_value",
        AttrErrorKind::HtmlTag => "tag_invalid_placement",
        AttrErrorKind::Block { .. } => "block_invalid_placement",
    }
}

/// The error an attribute that could not be read is reported with.
pub open spec fn attribute_syntax_error(a: NamedAttribute, err: crate::ast::AttrError) -> ErrorView {
    let (code, message) = match err.kind {
        AttrErrorKind::InvalidName => ("attribute_invalid_name"@, "'"@ + a.name@ + "' is not a valid attribute name"@),
        AttrErrorKind::ExpectedEquals => ("expected_token"@, "Expected token ="@),
        AttrErrorKind::ExpectedValue => (
            CompilerDiagnosticKind::ExpectedAttributeValue.spec_code()@,
            CompilerDiagnosticKind::ExpectedAttributeValue.spec_message()@,
        ),
        AttrErrorKind::HtmlTag => ("tag_invalid_placement"@, "{@html ...} tag cannot be in attribute value"@),
        AttrErrorKind::Block { name } => (
            "block_invalid_placement"@,
            "{#"@ + name@ + " ...} block cannot be in attribute value"@,
        ),
    };
    (code, message, err.start as int, err.end as int)
}

/// The error for the first attribute among `attrs[i..]` that could not be read.
pub open spec fn attribute_syntax_from(attrs: Seq<Attribute>, i: int) -> Option<ErrorView>
    decreases attrs.len() - i,
{
    if i < 0 || i >= attrs.len() {
        None
    } else {
        match attrs[i] {
            Attribute::Attribute(a) => match a.error {
                Some(err) => Some(attribute_syntax_error(a, err)),
                None => attribute_syntax_from(attrs, i + 1),
            },
            _ => attribute_syntax_from(attrs, i + 1),
        }
    }
}

/// The error for the first attribute among `attributes` that could not be read.
pub fn detect_attribute_syntax_in_attributes(attributes: &Vec<Attribute>) -> (r: Option<CompileError>)
    ensures
        option_error_view(r) == attribute_syntax_from(attributes@, 0),
{
    let mut i: usize = 0;
    while i < attributes.len()
        invariant
            i <= attributes@.len(),
            attribute_syntax_from(attributes@, 0) == attribute_syntax_from(attributes@, i as int),
        decreases attributes.len() - i,
    {
        if let Attribute::Attribute(attribute) = &attributes[i] {
            if let Some(error) = &attribute.error {
                let e = match &error.kind {
                    AttrErrorKind::InvalidName => compile_error_custom(
                        "attribute_invalid_name",
                        message3("'", attribute.name.as_slice(), "' is not a valid attribute name"),
                        error.start,
                        error.end,
                    ),
                    AttrErrorKind::ExpectedEquals => compile_error_custom(
                        "expected_token",
                        chars_of("Expected token ="),
                        error.start,
                        error.end,
                    ),
                    AttrErrorKind::ExpectedValue => compile_error_with_range(
                        CompilerDiagnosticKind::ExpectedAttributeValue,
                        error.start,
                        error.end,
                    ),
                    AttrErrorKind::HtmlTag => compile_error_custom(
                        "tag_invalid_placement",
                        chars_of("{@html ...} tag cannot be in attribute value"),
                        error.start,
                        error.end,
                    ),
                    AttrErrorKind::Block { name } => compile_error_custom(
                        "block_invalid_placement",
                        message3("{#", name.as_slice(), " ...} block cannot be in attribute value"),
                        error.start,
                        error.end,
                    ),
                };
                return Some(e);
            }
        }
        i += 1;
    }
    None
}

/// What the attribute-syntax check does at an entry: elements, components and
/// The attributes of the first element, component or slot among an entry
/// that has an attribute that could not be read; the search goes through
/// blocks and does not look inside other elements.
pub open spec fn spec_attribute_syntax_visit<'a>(entry: Entry<'a>) -> Search<&'a Vec<Attribute>> {
    match entry {
        Entry::Node(Node::RegularElement(e)) => if attribute_syntax_from(e.attributes@, 0) is Some {
            Search::Found(&e.attributes)
        } else {
            Search::Continue
        },
        Entry::Node(Node::Component(e)) => if attribute_syntax_from(e.attributes@, 0) is Some {
            Search::Found(&e.attributes)
        } else {
            Search::Continue
        },
        Entry::Node(Node::SlotElement(e)) => if attribute_syntax_from(e.attributes@, 0) is Some {
            Search::Found(&e.attributes)
        } else {
            Search::Continue
        },
        Entry::Node(Node::IfBlock(_)) | Entry::IfBlock(_) | Entry::Node(Node::EachBlock(_)) | Entry::Node(
            Node::KeyBlock(_),
        ) | Entry::Node(Node::AwaitBlock(_)) | Entry::Node(Node::SnippetBlock(_)) => Search::Continue,
        _ => Search::Skip,
    }
}

fn attribute_syntax_visit(entry: Entry<'_>) -> (r: Search<&Vec<Attribute>>)
    ensures
        r == spec_attribute_syntax_visit(entry),
{
    match entry {
        Entry::Node(Node::RegularElement(e)) => match detect_attribute_syntax_in_attributes(&e.attributes) {
            Some(_) => Search::Found(&e.attributes),
            None => Search::Continue,
        },
        Entry::Node(Node::Component(e)) => match detect_attribute_syntax_in_attributes(&e.attributes) {
            Some(_) => Search::Found(&e.attributes),
            None => Search::Continue,
        },
        Entry::Node(Node::SlotElement(e)) => match detect_attribute_syntax_in_attributes(&e.attributes) {
            Some(_) => Search::Found(&e.attributes),
            None => Search::Continue,
        },
        Entry::Node(Node::IfBlock(_)) | Entry::IfBlock(_) | Entry::Node(Node::EachBlock(_)) | Entry::Node(
            Node::KeyBlock(_),
        ) | Entry::Node(Node::AwaitBlock(_)) | Entry::Node(Node::SnippetBlock(_)) => Search::Continue,
        _ => Search::Skip,
    }
}

/// The error for the first attribute, in document order, that could not be read.
pub open spec fn spec_detect_attribute_syntax(root: &Root) -> Option<ErrorView> {
    match crate::walk::search_from(&root.fragment, 0, |e: Entry| spec_attribute_syntax_visit(e)) {
        Some(attrs) => attribute_syntax_from(attrs@, 0),
        None => None,
    }
}

/// The error for the first attribute, in document order, that could not be read.
pub fn detect_attribute_syntax(root: &Root) -> (r: Option<CompileError>)
    ensures
        option_error_view(r) == spec_detect_attribute_syntax(root),
{
    match root.fragment.search_as(attribute_syntax_visit, Ghost(|e: Entry| spec_attribute_syntax_visit(e))) {
        Some(attrs) => detect_attribute_syntax_in_attributes(attrs),
        None => None,
    }
}

/// A character that no attribute name may hold.
pub open spec fn spec_forbidden_in_attribute_name(c: char) -> bool {
    crate::css_parser::spec_is_white_space(c) || c == '<' || c == '>' || c == '=' || c == '/' || c == '"' || c
        == '\'' || c == '^' || c == '$' || c == '@' || c == '%' || c == '&' || c == '#' || c == '?' || c == '!'
        || c == '|' || c == '(' || c == ')' || c == '[' || c == ']' || c == '{' || c == '}' || c == '*' || c == '+'
        || c == '~' || c == ';'
}

/// Whether `name` may stand as an attribute name: not empty, not starting
/// with a digit, `-` or `.`, and holding no forbidden character.
pub open spec fn spec_valid_attribute_name(name: Seq<char>) -> bool {
    &&& name.len() > 0
    &&& !('0' <= name[0] && name[0] <= '9')
    &&& name[0] != '-'
    &&& name[0] != '.'
    &&& forall|k: int| 0 <= k < name.len() ==> !spec_forbidden_in_attribute_name(#[trigger] name[k])
}

/// Whether `c` may not stand in an attribute name.
fn forbidden_in_attribute_name(c: char) -> (r: bool)
    ensures
        r == spec_forbidden_in_attribute_name(c),
{
    crate::css_parser::is_white_space(c) || c == '<' || c == '>' || c == '=' || c == '/' || c == '"' || c
        == '\'' || c == '^' || c == '$' || c == '@' || c == '%' || c == '&' || c == '#' || c == '?' || c == '!'
        || c == '|' || c == '(' || c == ')' || c == '[' || c == ']' || c == '{' || c == '}' || c == '*' || c == '+'
        || c == '~' || c == ';'
}

/// Whether `name` may stand as an attribute name.
pub fn is_valid_attribute_name(name: &[char]) -> (r: bool)
    ensures
        r == spec_valid_attribute_name(name@),
{
    if name.len() == 0 {
        return false;
    }
    let first = name[0];
    if ('0' <= first && first <= '9') || first == '-' || first == '.' {
        return false;
    }
    let mut i: usize = 0;
    while i < name.len()
        invariant
            i <= name@.len(),
            forall|k: int| 0 <= k < i ==> !spec_forbidden_in_attribute_name(#[trigger] name@[k]),
        decreases name.len() - i,
    {
        if forbidden_in_attribute_name(name[i]) {
            return false;
        }
        i += 1;
    }
    true
}

/// Whether a named attribute is checked for a valid name: it was read without
/// error and is not the `{name}` shorthand.
pub open spec fn attribute_name_checked(a: NamedAttribute) -> bool {
    a.error is None && !(a.name@.len() == 0 && a.value is ExpressionTag)
}

/// The error for the first named attribute among `attrs[i..]` whose name is
/// checked and not valid.
pub open spec fn invalid_attribute_name_from(attrs: Seq<Attribute>, i: int) -> Option<ErrorView>
    decreases attrs.len() - i,
{
    if i < 0 || i >= attrs.len() {
        None
    } else {
        match attrs[i] {
            Attribute::Attribute(a) => if attribute_name_checked(a) && !spec_valid_attribute_name(a.name@) {
                Some(
                    (
                        "attribute_invalid_name"@,
                        "'"@ + a.name@ + "' is not a valid attribute name"@,
                        a.start as int,
                        a.end as int,
                    ),
                )
            } else {
                invalid_attribute_name_from(attrs, i + 1)
            },
            _ => invalid_attribute_name_from(attrs, i + 1),
        }
    }
}

/// The error for the first named attribute whose name is not valid.
pub fn detect_attribute_invalid_name_in_attributes(attributes: &Vec<Attribute>) -> (r: Option<CompileError>)
    ensures
        option_error_view(r) == invalid_attribute_name_from(attributes@, 0),
{
    let mut i: usize = 0;
    while i < attributes.len()
        invariant
            i <= attributes@.len(),
            invalid_attribute_name_from(attributes@, 0) == invalid_attribute_name_from(attributes@, i as int),
        decreases attributes.len() - i,
    {
        if let Attribute::Attribute(attribute) = &attributes[i] {
            let shorthand = attribute.name.len() == 0 && match &attribute.value {
                AttributeValueList::ExpressionTag(_) => true,
                _ => false,
            };
            if attribute.error.is_none() && !shorthand && !is_valid_attribute_name(attribute.name.as_slice()) {
                return Some(
                    compile_error_custom(
                        "attribute_invalid_name",
                        message3("'", attribute.name.as_slice(), "' is not a valid attribute name"),
                        attribute.start,
                        attribute.end,
                    ),
                );
            }
        }
        i += 1;
    }
    None
}

/// What the attribute-name check does at an entry: elements and slots have
/// their attributes checked; components and blocks are entered; other nodes
/// The attributes of an element or slot entry that has an attribute whose
/// name is not valid; the search goes through components and blocks and
/// does not look inside other elements.
pub open spec fn spec_attribute_invalid_name_visit<'a>(entry: Entry<'a>) -> Search<&'a Vec<Attribute>> {
    match entry {
        Entry::Node(Node::RegularElement(e)) => if invalid_attribute_name_from(e.attributes@, 0) is Some {
            Search::Found(&e.attributes)
        } else {
            Search::Continue
        },
        Entry::Node(Node::SlotElement(e)) => if invalid_attribute_name_from(e.attributes@, 0) is Some {
            Search::Found(&e.attributes)
        } else {
            Search::Continue
        },
        Entry::Node(Node::Component(_)) | Entry::Node(Node::SvelteComponent(_)) | Entry::Node(Node::SvelteSelf(_))
        | Entry::Node(Node::IfBlock(_)) | Entry::IfBlock(_) | Entry::Node(Node::EachBlock(_)) | Entry::Node(
            Node::KeyBlock(_),
        ) | Entry::Node(Node::AwaitBlock(_)) | Entry::Node(Node::SnippetBlock(_)) => Search::Continue,
        _ => Search::Skip,
    }
}

fn attribute_invalid_name_visit(entry: Entry<'_>) -> (r: Search<&Vec<Attribute>>)
    ensures
        r == spec_attribute_invalid_name_visit(entry),
{
    match entry {
        Entry::Node(Node::RegularElement(e)) => match detect_attribute_invalid_name_in_attributes(&e.attributes) {
            Some(_) => Search::Found(&e.attributes),
            None => Search::Continue,
        },
        Entry::Node(Node::SlotElement(e)) => match detect_attribute_invalid_name_in_attributes(&e.attributes) {
            Some(_) => Search::Found(&e.attributes),
            None => Search::Continue,
        },
        Entry::Node(Node::Component(_)) | Entry::Node(Node::SvelteComponent(_)) | Entry::Node(Node::SvelteSelf(_))
        | Entry::Node(Node::IfBlock(_)) | Entry::IfBlock(_) | Entry::Node(Node::EachBlock(_)) | Entry::Node(
            Node::KeyBlock(_),
        ) | Entry::Node(Node::AwaitBlock(_)) | Entry::Node(Node::SnippetBlock(_)) => Search::Continue,
        _ => Search::Skip,
    }
}

/// The error for the first attribute of an element, in document order, whose name is not valid.
pub open spec fn spec_detect_attribute_invalid_name(root: &Root) -> Option<ErrorView> {
    match crate::walk::search_from(
        &root.fragment,
        0,
        |e: Entry| spec_attribute_invalid_name_visit(e),
    ) {
        Some(attrs) => invalid_attribute_name_from(attrs@, 0),
        None => None,
    }
}

/// The error for the first attribute of an element, in document order, whose name is not valid.
pub fn detect_attribute_invalid_name(root: &Root) -> (r: Option<CompileError>)
    ensures
        option_error_view(r) == spec_detect_attribute_invalid_name(root),
{
    match root.fragment.search_as(attribute_invalid_name_visit, Ghost(|e: Entry| spec_attribute_invalid_name_visit(e))) {
        Some(attrs) => detect_attribute_invalid_name_in_attributes(attrs),
        None => None,
    }
}

/// Where an attribute written as an empty `{}` shorthand starts.
pub open spec fn spec_empty_shorthand_start(attribute: Attribute) -> Option<usize> {
    match attribute {
        Attribute::Attribute(a) => if a.name@.len() == 0 && (a.value matches AttributeValueList::ExpressionTag(tag)
            && crate::consts::spec_str_field(tag.expression.0, "name"@) == Some(Seq::<char>::empty())) {
            Some(a.start)
        } else {
            None
        },
        _ => None,
    }
}

/// The start of an empty `{}` shorthand attribute.
pub fn empty_attribute_shorthand_start(attribute: &Attribute) -> (r: Option<usize>)
    ensures
        r == spec_empty_shorthand_start(*attribute),
{
    match attribute {
        Attribute::Attribute(a) => {
            if a.name.len() != 0 {
                return None;
            }
            match &a.value {
                AttributeValueList::ExpressionTag(tag) => match field_str(&tag.expression.0, RawField::Name) {
                    Some(name) => {
                        if name.len() == 0 {
                            assert(name@ =~= Seq::<char>::empty());
                            Some(a.start)
                        } else {
                            None
                        }
                    },
                    None => None,
                },
                _ => None,
            }
        },
        _ => None,
    }
}

/// Where the first empty shorthand among `attrs[i..]` starts.
pub open spec fn empty_shorthand_from(attrs: Seq<Attribute>, i: int) -> Option<usize>
    decreases attrs.len() - i,
{
    if i < 0 || i >= attrs.len() {
        None
    } else {
        match spec_empty_shorthand_start(attrs[i]) {
            Some(s) => Some(s),
            None => empty_shorthand_from(attrs, i + 1),
        }
    }
}

/// Where the first empty shorthand among the attributes of an element entry starts.
pub open spec fn spec_empty_shorthand_entry(entry: Entry) -> Option<usize> {
    match entry {
        Entry::Node(n) => match crate::ast::spec_element(n) {
            Some(el) => empty_shorthand_from(el.attributes@, 0),
            None => None,
        },
        _ => None,
    }
}

fn empty_shorthand_in_attributes(attrs: &Vec<Attribute>) -> (r: Option<usize>)
    ensures
        r == empty_shorthand_from(attrs@, 0),
{
    let mut i: usize = 0;
    while i < attrs.len()
        invariant
            i <= attrs@.len(),
            empty_shorthand_from(attrs@, 0) == empty_shorthand_from(attrs@, i as int),
        decreases attrs.len() - i,
    {
        if let Some(s) = empty_attribute_shorthand_start(&attrs[i]) {
            return Some(s);
        }
        i += 1;
    }
    None
}

/// The start of the first empty shorthand among the attributes of an element entry.
fn empty_shorthand_in_entry(entry: Entry<'_>) -> (r: Option<usize>)
    ensures
        r == spec_empty_shorthand_entry(entry),
{
    match entry {
        Entry::Node(node) => match node.as_element() {
            Some(el) => empty_shorthand_in_attributes(el.attributes),
            None => None,
        },
        Entry::IfBlock(_) => None,
    }
}

/// The first empty `{}` shorthand attribute, in document order.
pub open spec fn spec_detect_empty_attribute_shorthand(root: &Root) -> Option<ErrorView> {
    match crate::placement::first_in_template(root, |e: Entry| spec_empty_shorthand_entry(e)) {
        Some(s) => Some(
            (
                CompilerDiagnosticKind::AttributeEmptyShorthand.spec_code()@,
                CompilerDiagnosticKind::AttributeEmptyShorthand.spec_message()@,
                s as int,
                s as int,
            ),
        ),
        None => None,
    }
}

/// The first empty `{}` shorthand attribute, in document order.
pub fn detect_empty_attribute_shorthand(root: &Root) -> (r: Option<CompileError>)
    ensures
        option_error_view(r) == spec_detect_empty_attribute_shorthand(root),
{
    match root.fragment.find_map_as(empty_shorthand_in_entry, Ghost(|e: Entry| spec_empty_shorthand_entry(e))) {
        Some(start) => Some(compile_error_with_range(CompilerDiagnosticKind::AttributeEmptyShorthand, start, start)),
        None => None,
    }
}

/// What makes two attributes duplicates of each other: the same name, of a
/// plain attribute or binding, of a class directive, or of a style directive.
#[derive(Clone, Copy, PartialEq, Eq, Structural)]
pub enum AttrKeyKind {
    Named,
    Class,
    Style,
}

/// The duplicate key of an attribute, if it has one.
pub open spec fn spec_attr_key(attribute: Attribute) -> Option<(AttrKeyKind, Seq<char>)> {
    match attribute {
        Attribute::Attribute(a) => Some((AttrKeyKind::Named, a.name@)),
        Attribute::BindDirective(a) => Some((AttrKeyKind::Named, a.name@)),
        Attribute::ClassDirective(a) => Some((AttrKeyKind::Class, a.name@)),
        Attribute::StyleDirective(a) => Some((AttrKeyKind::Style, a.name@)),
        _ => None,
    }
}

/// The duplicate key of an attribute, if it has one.
pub fn attr_key(attribute: &Attribute) -> (r: Option<(AttrKeyKind, &Vec<char>)>)
    ensures
        r is None <==> spec_attr_key(*attribute) is None,
        r matches Some((k, n)) ==> spec_attr_key(*attribute) == Some((k, n@)),
{
    match attribute {
        Attribute::Attribute(a) => Some((AttrKeyKind::Named, &a.name)),
        Attribute::BindDirective(a) => Some((AttrKeyKind::Named, &a.name)),
        Attribute::ClassDirective(a) => Some((AttrKeyKind::Class, &a.name)),
        Attribute::StyleDirective(a) => Some((AttrKeyKind::Style, &a.name)),
        _ => None,
    }
}

/// Whether attribute `j` repeats the key of an earlier attribute.
pub open spec fn repeats_earlier_key(attributes: Seq<Attribute>, j: int) -> bool {
    spec_attr_key(attributes[j]) is Some && exists|i: int|
        0 <= i < j && #[trigger] spec_attr_key(attributes[i]) == spec_attr_key(attributes[j])
}

/// The index of the first attribute among `attrs[j..]` whose key an earlier attribute has.
pub open spec fn first_duplicate_from(attrs: Seq<Attribute>, j: int) -> Option<int>
    decreases attrs.len() - j,
{
    if j < 0 || j >= attrs.len() {
        None
    } else if repeats_earlier_key(attrs, j) {
        Some(j)
    } else {
        first_duplicate_from(attrs, j + 1)
    }
}

/// The error for the first attribute that repeats an earlier one's key.
pub fn duplicate_attribute_error(attributes: &Vec<Attribute>) -> (r: Option<CompileError>)
    ensures
        option_error_view(r) == match first_duplicate_from(attributes@, 0) {
            Some(j) => Some(
                (
                    CompilerDiagnosticKind::AttributeDuplicate.spec_code()@,
                    CompilerDiagnosticKind::AttributeDuplicate.spec_message()@,
                    spec_attribute_span(attributes@[j]).0 as int,
                    spec_attribute_span(attributes@[j]).1 as int,
                ),
            ),
            None => None,
        },
        r is None <==> forall|j: int| 0 <= j < attributes@.len() ==> !repeats_earlier_key(attributes@, j),
        r matches Some(e) ==> e.code == CompilerDiagnosticKind::AttributeDuplicate.code() && exists|j: int|
            #![trigger repeats_earlier_key(attributes@, j)]
            0 <= j < attributes@.len() && repeats_earlier_key(attributes@, j) && (forall|k: int|
                0 <= k < j ==> !repeats_earlier_key(attributes@, k)) && (e.start, e.end) == spec_attribute_span(
                attributes@[j],
            ),
{
    let mut j: usize = 0;
    while j < attributes.len()
        invariant
            j <= attributes@.len(),
            forall|k: int| 0 <= k < j ==> !repeats_earlier_key(attributes@, k),
            first_duplicate_from(attributes@, 0) == first_duplicate_from(attributes@, j as int),
        decreases attributes.len() - j,
    {
        if let Some((kind, name)) = attr_key(&attributes[j]) {
            let mut i: usize = 0;
            while i < j
                invariant
                    i <= j < attributes@.len(),
                    spec_attr_key(attributes@[j as int]) == Some((kind, name@)),
                    forall|k: int| 0 <= k < j ==> !repeats_earlier_key(attributes@, k),
                    first_duplicate_from(attributes@, 0) == first_duplicate_from(attributes@, j as int),
                    forall|m: int| 0 <= m < i ==> #[trigger] spec_attr_key(attributes@[m]) != spec_attr_key(attributes@[j as int]),
                decreases j - i,
            {
                if let Some((k2, n2)) = attr_key(&attributes[i]) {
                    if k2 == kind && crate::text::chars_eq(n2.as_slice(), name.as_slice()) {
                        let (s, e) = attribute_span(&attributes[j]);
                        let err = compile_error_with_range(CompilerDiagnosticKind::AttributeDuplicate, s, e);
                        proof {
                            assert(repeats_earlier_key(attributes@, j as int));
                            assert((err.start, err.end) == spec_attribute_span(attributes@[j as int]));
                            assert(forall|k: int| 0 <= k < j ==> !repeats_earlier_key(attributes@, k));
                        }
                        return Some(err);
                    }
                }
                i += 1;
            }
        }
        j += 1;
    }
    None
}

/// The range of the first attribute of an element entry that repeats an
/// earlier attribute's key.
pub open spec fn spec_duplicate_in_entry(entry: Entry) -> Option<(usize, usize)> {
    match entry {
        Entry::Node(node) => match crate::ast::spec_element(node) {
            Some(el) => match first_duplicate_from(el.attributes@, 0) {
                Some(j) => Some(spec_attribute_span(el.attributes@[j])),
                None => None,
            },
            None => None,
        },
        Entry::IfBlock(_) => None,
    }
}

/// The range of the duplicate attribute of an element entry, if any.
fn duplicate_in_entry(entry: Entry<'_>) -> (r: Option<(usize, usize)>)
    ensures
        r == spec_duplicate_in_entry(entry),
{
    match entry {
        Entry::Node(node) => match node.as_element() {
            Some(el) => match duplicate_attribute_error(el.attributes) {
                Some(e) => Some((e.start, e.end)),
                None => None,
            },
            None => None,
        },
        Entry::IfBlock(_) => None,
    }
}

/// The error for the first element, in document order, with a repeated
/// attribute: at that attribute's range.
pub open spec fn spec_detect_duplicate_attributes(root: &Root) -> Option<ErrorView> {
    match crate::walk::search_from(
        &root.fragment,
        0,
        crate::walk::lift_find(|e: Entry| spec_duplicate_in_entry(e)),
    ) {
        Some((s, e)) => Some(kind_error_view(CompilerDiagnosticKind::AttributeDuplicate, s as int, e as int)),
        None => None,
    }
}

/// The error for the first element, in document order, with a repeated
/// attribute: at that attribute's range.
pub fn detect_duplicate_attributes(root: &Root) -> (r: Option<CompileError>)
    ensures
        option_error_view(r) == spec_detect_duplicate_attributes(root),
{
    match root.fragment.find_map_as(duplicate_in_entry, Ghost(|e: Entry| spec_duplicate_in_entry(e))) {
        Some((s, e)) => Some(compile_error_with_range(CompilerDiagnosticKind::AttributeDuplicate, s, e)),
        None => None,
    }
}

/// The start of the first argument among `args[i..]` that is not an
/// identifier (`tag_start` where it has no range).
pub open spec fn debug_invalid_from(args: Seq<crate::ast::Expression>, i: int, tag_start: usize) -> Option<usize>
    decreases args.len() - i,
{
    if 0 <= i < args.len() {
        if !crate::estree::spec_type_is(args[i].0, "Identifier"@) {
            Some(
                match crate::estree::spec_estree_span(args[i].0) {
                    Some((s, _)) => s as usize,
                    None => tag_start,
                },
            )
        } else {
            debug_invalid_from(args, i + 1, tag_start)
        }
    } else {
        None
    }
}

/// What the `{@debug}` check does at an entry.
pub open spec fn spec_debug_tag_visit(entry: Entry) -> Search<usize> {
    match entry {
        Entry::Node(n) => match *n {
            Node::DebugTag(t) => match debug_invalid_from(t.arguments@, 0, t.start) {
                Some(s) => Search::Found(s),
                None => Search::Continue,
            },
            Node::IfBlock(_) | Node::EachBlock(_) | Node::AwaitBlock(_) | Node::SnippetBlock(_) | Node::KeyBlock(_)
            | Node::RegularElement(_) | Node::Component(_) | Node::SlotElement(_) => Search::Continue,
            _ => Search::Skip,
        },
        Entry::IfBlock(_) => Search::Continue,
    }
}

/// The start of the first argument of a `{@debug}` tag that is not an identifier.
pub fn debug_tag_invalid_argument_start(tag: &DebugTag) -> (r: Option<usize>)
    ensures
        r is None <==> forall|i: int|
            0 <= i < tag.arguments@.len() ==> crate::estree::spec_type_is(#[trigger] tag.arguments@[i].0, "Identifier"@),
        r == debug_invalid_from(tag.arguments@, 0, tag.start),
{
    let mut i: usize = 0;
    while i < tag.arguments.len()
        invariant
            i <= tag.arguments@.len(),
            forall|k: int| 0 <= k < i ==> crate::estree::spec_type_is(#[trigger] tag.arguments@[k].0, "Identifier"@),
            debug_invalid_from(tag.arguments@, i as int, tag.start) == debug_invalid_from(tag.arguments@, 0, tag.start),
        decreases tag.arguments.len() - i,
    {
        if !type_is(&tag.arguments[i].0, "Identifier") {
            let start = match node_span(&tag.arguments[i].0) {
                Some((s, _)) => s,
                None => tag.start,
            };
            return Some(start);
        }
        i += 1;
    }
    None
}

/// What the `{@debug}` check does at an entry: debug tags are checked;
/// blocks, elements, components and slots are entered; other nodes are skipped.
fn debug_tag_visit(entry: Entry<'_>) -> (r: Search<usize>)
    ensures
        r == spec_debug_tag_visit(entry),
{
    match entry {
        Entry::Node(Node::DebugTag(tag)) => match debug_tag_invalid_argument_start(tag) {
            Some(s) => Search::Found(s),
            None => Search::Continue,
        },
        Entry::Node(Node::IfBlock(_)) | Entry::IfBlock(_) | Entry::Node(Node::EachBlock(_)) | Entry::Node(
            Node::AwaitBlock(_),
        ) | Entry::Node(Node::SnippetBlock(_)) | Entry::Node(Node::KeyBlock(_)) | Entry::Node(
            Node::RegularElement(_),
        ) | Entry::Node(Node::Component(_)) | Entry::Node(Node::SlotElement(_)) => Search::Continue,
        _ => Search::Skip,
    }
}

/// The error for the first `{@debug}` tag with an argument that is not an identifier.
pub open spec fn spec_detect_debug_tag_invalid_arguments(root: &Root) -> Option<ErrorView> {
    match crate::walk::search_from(&root.fragment, 0, |e: Entry| spec_debug_tag_visit(e)) {
        Some(start) => Some(kind_error_view(CompilerDiagnosticKind::DebugTagInvalidArguments, start as int, start as int)),
        None => None,
    }
}

/// The error for the first `{@debug}` tag with an argument that is not an identifier.
pub fn detect_debug_tag_invalid_arguments(root: &Root) -> (r: Option<CompileError>)
    ensures
        option_error_view(r) == spec_detect_debug_tag_invalid_arguments(root),
{
    match root.fragment.search_as(debug_tag_visit, Ghost(|e: Entry| spec_debug_tag_visit(e))) {
        Some(start) => Some(compile_error_with_range(CompilerDiagnosticKind::DebugTagInvalidArguments, start, start)),
        None => None,
    }
}

} // verus!
