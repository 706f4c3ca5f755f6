//! Compiler diagnostics: their codes, their messages, and the error value.
use vstd::prelude::*;

verus! {

/// The diagnostics that validation can report, each with a fixed code and message.
#[derive(Debug, Clone, Copy, PartialEq, Eq, Structural)]
pub enum CompilerDiagnosticKind {
    AttributeDuplicate,
    AttributeEmptyShorthand,
    AttributeInvalidSequenceExpression,
    AttributeUnquotedSequence,
    AttributeInvalidName,
    BindInvalidExpression,
    BindInvalidParens,
    BlockInvalidContinuationPlacement,
    BlockUnclosed,
    BlockUnexpectedClose,
    ConstTagInvalidExpression,
    CssExpectedIdentifier,
    CssGlobalBlockInvalidCombinator,
    CssGlobalBlockInvalidDeclaration,
    CssGlobalBlockInvalidList,
    CssGlobalBlockInvalidModifier,
    CssGlobalBlockInvalidModifierStart,
    CssGlobalBlockInvalidPlacement,
    CssGlobalInvalidPlacement,
    CssGlobalInvalidSelector,
    CssGlobalInvalidSelectorList,
    CssNestingSelectorInvalidPlacement,
    CssSelectorInvalid,
    CssTypeSelectorInvalidPlacement,
    DebugTagInvalidArguments,
    EachKeyWithoutAs,
    ExpectedAttributeValue,
    ExpectedTokenAwaitBranch,
    ExpectedTokenCommentClose,
    ExpectedTokenElse,
    ExpectedTokenRightBrace,
    ExpectedTokenRightParen,
    ExpectedTokenStyleClose,
    ExpectedTokenEquals,
    ExpectedWhitespace,
    RenderTagInvalidCallExpression,
    RenderTagInvalidExpression,
    RenderTagInvalidSpreadArgument,
    SlotSnippetConflict,
    SnippetConflict,
    SnippetInvalidRestParameter,
    SnippetParameterAssignment,
    ConstantAssignment,
    SnippetInvalidExport,
    SlotDefaultDuplicate,
    StyleDuplicate,
    SvelteMetaDuplicate,
    SvelteMetaInvalidContent,
    SvelteMetaInvalidPlacement,
    SvelteMetaInvalidTag,
    SvelteWindowInvalidContent,
    SvelteSelfInvalidPlacement,
    TagInvalidName,
    TextareaInvalidContent,
    TitleInvalidContent,
    UnexpectedEof,
    VoidElementInvalidContent,
    ScriptDuplicate,
    ScriptInvalidContext,
    StateInvalidPlacement,
    StateInvalidPlacementDerived,
}

impl CompilerDiagnosticKind {
    /// The diagnostic's code.
    pub open spec fn spec_code(self) -> &'static str {
        match self {
            CompilerDiagnosticKind::AttributeDuplicate => "attribute_duplicate",
            CompilerDiagnosticKind::AttributeEmptyShorthand => "attribute_empty_shorthand",
            CompilerDiagnosticKind::AttributeInvalidSequenceExpression => "attribute_invalid_sequence_expression",
            CompilerDiagnosticKind::AttributeUnquotedSequence => "attribute_unquoted_sequence",
            CompilerDiagnosticKind::AttributeInvalidName => "attribute_invalid_name",
            CompilerDiagnosticKind::BindInvalidExpression => "bind_invalid_expression",
            CompilerDiagnosticKind::BindInvalidParens => "bind_invalid_parens",
            CompilerDiagnosticKind::BlockInvalidContinuationPlacement => "block_invalid_continuation_placement",
            CompilerDiagnosticKind::BlockUnclosed => "block_unclosed",
            CompilerDiagnosticKind::BlockUnexpectedClose => "block_unexpected_close",
            CompilerDiagnosticKind::ConstTagInvalidExpression => "const_tag_invalid_expression",
            CompilerDiagnosticKind::CssExpectedIdentifier => "css_expected_identifier",
            CompilerDiagnosticKind::CssGlobalBlockInvalidCombinator => "css_global_block_invalid_combinator",
            CompilerDiagnosticKind::CssGlobalBlockInvalidDeclaration => "css_global_block_invalid_declaration",
            CompilerDiagnosticKind::CssGlobalBlockInvalidList => "css_global_block_invalid_list",
            CompilerDiagnosticKind::CssGlobalBlockInvalidModifier => "css_global_block_invalid_modifier",
            CompilerDiagnosticKind::CssGlobalBlockInvalidModifierStart => "css_global_block_invalid_modifier_start",
            CompilerDiagnosticKind::CssGlobalBlockInvalidPlacement => "css_global_block_invalid_placement",
            CompilerDiagnosticKind::CssGlobalInvalidPlacement => "css_global_invalid_placement",
            CompilerDiagnosticKind::CssGlobalInvalidSelector => "css_global_invalid_selector",
            CompilerDiagnosticKind::CssGlobalInvalidSelectorList => "css_global_invalid_selector_list",
            CompilerDiagnosticKind::CssNestingSelectorInvalidPlacement => "css_nesting_selector_invalid_placement",
            CompilerDiagnosticKind::CssSelectorInvalid => "css_selector_invalid",
            CompilerDiagnosticKind::CssTypeSelectorInvalidPlacement => "css_type_selector_invalid_placement",
            CompilerDiagnosticKind::DebugTagInvalidArguments => "debug_tag_invalid_arguments",
            CompilerDiagnosticKind::EachKeyWithoutAs => "each_key_without_as",
            CompilerDiagnosticKind::ExpectedAttributeValue => "expected_attribute_value",
            CompilerDiagnosticKind::ExpectedTokenAwaitBranch => "expected_token",
            CompilerDiagnosticKind::ExpectedTokenCommentClose => "expected_token",
            CompilerDiagnosticKind::ExpectedTokenElse => "expected_token",
            CompilerDiagnosticKind::ExpectedTokenRightBrace => "expected_token",
            CompilerDiagnosticKind::ExpectedTokenRightParen => "expected_token",
            CompilerDiagnosticKind::ExpectedTokenStyleClose => "expected_token",
            CompilerDiagnosticKind::ExpectedTokenEquals => "expected_token",
            CompilerDiagnosticKind::ExpectedWhitespace => "expected_whitespace",
            CompilerDiagnosticKind::RenderTagInvalidCallExpression => "render_tag_invalid_call_expression",
            CompilerDiagnosticKind::RenderTagInvalidExpression => "render_tag_invalid_expression",
            CompilerDiagnosticKind::RenderTagInvalidSpreadArgument => "render_tag_invalid_spread_argument",
            CompilerDiagnosticKind::SlotSnippetConflict => "slot_snippet_conflict",
            CompilerDiagnosticKind::SnippetConflict => "snippet_conflict",
            CompilerDiagnosticKind::SnippetInvalidRestParameter => "snippet_invalid_rest_parameter",
            CompilerDiagnosticKind::SnippetParameterAssignment => "snippet_parameter_assignment",
            CompilerDiagnosticKind::ConstantAssignment => "constant_assignment",
            CompilerDiagnosticKind::SnippetInvalidExport => "snippet_invalid_export",
            CompilerDiagnosticKind::SlotDefaultDuplicate => "slot_default_duplicate",
            CompilerDiagnosticKind::StyleDuplicate => "style_duplicate",
            CompilerDiagnosticKind::SvelteMetaDuplicate => "svelte_meta_duplicate",
            CompilerDiagnosticKind::SvelteMetaInvalidContent => "svelte_meta_invalid_content",
            CompilerDiagnosticKind::SvelteMetaInvalidPlacement => "svelte_meta_invalid_placement",
            CompilerDiagnosticKind::SvelteMetaInvalidTag => "svelte_meta_invalid_tag",
            CompilerDiagnosticKind::SvelteWindowInvalidContent => "svelte_meta_invalid_content",
            CompilerDiagnosticKind::SvelteSelfInvalidPlacement => "svelte_self_invalid_placement",
            CompilerDiagnosticKind::TagInvalidName => "tag_invalid_name",
            CompilerDiagnosticKind::TextareaInvalidContent => "textarea_invalid_content",
            CompilerDiagnosticKind::TitleInvalidContent => "title_invalid_content",
            CompilerDiagnosticKind::UnexpectedEof => "unexpected_eof",
            CompilerDiagnosticKind::VoidElementInvalidContent => "void_element_invalid_content",
            CompilerDiagnosticKind::ScriptDuplicate => "script_duplicate",
            CompilerDiagnosticKind::ScriptInvalidContext => "script_invalid_context",
            CompilerDiagnosticKind::StateInvalidPlacement => "state_invalid_placement",
            CompilerDiagnosticKind::StateInvalidPlacementDerived => "state_invalid_placement",
        }
    }

    /// The diagnostic's code.
    #[verifier::when_used_as_spec(spec_code)]
    pub fn code(self) -> (c: &'static str)
        ensures
            c == self.spec_code(),
    {
        match self {
            CompilerDiagnosticKind::AttributeDuplicate => "attribute_duplicate",
            CompilerDiagnosticKind::AttributeEmptyShorthand => "attribute_empty_shorthand",
            CompilerDiagnosticKind::AttributeInvalidSequenceExpression => "attribute_invalid_sequence_expression",
            CompilerDiagnosticKind::AttributeUnquotedSequence => "attribute_unquoted_sequence",
            CompilerDiagnosticKind::AttributeInvalidName => "attribute_invalid_name",
            CompilerDiagnosticKind::BindInvalidExpression => "bind_invalid_expression",
            CompilerDiagnosticKind::BindInvalidParens => "bind_invalid_parens",
            CompilerDiagnosticKind::BlockInvalidContinuationPlacement => "block_invalid_continuation_placement",
            CompilerDiagnosticKind::BlockUnclosed => "block_unclosed",
            CompilerDiagnosticKind::BlockUnexpectedClose => "block_unexpected_close",
            CompilerDiagnosticKind::ConstTagInvalidExpression => "const_tag_invalid_expression",
            CompilerDiagnosticKind::CssExpectedIdentifier => "css_expected_identifier",
            CompilerDiagnosticKind::CssGlobalBlockInvalidCombinator => "css_global_block_invalid_combinator",
            CompilerDiagnosticKind::CssGlobalBlockInvalidDeclaration => "css_global_block_invalid_declaration",
            CompilerDiagnosticKind::CssGlobalBlockInvalidList => "css_global_block_invalid_list",
            CompilerDiagnosticKind::CssGlobalBlockInvalidModifier => "css_global_block_invalid_modifier",
            CompilerDiagnosticKind::CssGlobalBlockInvalidModifierStart => "css_global_block_invalid_modifier_start",
            CompilerDiagnosticKind::CssGlobalBlockInvalidPlacement => "css_global_block_invalid_placement",
            CompilerDiagnosticKind::CssGlobalInvalidPlacement => "css_global_invalid_placement",
            CompilerDiagnosticKind::CssGlobalInvalidSelector => "css_global_invalid_selector",
            CompilerDiagnosticKind::CssGlobalInvalidSelectorList => "css_global_invalid_selector_list",
            CompilerDiagnosticKind::CssNestingSelectorInvalidPlacement => "css_nesting_selector_invalid_placement",
            CompilerDiagnosticKind::CssSelectorInvalid => "css_selector_invalid",
            CompilerDiagnosticKind::CssTypeSelectorInvalidPlacement => "css_type_selector_invalid_placement",
            CompilerDiagnosticKind::DebugTagInvalidArguments => "debug_tag_invalid_arguments",
            CompilerDiagnosticKind::EachKeyWithoutAs => "each_key_without_as",
            CompilerDiagnosticKind::ExpectedAttributeValue => "expected_attribute_value",
            CompilerDiagnosticKind::ExpectedTokenAwaitBranch => "expected_token",
            CompilerDiagnosticKind::ExpectedTokenCommentClose => "expected_token",
            CompilerDiagnosticKind::ExpectedTokenElse => "expected_token",
            CompilerDiagnosticKind::ExpectedTokenRightBrace => "expected_token",
            CompilerDiagnosticKind::ExpectedTokenRightParen => "expected_token",
            CompilerDiagnosticKind::ExpectedTokenStyleClose => "expected_token",
            CompilerDiagnosticKind::ExpectedTokenEquals => "expected_token",
            CompilerDiagnosticKind::ExpectedWhitespace => "expected_whitespace",
            CompilerDiagnosticKind::RenderTagInvalidCallExpression => "render_tag_invalid_call_expression",
            CompilerDiagnosticKind::RenderTagInvalidExpression => "render_tag_invalid_expression",
            CompilerDiagnosticKind::RenderTagInvalidSpreadArgument => "render_tag_invalid_spread_argument",
            CompilerDiagnosticKind::SlotSnippetConflict => "slot_snippet_conflict",
            CompilerDiagnosticKind::SnippetConflict => "snippet_conflict",
            CompilerDiagnosticKind::SnippetInvalidRestParameter => "snippet_invalid_rest_parameter",
            CompilerDiagnosticKind::SnippetParameterAssignment => "snippet_parameter_assignment",
            CompilerDiagnosticKind::ConstantAssignment => "constant_assignment",
            CompilerDiagnosticKind::SnippetInvalidExport => "snippet_invalid_export",
            CompilerDiagnosticKind::SlotDefaultDuplicate => "slot_default_duplicate",
            CompilerDiagnosticKind::StyleDuplicate => "style_duplicate",
            CompilerDiagnosticKind::SvelteMetaDuplicate => "svelte_meta_duplicate",
            CompilerDiagnosticKind::SvelteMetaInvalidContent => "svelte_meta_invalid_content",
            CompilerDiagnosticKind::SvelteMetaInvalidPlacement => "svelte_meta_invalid_placement",
            CompilerDiagnosticKind::SvelteMetaInvalidTag => "svelte_meta_invalid_tag",
            CompilerDiagnosticKind::SvelteWindowInvalidContent => "svelte_meta_invalid_content",
            CompilerDiagnosticKind::SvelteSelfInvalidPlacement => "svelte_self_invalid_placement",
            CompilerDiagnosticKind::TagInvalidName => "tag_invalid_name",
            CompilerDiagnosticKind::TextareaInvalidContent => "textarea_invalid_content",
            CompilerDiagnosticKind::TitleInvalidContent => "title_invalid_content",
            CompilerDiagnosticKind::UnexpectedEof => "unexpected_eof",
            CompilerDiagnosticKind::VoidElementInvalidContent => "void_element_invalid_content",
            CompilerDiagnosticKind::ScriptDuplicate => "script_duplicate",
            CompilerDiagnosticKind::ScriptInvalidContext => "script_invalid_context",
            CompilerDiagnosticKind::StateInvalidPlacement => "state_invalid_placement",
            CompilerDiagnosticKind::StateInvalidPlacementDerived => "state_invalid_placement",
        }
    }

    /// The diagnostic's message.
    pub open spec fn spec_message(self) -> &'static str {
        match self {
            CompilerDiagnosticKind::AttributeDuplicate => "Attributes need to be unique",
            CompilerDiagnosticKind::AttributeEmptyShorthand => "Attribute shorthand cannot be empty",
            CompilerDiagnosticKind::AttributeInvalidSequenceExpression => "Sequence expressions are not allowed as attribute/directive values in runes mode, unless wrapped in parentheses",
            CompilerDiagnosticKind::AttributeUnquotedSequence => "Attribute values containing `{...}` must be enclosed in quote marks, unless the value only contains the expression",
            CompilerDiagnosticKind::AttributeInvalidName => "Attribute name is not valid",
            CompilerDiagnosticKind::BindInvalidExpression => "Can only bind to an Identifier or MemberExpression or a `{get, set}` pair",
            CompilerDiagnosticKind::BindInvalidParens => "`bind:value={get, set}` must not have surrounding parentheses",
            CompilerDiagnosticKind::BlockInvalidContinuationPlacement => "{:...} block is invalid at this position (did you forget to close the preceding element or block?)",
            CompilerDiagnosticKind::BlockUnclosed => "Block was left open",
            CompilerDiagnosticKind::BlockUnexpectedClose => "Unexpected block closing tag",
            CompilerDiagnosticKind::ConstTagInvalidExpression => "{@const ...} must consist of a single variable declaration",
            CompilerDiagnosticKind::CssExpectedIdentifier => "Expected a valid CSS identifier",
            CompilerDiagnosticKind::CssGlobalBlockInvalidCombinator => "A `:global` selector cannot follow a combinator",
            CompilerDiagnosticKind::CssGlobalBlockInvalidDeclaration => "A top-level `:global {...}` block can only contain rules, not declarations",
            CompilerDiagnosticKind::CssGlobalBlockInvalidList => "A `:global` selector cannot be part of a selector list with entries that don't contain `:global`",
            CompilerDiagnosticKind::CssGlobalBlockInvalidModifier => "A `:global` selector cannot modify an existing selector",
            CompilerDiagnosticKind::CssGlobalBlockInvalidModifierStart => "A `:global` selector can only be modified if it is a descendant of other selectors",
            CompilerDiagnosticKind::CssGlobalBlockInvalidPlacement => "A `:global` selector cannot be inside a pseudoclass",
            CompilerDiagnosticKind::CssGlobalInvalidPlacement => "`:global(...)` can be at the start or end of a selector sequence, but not in the middle",
            CompilerDiagnosticKind::CssGlobalInvalidSelector => "`:global(...)` must contain exactly one selector",
            CompilerDiagnosticKind::CssGlobalInvalidSelectorList => "`:global(...)` must not contain type or universal selectors when used in a compound selector",
            CompilerDiagnosticKind::CssNestingSelectorInvalidPlacement => "Nesting selectors can only be used inside a rule or as the first selector inside a lone `:global(...)`",
            CompilerDiagnosticKind::CssSelectorInvalid => "Invalid selector",
            CompilerDiagnosticKind::CssTypeSelectorInvalidPlacement => "`:global(...)` must not be followed by a type selector",
            CompilerDiagnosticKind::DebugTagInvalidArguments => "{@debug ...} arguments must be identifiers, not arbitrary expressions",
            CompilerDiagnosticKind::EachKeyWithoutAs => "An `{#each ...}` block without an `as` clause cannot have a key",
            CompilerDiagnosticKind::ExpectedAttributeValue => "Expected attribute value",
            CompilerDiagnosticKind::ExpectedTokenAwaitBranch => "Expected token {:then ...} or {:catch ...}",
            CompilerDiagnosticKind::ExpectedTokenCommentClose => "Expected token -->",
            CompilerDiagnosticKind::ExpectedTokenElse => "Expected token {:else}",
            CompilerDiagnosticKind::ExpectedTokenRightBrace => "Expected token }",
            CompilerDiagnosticKind::ExpectedTokenRightParen => "Expected token )",
            CompilerDiagnosticKind::ExpectedTokenStyleClose => "Expected token </style>",
            CompilerDiagnosticKind::ExpectedTokenEquals => "Expected token =",
            CompilerDiagnosticKind::ExpectedWhitespace => "Expected whitespace",
            CompilerDiagnosticKind::RenderTagInvalidCallExpression => "Calling a snippet function using apply, bind or call is not allowed",
            CompilerDiagnosticKind::RenderTagInvalidExpression => "`{@render ...}` tags can only contain call expressions",
            CompilerDiagnosticKind::RenderTagInvalidSpreadArgument => "cannot use spread arguments in `{@render ...}` tags",
            CompilerDiagnosticKind::SlotSnippetConflict => "Cannot use `<slot>` syntax and `{@render ...}` tags in the same component. Migrate towards `{@render ...}` tags completely",
            CompilerDiagnosticKind::SnippetConflict => "Cannot use explicit children snippet property alongside default slot content",
            CompilerDiagnosticKind::SnippetInvalidRestParameter => "Snippets do not support rest parameters; use an array instead",
            CompilerDiagnosticKind::SnippetParameterAssignment => "Cannot reassign or bind to snippet parameter",
            CompilerDiagnosticKind::ConstantAssignment => "Cannot assign to constant",
            CompilerDiagnosticKind::SnippetInvalidExport => "An exported snippet can only reference things declared in a `<script module>`, or other exportable snippets",
            CompilerDiagnosticKind::SlotDefaultDuplicate => "Found default slot content alongside an explicit slot=\"default\"",
            CompilerDiagnosticKind::StyleDuplicate => "A component can have a single top-level `<style>` element",
            CompilerDiagnosticKind::SvelteMetaDuplicate => "A component can only have one of this special element",
            CompilerDiagnosticKind::SvelteMetaInvalidContent => "<svelte:head> cannot have children",
            CompilerDiagnosticKind::SvelteMetaInvalidPlacement => "Special elements cannot be inside elements or blocks",
            CompilerDiagnosticKind::SvelteMetaInvalidTag => "Valid `<svelte:...>` tag names are svelte:head, svelte:options, svelte:window, svelte:document, svelte:body, svelte:element, svelte:component, svelte:self, svelte:fragment or svelte:boundary",
            CompilerDiagnosticKind::SvelteWindowInvalidContent => "<svelte:window> cannot have children",
            CompilerDiagnosticKind::SvelteSelfInvalidPlacement => "`<svelte:self>` components can only exist inside `{#if}` blocks, `{#each}` blocks, `{#snippet}` blocks or slots passed to components",
            CompilerDiagnosticKind::TagInvalidName => "Expected a valid element or component name. Components must have a valid variable name or dot notation expression",
            CompilerDiagnosticKind::TextareaInvalidContent => "A `<textarea>` can have either a value attribute or (equivalently) child content, but not both",
            CompilerDiagnosticKind::TitleInvalidContent => "`<title>` can only contain text and {tags}",
            CompilerDiagnosticKind::UnexpectedEof => "Unexpected end of input",
            CompilerDiagnosticKind::VoidElementInvalidContent => "Void elements cannot have children or closing tags",
            CompilerDiagnosticKind::ScriptDuplicate => "A component can have a single top-level `<script>` element and/or a single top-level `<script module>` element",
            CompilerDiagnosticKind::ScriptInvalidContext => "If the context attribute is supplied, its value must be \"module\"",
            CompilerDiagnosticKind::StateInvalidPlacement => "`$state(...)` can only be used as a variable declaration initializer, a class field declaration, or the first assignment to a class field at the top level of the constructor.",
            CompilerDiagnosticKind::StateInvalidPlacementDerived => "`$derived(...)` can only be used as a variable declaration initializer, a class field declaration, or the first assignment to a class field at the top level of the constructor.",
        }
    }

    /// The diagnostic's message.
    #[verifier::when_used_as_spec(spec_message)]
    pub fn message(self) -> (m: &'static str)
        ensures
            m == self.spec_message(),
    {
        match self {
            CompilerDiagnosticKind::AttributeDuplicate => "Attributes need to be unique",
            CompilerDiagnosticKind::AttributeEmptyShorthand => "Attribute shorthand cannot be empty",
            CompilerDiagnosticKind::AttributeInvalidSequenceExpression => "Sequence expressions are not allowed as attribute/directive values in runes mode, unless wrapped in parentheses",
            CompilerDiagnosticKind::AttributeUnquotedSequence => "Attribute values containing `{...}` must be enclosed in quote marks, unless the value only contains the expression",
            CompilerDiagnosticKind::AttributeInvalidName => "Attribute name is not valid",
            CompilerDiagnosticKind::BindInvalidExpression => "Can only bind to an Identifier or MemberExpression or a `{get, set}` pair",
            CompilerDiagnosticKind::BindInvalidParens => "`bind:value={get, set}` must not have surrounding parentheses",
            CompilerDiagnosticKind::BlockInvalidContinuationPlacement => "{:...} block is invalid at this position (did you forget to close the preceding element or block?)",
            CompilerDiagnosticKind::BlockUnclosed => "Block was left open",
            CompilerDiagnosticKind::BlockUnexpectedClose => "Unexpected block closing tag",
            CompilerDiagnosticKind::ConstTagInvalidExpression => "{@const ...} must consist of a single variable declaration",
            CompilerDiagnosticKind::CssExpectedIdentifier => "Expected a valid CSS identifier",
            CompilerDiagnosticKind::CssGlobalBlockInvalidCombinator => "A `:global` selector cannot follow a combinator",
            CompilerDiagnosticKind::CssGlobalBlockInvalidDeclaration => "A top-level `:global {...}` block can only contain rules, not declarations",
            CompilerDiagnosticKind::CssGlobalBlockInvalidList => "A `:global` selector cannot be part of a selector list with entries that don't contain `:global`",
            CompilerDiagnosticKind::CssGlobalBlockInvalidModifier => "A `:global` selector cannot modify an existing selector",
            CompilerDiagnosticKind::CssGlobalBlockInvalidModifierStart => "A `:global` selector can only be modified if it is a descendant of other selectors",
            CompilerDiagnosticKind::CssGlobalBlockInvalidPlacement => "A `:global` selector cannot be inside a pseudoclass",
            CompilerDiagnosticKind::CssGlobalInvalidPlacement => "`:global(...)` can be at the start or end of a selector sequence, but not in the middle",
            CompilerDiagnosticKind::CssGlobalInvalidSelector => "`:global(...)` must contain exactly one selector",
            CompilerDiagnosticKind::CssGlobalInvalidSelectorList => "`:global(...)` must not contain type or universal selectors when used in a compound selector",
            CompilerDiagnosticKind::CssNestingSelectorInvalidPlacement => "Nesting selectors can only be used inside a rule or as the first selector inside a lone `:global(...)`",
            CompilerDiagnosticKind::CssSelectorInvalid => "Invalid selector",
            CompilerDiagnosticKind::CssTypeSelectorInvalidPlacement => "`:global(...)` must not be followed by a type selector",
            CompilerDiagnosticKind::DebugTagInvalidArguments => "{@debug ...} arguments must be identifiers, not arbitrary expressions",
            CompilerDiagnosticKind::EachKeyWithoutAs => "An `{#each ...}` block without an `as` clause cannot have a key",
            CompilerDiagnosticKind::ExpectedAttributeValue => "Expected attribute value",
            CompilerDiagnosticKind::ExpectedTokenAwaitBranch => "Expected token {:then ...} or {:catch ...}",
            CompilerDiagnosticKind::ExpectedTokenCommentClose => "Expected token -->",
            CompilerDiagnosticKind::ExpectedTokenElse => "Expected token {:else}",
            CompilerDiagnosticKind::ExpectedTokenRightBrace => "Expected token }",
            CompilerDiagnosticKind::ExpectedTokenRightParen => "Expected token )",
            CompilerDiagnosticKind::ExpectedTokenStyleClose => "Expected token </style>",
            CompilerDiagnosticKind::ExpectedTokenEquals => "Expected token =",
            CompilerDiagnosticKind::ExpectedWhitespace => "Expected whitespace",
            CompilerDiagnosticKind::RenderTagInvalidCallExpression => "Calling a snippet function using apply, bind or call is not allowed",
            CompilerDiagnosticKind::RenderTagInvalidExpression => "`{@render ...}` tags can only contain call expressions",
            CompilerDiagnosticKind::RenderTagInvalidSpreadArgument => "cannot use spread arguments in `{@render ...}` tags",
            CompilerDiagnosticKind::SlotSnippetConflict => "Cannot use `<slot>` syntax and `{@render ...}` tags in the same component. Migrate towards `{@render ...}` tags completely",
            CompilerDiagnosticKind::SnippetConflict => "Cannot use explicit children snippet property alongside default slot content",
            CompilerDiagnosticKind::SnippetInvalidRestParameter => "Snippets do not support rest parameters; use an array instead",
            CompilerDiagnosticKind::SnippetParameterAssignment => "Cannot reassign or bind to snippet parameter",
            CompilerDiagnosticKind::ConstantAssignment => "Cannot assign to constant",
            CompilerDiagnosticKind::SnippetInvalidExport => "An exported snippet can only reference things declared in a `<script module>`, or other exportable snippets",
            CompilerDiagnosticKind::SlotDefaultDuplicate => "Found default slot content alongside an explicit slot=\"default\"",
            CompilerDiagnosticKind::StyleDuplicate => "A component can have a single top-level `<style>` element",
            CompilerDiagnosticKind::SvelteMetaDuplicate => "A component can only have one of this special element",
            CompilerDiagnosticKind::SvelteMetaInvalidContent => "<svelte:head> cannot have children",
            CompilerDiagnosticKind::SvelteMetaInvalidPlacement => "Special elements cannot be inside elements or blocks",
            CompilerDiagnosticKind::SvelteMetaInvalidTag => "Valid `<svelte:...>` tag names are svelte:head, svelte:options, svelte:window, svelte:document, svelte:body, svelte:element, svelte:component, svelte:self, svelte:fragment or svelte:boundary",
            CompilerDiagnosticKind::SvelteWindowInvalidContent => "<svelte:window> cannot have children",
            CompilerDiagnosticKind::SvelteSelfInvalidPlacement => "`<svelte:self>` components can only exist inside `{#if}` blocks, `{#each}` blocks, `{#snippet}` blocks or slots passed to components",
            CompilerDiagnosticKind::TagInvalidName => "Expected a valid element or component name. Components must have a valid variable name or dot notation expression",
            CompilerDiagnosticKind::TextareaInvalidContent => "A `<textarea>` can have either a value attribute or (equivalently) child content, but not both",
            CompilerDiagnosticKind::TitleInvalidContent => "`<title>` can only contain text and {tags}",
            CompilerDiagnosticKind::UnexpectedEof => "Unexpected end of input",
            CompilerDiagnosticKind::VoidElementInvalidContent => "Void elements cannot have children or closing tags",
            CompilerDiagnosticKind::ScriptDuplicate => "A component can have a single top-level `<script>` element and/or a single top-level `<script module>` element",
            CompilerDiagnosticKind::ScriptInvalidContext => "If the context attribute is supplied, its value must be \"module\"",
            CompilerDiagnosticKind::StateInvalidPlacement => "`$state(...)` can only be used as a variable declaration initializer, a class field declaration, or the first assignment to a class field at the top level of the constructor.",
            CompilerDiagnosticKind::StateInvalidPlacementDerived => "`$derived(...)` can only be used as a variable declaration initializer, a class field declaration, or the first assignment to a class field at the top level of the constructor.",
        }
    }
}

/// An error that stops compilation: its code, its message and the source range it is about.
#[derive(Debug, PartialEq, Eq)]
pub struct CompileError {
    pub code: &'static str,
    pub message: Vec<char>,
    pub start: usize,
    pub end: usize,
}

/// An error as plain values: its code, its message, and where it starts and ends.
pub type ErrorView = (Seq<char>, Seq<char>, int, int);

/// What an error says, as plain values.
pub open spec fn error_view(e: CompileError) -> ErrorView {
    (e.code@, e.message@, e.start as int, e.end as int)
}

/// What an error of `kind` at `start..end` says, as plain values.
pub open spec fn kind_error_view(kind: CompilerDiagnosticKind, start: int, end: int) -> ErrorView {
    (kind.spec_code()@, kind.spec_message()@, start, end)
}

/// What an optional error says, as plain values.
pub open spec fn option_error_view(e: Option<CompileError>) -> Option<ErrorView> {
    match e {
        Some(x) => Some(error_view(x)),
        None => None,
    }
}

/// The first of two outcomes that is an error.
pub open spec fn first_error(a: Option<ErrorView>, b: Option<ErrorView>) -> Option<ErrorView> {
    if a is Some {
        a
    } else {
        b
    }
}

/// The error of `kind` for the source range `start..end`.
pub fn compile_error_with_range(kind: CompilerDiagnosticKind, start: usize, end: usize) -> (e: CompileError)
    ensures
        e.code == kind.code(),
        e.message@ == kind.message()@,
        e.start == start,
        e.end == end,
{
    CompileError {
        code: kind.code(),
        message: crate::text::chars_of(kind.message()),
        start,
        end,
    }
}

/// An error with the given code and message for the source range `start..end`.
pub fn compile_error_custom(code: &'static str, message: Vec<char>, start: usize, end: usize) -> (e: CompileError)
    ensures
        e.code == code,
        e.message == message,
        e.start == start,
        e.end == end,
{
    CompileError { code, message, start, end }
}

} // verus!
