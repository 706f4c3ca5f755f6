//! The validation of a parsed component: the template checks in the order
//! the compiler reports them, the snippet checks, the style checks, and the
//! analysis that follows a successful validation.
use vstd::prelude::*;

use crate::ast::{Entry, Root};
use crate::component::ParsedComponent;
use crate::diagnostics::{first_error, option_error_view, CompileError, ErrorView};

verus! {

/// The options of a compilation that validation reads.
#[derive(Debug, Clone, Copy, PartialEq, Eq, Structural)]
pub struct CompileOptions {
    /// Runes mode, when the caller fixes it.
    pub runes: Option<bool>,
    /// Whether the experimental asynchronous mode is on.
    pub experimental_async: bool,
}

impl CompileOptions {
    /// No mode fixed, asynchronous mode off.
    pub fn new() -> (o: Self)
        ensures
            o.runes is None,
            !o.experimental_async,
    {
        CompileOptions { runes: None, experimental_async: false }
    }

    /// Runes mode fixed to `runes`.
    pub fn with_runes(runes: bool) -> (o: Self)
        ensures
            o.runes == Some(runes),
            !o.experimental_async,
    {
        CompileOptions { runes: Some(runes), experimental_async: false }
    }
}

/// Whether the component is compiled in runes mode: as the options say, else
/// as `<svelte:options runes>` says, else not.
pub open spec fn spec_runes_mode(options: CompileOptions, root: Root) -> bool {
    match options.runes {
        Some(r) => r,
        None => match root.options {
            Some(o) => match o.runes {
                Some(r) => r,
                None => false,
            },
            None => false,
        },
    }
}

/// A runes mode that the options fix wins over whatever `<svelte:options>`
/// says: with `runes` set in the options, the component is compiled in that
/// mode, whatever its tree holds.
pub proof fn lemma_options_fix_runes_mode(options: CompileOptions, root: Root)
    requires
        options.runes is Some,
    ensures
        spec_runes_mode(options, root) == options.runes.unwrap(),
{
}

/// With no mode in the options, a component is in runes mode exactly when
/// its `<svelte:options runes>` says so.
pub proof fn lemma_svelte_options_decide_runes_mode(options: CompileOptions, root: Root)
    requires
        options.runes is None,
    ensures
        spec_runes_mode(options, root) == (root.options matches Some(o) && o.runes == Some(true)),
{
}

/// Whether the component is compiled in runes mode.
pub fn infer_runes_mode(options: &CompileOptions, root: &Root) -> (r: bool)
    ensures
        r == spec_runes_mode(*options, *root),
{
    match options.runes {
        Some(r) => r,
        None => match &root.options {
            Some(o) => match o.runes {
                Some(r) => r,
                None => false,
            },
            None => false,
        },
    }
}

/// The first error of the template, the checks taken in this order: syntax
/// errors, meta elements, tag names, attribute syntax and names, empty and
/// duplicate attributes, directive names and values, `<svelte:options>`
/// values, `{#each}` keys and contexts, where `<svelte:self>` and
/// `<svelte:fragment>` stand, `<svelte:head>` attributes, `let:` placement,
/// `style:` modifiers, scripts, TypeScript, reactive cycles (legacy mode; the
/// check's outcome is `reactive`), `{@debug}` and `{@render}` tags,
/// `{@const}` tags, slots, content models,
/// directives, the structure the browser would repair, mixed event syntaxes,
/// shadowing snippets.
pub open spec fn spec_template_error(
    root: &Root,
    runes: bool,
    async_mode: bool,
    reactive: Option<ErrorView>,
) -> Option<ErrorView> {
    first_error(crate::template::spec_root_parse_error(root.errors@, runes),
    first_error(crate::template::spec_detect_svelte_meta_structure_errors(root),
    first_error(crate::template::spec_detect_tag_invalid_name(root),
    first_error(crate::template::spec_detect_attribute_syntax(root),
    first_error(crate::template::spec_detect_attribute_invalid_name(root),
    first_error(crate::template::spec_detect_empty_attribute_shorthand(root),
    first_error(crate::template::spec_detect_duplicate_attributes(root),
    first_error(crate::placement::spec_detect_missing_directive_name(root),
    first_error(crate::placement::spec_detect_directive_invalid_value(root),
    first_error(crate::placement::spec_detect_svelte_options_invalid_namespace(root),
    first_error(crate::placement::spec_detect_svelte_options_invalid_custom_element(root),
    first_error(crate::placement::spec_detect_each_key_without_as(root),
    first_error(crate::placement::spec_detect_each_context_error(root),
    first_error(crate::placement::spec_detect_svelte_self_invalid_placement(root),
    first_error(crate::placement::spec_detect_svelte_fragment_invalid_placement(root),
    first_error(crate::placement::spec_detect_svelte_head_illegal_attribute(root),
    first_error(crate::placement::spec_detect_let_directive_invalid_placement(root),
    first_error(crate::placement::spec_detect_style_directive_invalid_modifier(root),
    first_error(crate::scripts::script_duplicate_from(root.scripts@, 0, false, false),
    first_error(crate::scripts::ts_scripts_from(root.scripts@, 0),
    first_error(reactive,
    first_error(crate::template::spec_detect_debug_tag_invalid_arguments(root),
    first_error(crate::content::spec_detect_render_tag_errors(root),
    first_error(crate::consts::spec_detect_const_tag_errors(root, async_mode),
    first_error(crate::slots::slot_from(root.fragment, 0, Seq::empty()).0,
    first_error(crate::content::spec_detect_text_content_model_errors(root),
    first_error(crate::directives::spec_detect_template_directive_errors(root, runes),
    first_error(crate::structure::structure_error_from(root.fragment, 0, crate::structure::no_ancestors(), None, false),
    first_error(crate::content::spec_detect_mixed_event_handler_syntax(root, runes),
    crate::content::shadowing_from(root.fragment.nodes@, 0))))))))))))))))))))))))))))))
}

/// What the reactive-cycle check gives for a template: nothing in runes
/// mode, else its outcome for the component.
pub open spec fn template_reactive_outcome(root: &Root, runes: bool, e: Option<ErrorView>) -> bool {
    if runes {
        e is None
    } else {
        crate::reactive::reactive_cycle_outcome(root, e)
    }
}

/// The first error of the template, in the order of `spec_template_error`,
/// with `reactive` what the reactive-cycle check gives (see
/// `template_reactive_outcome`).
pub fn validate_component_template(options: &CompileOptions, root: &Root) -> (r: Option<CompileError>)
    ensures
        root.errors@.len() > 0 && (forall|i: int| 0 <= i < root.errors@.len() ==> !(#[trigger] root.errors@[i].kind is BlockUnexpectedCharacter))
            ==> r is Some,
        exists|reactive: Option<ErrorView>|
            #[trigger] template_reactive_outcome(root, spec_runes_mode(*options, *root), reactive)
                && option_error_view(r) == spec_template_error(
                root,
                spec_runes_mode(*options, *root),
                options.experimental_async,
                reactive,
            ),
{
    let runes = infer_runes_mode(options, root);
    let reactive = if runes {
        None
    } else {
        crate::reactive::detect_reactive_declaration_cycle(root)
    };
    let ghost rv = option_error_view(reactive);
    proof {
        assert(template_reactive_outcome(root, runes, rv));
    }
    if let Some(e) = crate::template::detect_parse_error_from_root(root, runes) {
        return Some(e);
    }
    if let Some(e) = crate::template::detect_svelte_meta_structure_errors(root) {
        return Some(e);
    }
    if let Some(e) = crate::template::detect_tag_invalid_name(root) {
        return Some(e);
    }
    if let Some(e) = crate::template::detect_attribute_syntax(root) {
        return Some(e);
    }
    if let Some(e) = crate::template::detect_attribute_invalid_name(root) {
        return Some(e);
    }
    if let Some(e) = crate::template::detect_empty_attribute_shorthand(root) {
        return Some(e);
    }
    if let Some(e) = crate::template::detect_duplicate_attributes(root) {
        return Some(e);
    }
    if let Some(e) = crate::placement::detect_missing_directive_name(root) {
        return Some(e);
    }
    if let Some(e) = crate::placement::detect_directive_invalid_value(root) {
        return Some(e);
    }
    if let Some(e) = crate::placement::detect_svelte_options_invalid_namespace(root) {
        return Some(e);
    }
    if let Some(e) = crate::placement::detect_svelte_options_invalid_custom_element(root) {
        return Some(e);
    }
    if let Some(e) = crate::placement::detect_each_key_without_as(root) {
        return Some(e);
    }
    if let Some(e) = crate::placement::detect_each_context_error(root) {
        return Some(e);
    }
    if let Some(e) = crate::placement::detect_svelte_self_invalid_placement(root) {
        return Some(e);
    }
    if let Some(e) = crate::placement::detect_svelte_fragment_invalid_placement(root) {
        return Some(e);
    }
    if let Some(e) = crate::placement::detect_svelte_head_illegal_attribute(root) {
        return Some(e);
    }
    if let Some(e) = crate::placement::detect_let_directive_invalid_placement(root) {
        return Some(e);
    }
    if let Some(e) = crate::placement::detect_style_directive_invalid_modifier(root) {
        return Some(e);
    }
    if let Some(e) = crate::scripts::detect_script_duplicate(root) {
        return Some(e);
    }
    if let Some(e) = crate::scripts::detect_typescript_invalid_features(root) {
        return Some(e);
    }
    if reactive.is_some() {
        return reactive;
    }
    if let Some(e) = crate::template::detect_debug_tag_invalid_arguments(root) {
        return Some(e);
    }
    if let Some(e) = crate::content::detect_render_tag_errors(root) {
        return Some(e);
    }
    if let Some(e) = crate::consts::detect_const_tag_errors(root, options.experimental_async) {
        return Some(e);
    }
    if let Some(e) = crate::slots::detect_slot_attribute_errors(root) {
        return Some(e);
    }
    if let Some(e) = crate::content::detect_text_content_model_errors(root) {
        return Some(e);
    }
    if let Some(e) = crate::directives::detect_template_directive_errors(root, runes) {
        return Some(e);
    }
    if let Some(e) = crate::structure::detect_additional_template_structure_errors(root) {
        return Some(e);
    }
    if let Some(e) = crate::content::detect_mixed_event_handler_syntax(root, runes) {
        return Some(e);
    }
    crate::content::detect_snippet_shadowing_prop(root)
}

/// The rune errors of an optional script.
pub open spec fn spec_script_rune_errors(script: Option<crate::ast::Script>) -> Option<ErrorView> {
    match script {
        Some(s) => crate::runes::spec_detect_rune_errors_in_program(&s.content),
        None => None,
    }
}

/// The first error of the scripts: reserved `$` names in either mode; in
/// runes mode, before them, `beforeUpdate` imports and `export let`, and,
/// after them, in the module script and then the instance script, rune
/// names that do not exist, `$effect.active`, wrong numbers of rune
/// arguments and spread arguments.
pub open spec fn spec_script_error(root: &Root, runes: bool) -> Option<ErrorView> {
    if runes {
        first_error(
            crate::runes::spec_detect_runes_mode_invalid_import(root),
            first_error(
                crate::runes::spec_detect_legacy_export_invalid(root),
                first_error(
                    crate::runes::spec_detect_dollar_prefix_invalid(root),
                    first_error(spec_script_rune_errors(root.module), spec_script_rune_errors(root.instance)),
                ),
            ),
        )
    } else {
        crate::runes::spec_detect_dollar_prefix_invalid(root)
    }
}

/// The first error of the scripts, as `spec_script_error` orders them.
pub fn validate_component_script(options: &CompileOptions, root: &Root) -> (r: Option<CompileError>)
    ensures
        option_error_view(r) == spec_script_error(root, spec_runes_mode(*options, *root)),
{
    let runes = infer_runes_mode(options, root);
    if runes {
        if let Some(e) = crate::runes::detect_runes_mode_invalid_import(root) {
            return Some(e);
        }
        if let Some(e) = crate::runes::detect_legacy_export_invalid(root) {
            return Some(e);
        }
    }
    if let Some(e) = crate::runes::detect_dollar_prefix_invalid(root) {
        return Some(e);
    }
    if runes {
        if let Some(m) = &root.module {
            if let Some(e) = crate::runes::detect_rune_errors_in_program(&m.content) {
                return Some(e);
            }
        }
        if let Some(i) = &root.instance {
            if let Some(e) = crate::runes::detect_rune_errors_in_program(&i.content) {
                return Some(e);
            }
        }
    }
    None
}

/// The snippet errors of the template.
pub fn validate_component_snippets(root: &Root) -> (r: Option<CompileError>)
    ensures
        exists|names: Seq<Vec<char>>, found: Option<(usize, usize)>|
            #![trigger crate::snippets::holds_instance_names(root, names), crate::snippets::parameter_walk_finds(root, found)]
            crate::snippets::holds_instance_names(root, names) && crate::snippets::parameter_walk_finds(root, found)
                && option_error_view(r) == crate::snippets::spec_validate_component_snippets(root, names, found),
{
    crate::snippets::validate_component_snippets(root)
}

/// The style errors of the component: a second top-level `<style>`, then
/// the errors of the style sheet.
pub open spec fn spec_css_error(source: Seq<char>, root: &Root) -> Option<ErrorView> {
    first_error(
        crate::content::spec_detect_multiple_top_level_styles(root),
        crate::css_checks::spec_detect_css_errors(source, *root),
    )
}

/// The style errors of the component.
pub fn validate_component_css(source: &[char], root: &Root) -> (r: Option<CompileError>)
    ensures
        root.styles@.len() >= 2 ==> r is Some,
        option_error_view(r) == spec_css_error(source@, root),
{
    if let Some(e) = crate::content::detect_multiple_top_level_styles(root) {
        return Some(e);
    }
    crate::css_checks::detect_css_errors(source, root)
}

/// The first error of a component: template, then scripts, then snippets,
/// then styles; `reactive` is what the reactive-cycle check gives, `names`
/// the instance script's names and `found` what the snippet parameter walk
/// found.
pub open spec fn spec_component_error(
    source: Seq<char>,
    options: CompileOptions,
    root: &Root,
    reactive: Option<ErrorView>,
    names: Seq<Vec<char>>,
    found: Option<(usize, usize)>,
) -> Option<ErrorView> {
    let runes = spec_runes_mode(options, *root);
    first_error(
        spec_template_error(root, runes, options.experimental_async, reactive),
        first_error(
            spec_script_error(root, runes),
            first_error(
                crate::snippets::spec_validate_component_snippets(root, names, found),
                spec_css_error(source, root),
            ),
        ),
    )
}

/// The first error of a component: template, then scripts, then snippets, then styles.
pub fn validate_component(source: &[char], options: &CompileOptions, root: &Root) -> (r: Option<CompileError>)
    ensures
        root.errors@.len() > 0 && (forall|i: int| 0 <= i < root.errors@.len() ==> !(#[trigger] root.errors@[i].kind is BlockUnexpectedCharacter))
            ==> r is Some,
        root.styles@.len() >= 2 ==> r is Some,
        exists|reactive: Option<ErrorView>, names: Seq<Vec<char>>, found: Option<(usize, usize)>|
            #![trigger template_reactive_outcome(root, spec_runes_mode(*options, *root), reactive), crate::snippets::holds_instance_names(root, names), crate::snippets::parameter_walk_finds(root, found)]
            template_reactive_outcome(root, spec_runes_mode(*options, *root), reactive)
                && crate::snippets::holds_instance_names(root, names) && crate::snippets::parameter_walk_finds(root, found)
                && option_error_view(r) == spec_component_error(source@, *options, root, reactive, names, found),
{
    let t = validate_component_template(options, root);
    let ghost reactive = choose|reactive: Option<ErrorView>|
        #[trigger] template_reactive_outcome(root, spec_runes_mode(*options, *root), reactive)
            && option_error_view(t) == spec_template_error(
            root,
            spec_runes_mode(*options, *root),
            options.experimental_async,
            reactive,
        );
    let sn = validate_component_snippets(root);
    let ghost nf = choose|pair: (Seq<Vec<char>>, Option<(usize, usize)>)|
        #![trigger crate::snippets::holds_instance_names(root, pair.0), crate::snippets::parameter_walk_finds(root, pair.1)]
        crate::snippets::holds_instance_names(root, pair.0) && crate::snippets::parameter_walk_finds(root, pair.1)
            && option_error_view(sn) == crate::snippets::spec_validate_component_snippets(root, pair.0, pair.1);
    proof {
        let (n0, f0) = choose|n0: Seq<Vec<char>>, f0: Option<(usize, usize)>|
            #![trigger crate::snippets::holds_instance_names(root, n0), crate::snippets::parameter_walk_finds(root, f0)]
            crate::snippets::holds_instance_names(root, n0) && crate::snippets::parameter_walk_finds(root, f0)
                && option_error_view(sn) == crate::snippets::spec_validate_component_snippets(root, n0, f0);
        assert(crate::snippets::holds_instance_names(root, (n0, f0).0) && crate::snippets::parameter_walk_finds(root, (n0, f0).1));
    }
    let ghost names = nf.0;
    let ghost found = nf.1;
    let sc = validate_component_script(options, root);
    let css = validate_component_css(source, root);
    proof {
        assert(template_reactive_outcome(root, spec_runes_mode(*options, *root), reactive));
        assert(crate::snippets::holds_instance_names(root, names) && crate::snippets::parameter_walk_finds(root, found));
    }
    if t.is_some() {
        return t;
    }
    if sc.is_some() {
        return sc;
    }
    if sn.is_some() {
        return sn;
    }
    css
}

/// A component that passed validation, with the options and mode it is compiled with.
pub struct ComponentAnalysis<'a> {
    pub parsed: ParsedComponent,
    pub options: &'a CompileOptions,
    pub runes: bool,
}

impl<'a> ComponentAnalysis<'a> {
    /// The source of the component.
    pub fn source(&self) -> (r: &[char])
        ensures
            r@ == self.parsed.source@,
    {
        self.parsed.source.as_slice()
    }

    /// The tree of the component.
    pub fn root(&self) -> (r: &Root)
        ensures
            *r == self.parsed.root,
    {
        &self.parsed.root
    }

    /// The options of the compilation.
    pub fn options(&self) -> (r: &CompileOptions)
        ensures
            *r == *self.options,
    {
        self.options
    }

    /// Whether the component is compiled in runes mode.
    pub fn runes(&self) -> (r: bool)
        ensures
            r == self.runes,
    {
        self.runes
    }

    /// The state the next phase starts from.
    pub fn lower(&'a self) -> (s: TransformState<'a>)
        ensures
            s.analysis == self,
    {
        lower_component(self)
    }
}

/// Validates a parsed component and, when it is valid, gives its analysis.
pub fn analyze_component<'a>(parsed: ParsedComponent, options: &'a CompileOptions) -> (r: Result<
    ComponentAnalysis<'a>,
    CompileError,
>)
    ensures
        r matches Ok(a) ==> a.parsed == parsed && a.options == options && a.runes == spec_runes_mode(*options, parsed.root),
        (parsed.root.errors@.len() > 0 && (forall|i: int|
            0 <= i < parsed.root.errors@.len() ==> !(#[trigger] parsed.root.errors@[i].kind is BlockUnexpectedCharacter)))
            ==> r is Err,
{
    match validate_component(parsed.source.as_slice(), options, &parsed.root) {
        Some(e) => Err(e),
        None => {
            let runes = infer_runes_mode(options, &parsed.root);
            Ok(ComponentAnalysis { parsed, options, runes })
        },
    }
}

/// The state the code generation starts from: the analysis and its tree.
pub struct TransformState<'a> {
    pub analysis: &'a ComponentAnalysis<'a>,
}

impl<'a> TransformState<'a> {
    /// The source of the component.
    pub fn source(&self) -> (r: &[char])
        ensures
            r@ == self.analysis.parsed.source@,
    {
        self.analysis.source()
    }

    /// The tree of the component.
    pub fn root(&self) -> (r: &'a Root)
        ensures
            *r == self.analysis.parsed.root,
    {
        self.analysis.root()
    }

    /// The options of the compilation.
    pub fn options(&self) -> (r: &CompileOptions)
        ensures
            *r == *self.analysis.options,
    {
        self.analysis.options()
    }
}

/// The state the code generation starts from.
pub fn lower_component<'a>(analysis: &'a ComponentAnalysis<'a>) -> (s: TransformState<'a>)
    ensures
        s.analysis == analysis,
{
    TransformState { analysis }
}

} // verus!
