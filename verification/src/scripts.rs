//! Checks of a component's `<script>` elements: their context, duplicates,
//! and TypeScript features that the compiler does not accept.
use vstd::prelude::*;

use crate::ast::{Attribute, Root, Script, ScriptContext};
use crate::diagnostics::{compile_error_custom, CompileError};
use crate::estree::{
    field_array_named, field_bool_named, field_object_named, field_str_named, node_span, node_type, type_is,
    EstreeNode, EstreeValue,
};
use crate::parse::{attribute_static_text, spec_static_text};
use crate::text::{chars_of, push_str, text_is};

verus! {

/// The context a script's attributes give it, or the range of a `context`
/// attribute whose value is not `module`.
pub open spec fn spec_script_kind(attributes: Seq<Attribute>, upto: int) -> Result<ScriptContext, (usize, usize)>
    decreases upto,
{
    if upto <= 0 {
        Ok(ScriptContext::Default)
    } else {
        match spec_script_kind(attributes, upto - 1) {
            Err(e) => Err(e),
            Ok(context) => match attributes[upto - 1] {
                Attribute::Attribute(a) => if a.name@ == "module"@ {
                    Ok(ScriptContext::Module)
                } else if a.name@ == "context"@ {
                    if spec_static_text(a.value) == Some("module"@) {
                        Ok(ScriptContext::Module)
                    } else {
                        Err((a.start, a.end))
                    }
                } else {
                    Ok(context)
                },
                _ => Ok(context),
            },
        }
    }
}

/// The context a script's attributes give it: `module` or `context="module"`
/// make it a module script; a `context` with another value is an error.
pub fn script_kind(script: &Script) -> (r: Result<ScriptContext, CompileError>)
    ensures
        r matches Ok(c) ==> spec_script_kind(script.attributes@, script.attributes@.len() as int) == Ok::<
            ScriptContext,
            (usize, usize),
        >(c),
        r matches Err(e) ==> e.code == "script_invalid_context" && spec_script_kind(
            script.attributes@,
            script.attributes@.len() as int,
        ) == Err::<ScriptContext, (usize, usize)>((e.start, e.end)),
        r matches Err(e) ==> e.message@ == "If the context attribute is supplied, its value must be \"module\""@,
{
    let mut context = ScriptContext::Default;
    let mut i: usize = 0;
    while i < script.attributes.len()
        invariant
            i <= script.attributes@.len(),
            spec_script_kind(script.attributes@, i as int) == Ok::<ScriptContext, (usize, usize)>(context),
        decreases script.attributes.len() - i,
    {
        if let Attribute::Attribute(a) = &script.attributes[i] {
            if text_is(a.name.as_slice(), "module") {
                context = ScriptContext::Module;
            } else if text_is(a.name.as_slice(), "context") {
                let is_module = match attribute_static_text(&a.value) {
                    Some(t) => text_is(t.as_slice(), "module"),
                    None => false,
                };
                if !is_module {
                    proof {
                        assert(spec_script_kind(script.attributes@, i + 1) == Err::<ScriptContext, (usize, usize)>(
                            (a.start, a.end),
                        ));
                        lemma_script_kind_error_stays(script.attributes@, i as int + 1, script.attributes@.len() as int);
                    }
                    return Err(
                        compile_error_custom(
                            "script_invalid_context",
                            chars_of("If the context attribute is supplied, its value must be \"module\""),
                            a.start,
                            a.end,
                        ),
                    );
                }
                context = ScriptContext::Module;
            }
        }
        i += 1;
    }
    Ok(context)
}

/// Once the attributes up to `from` give an error, those up to any later
/// `to` give the same error.
proof fn lemma_script_kind_error_stays(attributes: Seq<Attribute>, from: int, to: int)
    requires
        0 <= from <= to,
        spec_script_kind(attributes, from) is Err,
    ensures
        spec_script_kind(attributes, to) == spec_script_kind(attributes, from),
    decreases to - from,
{
    if to > from {
        lemma_script_kind_error_stays(attributes, from, to - 1);
    }
}

/// Whether a script has `lang="ts"` or `lang="typescript"`.
pub fn script_has_typescript_lang(script: &Script) -> (r: bool)
    ensures
        r == exists|i: int|
            0 <= i < script.attributes@.len() && (#[trigger] script.attributes@[i] matches Attribute::Attribute(a)
                && a.name@ == "lang"@ && (spec_static_text(a.value) == Some("ts"@) || spec_static_text(a.value)
                == Some("typescript"@))),
{
    let mut i: usize = 0;
    while i < script.attributes.len()
        invariant
            i <= script.attributes@.len(),
            forall|j: int|
                0 <= j < i ==> !(#[trigger] script.attributes@[j] matches Attribute::Attribute(a) && a.name@
                    == "lang"@ && (spec_static_text(a.value) == Some("ts"@) || spec_static_text(a.value) == Some(
                    "typescript"@,
                ))),
        decreases script.attributes.len() - i,
    {
        if let Attribute::Attribute(a) = &script.attributes[i] {
            if text_is(a.name.as_slice(), "lang") {
                let ts = match attribute_static_text(&a.value) {
                    Some(t) => text_is(t.as_slice(), "ts") || text_is(t.as_slice(), "typescript"),
                    None => false,
                };
                if ts {
                    return true;
                }
            }
        }
        i += 1;
    }
    false
}

/// What the script check reports for the scripts `scripts[i..]`, after an
/// instance script was seen (`saw_default`) and a module script was seen
/// (`saw_module`).
pub open spec fn script_duplicate_from(scripts: Seq<Script>, i: int, saw_default: bool, saw_module: bool) -> Option<
    crate::diagnostics::ErrorView,
>
    decreases scripts.len() - i,
{
    if 0 <= i < scripts.len() {
        match spec_script_kind(scripts[i].attributes@, scripts[i].attributes@.len() as int) {
            Err((s, e)) => Some(
                (
                    "script_invalid_context"@,
                    "If the context attribute is supplied, its value must be \"module\""@,
                    s as int,
                    e as int,
                ),
            ),
            Ok(ScriptContext::Default) => if saw_default {
                Some((
                    "script_duplicate"@,
                    "A component can have a single top-level `<script>` element and/or a single top-level `<script module>` element"@,
                    scripts[i].start as int,
                    scripts[i].start as int,
                ))
            } else {
                script_duplicate_from(scripts, i + 1, true, saw_module)
            },
            Ok(ScriptContext::Module) => if saw_module {
                Some((
                    "script_duplicate"@,
                    "A component can have a single top-level `<script>` element and/or a single top-level `<script module>` element"@,
                    scripts[i].start as int,
                    scripts[i].start as int,
                ))
            } else {
                script_duplicate_from(scripts, i + 1, saw_default, true)
            },
        }
    } else {
        None
    }
}

/// The message of a duplicate script.
fn script_duplicate_error(start: usize) -> (e: CompileError)
    ensures
        e.message@ == "A component can have a single top-level `<script>` element and/or a single top-level `<script module>` element"@,
        e.code == "script_duplicate",
        e.start == start,
        e.end == start,
{
    compile_error_custom(
        "script_duplicate",
        chars_of(
            "A component can have a single top-level `<script>` element and/or a single top-level `<script module>` element",
        ),
        start,
        start,
    )
}

/// The first script error in document order: an invalid `context`, or a
/// second instance script, or a second module script.
pub fn detect_script_duplicate(root: &Root) -> (r: Option<CompileError>)
    ensures
        root.scripts@.len() <= 1 ==> (r matches Some(e) ==> e.code == "script_invalid_context"),
        r matches Some(e) ==> e.code == "script_invalid_context" || e.code == "script_duplicate",
        crate::diagnostics::option_error_view(r) == script_duplicate_from(root.scripts@, 0, false, false),
{
    let mut saw_default = false;
    let mut saw_module = false;
    let mut i: usize = 0;
    while i < root.scripts.len()
        invariant
            i <= root.scripts@.len(),
            i == 0 ==> !saw_default && !saw_module,
            i <= 1 ==> !(saw_default && saw_module),
            script_duplicate_from(root.scripts@, i as int, saw_default, saw_module) == script_duplicate_from(
                root.scripts@,
                0,
                false,
                false,
            ),
        decreases root.scripts.len() - i,
    {
        match script_kind(&root.scripts[i]) {
            Err(e) => {
                return Some(e);
            },
            Ok(ScriptContext::Default) => {
                if saw_default {
                    return Some(script_duplicate_error(root.scripts[i].start));
                }
                saw_default = true;
            },
            Ok(ScriptContext::Module) => {
                if saw_module {
                    return Some(script_duplicate_error(root.scripts[i].start));
                }
                saw_module = true;
            },
        }
        i += 1;
    }
    None
}

/// The TypeScript features that cannot stand in a component's script.
#[derive(Clone, Copy, PartialEq, Eq, Structural)]
pub enum TsFeature {
    AccessorFields,
    Decorators,
    Enums,
    NamespaceValues,
    ConstructorParameterModifiers,
}

/// How the error message names a feature.
pub open spec fn spec_ts_description(f: TsFeature) -> Seq<char> {
    match f {
        TsFeature::AccessorFields => "accessor fields (related TSC proposal is not stage 4 yet)"@,
        TsFeature::Decorators => "decorators (related TSC proposal is not stage 4 yet)"@,
        TsFeature::Enums => "enums"@,
        TsFeature::NamespaceValues => "namespaces with non-type nodes"@,
        TsFeature::ConstructorParameterModifiers => "accessibility modifiers on constructor parameters"@,
    }
}

/// The message of the error for a refused TypeScript feature.
pub open spec fn ts_feature_message(f: TsFeature) -> Seq<char> {
    "TypeScript language features like "@ + spec_ts_description(f)
        + " are not natively supported, and their use is generally discouraged. Outside of `<script>` tags, these features are not supported. For use within `<script>` tags, you will need to use a preprocessor to convert it to JavaScript before it gets passed to the Svelte compiler. If you are using `vitePreprocess`, make sure to specifically enable preprocessing script tags (`vitePreprocess({ script: true })`)"@
}

/// Whether a script has `lang="ts"` or `lang="typescript"`.
pub open spec fn spec_script_is_typescript(script: Script) -> bool {
    exists|i: int|
        0 <= i < script.attributes@.len() && (#[trigger] script.attributes@[i] matches Attribute::Attribute(a)
            && a.name@ == "lang"@ && (spec_static_text(a.value) == Some("ts"@) || spec_static_text(a.value)
            == Some("typescript"@)))
}

/// The first refused TypeScript feature among the TypeScript scripts `scripts[i..]`.
pub open spec fn ts_scripts_from(scripts: Seq<Script>, i: int) -> Option<crate::diagnostics::ErrorView>
    decreases scripts.len() - i,
{
    if 0 <= i < scripts.len() {
        if spec_script_is_typescript(scripts[i]) && spec_find_ts(scripts[i].content, false) is Some {
            match spec_find_ts(scripts[i].content, false) {
                Some((f, s, e)) => Some(("typescript_invalid_feature"@, ts_feature_message(f), s, e)),
                None => None,
            }
        } else {
            ts_scripts_from(scripts, i + 1)
        }
    } else {
        None
    }
}

impl TsFeature {
    /// How the error message names the feature.
    pub fn description(self) -> (r: &'static str)
        ensures
            r@ == spec_ts_description(self),
    {
        match self {
            TsFeature::AccessorFields => "accessor fields (related TSC proposal is not stage 4 yet)",
            TsFeature::Decorators => "decorators (related TSC proposal is not stage 4 yet)",
            TsFeature::Enums => "enums",
            TsFeature::NamespaceValues => "namespaces with non-type nodes",
            TsFeature::ConstructorParameterModifiers => "accessibility modifiers on constructor parameters",
        }
    }
}

/// A feature found, with the range of the node that uses it.
pub struct TsIssue {
    pub feature: TsFeature,
    pub start: usize,
    pub end: usize,
}

/// The issue of `feature` at `node`, when the node has a range.
fn ts_issue(node: &EstreeNode, feature: TsFeature) -> (r: Option<TsIssue>)
    ensures
        r matches Some(i) ==> i.feature == feature,
        issue_view(r) == spec_ts_issue(*node, feature),
{
    match node_span(node) {
        Some((start, end)) => Some(TsIssue { feature, start, end }),
        None => None,
    }
}

/// Whether a parameter property carries `readonly` or an accessibility modifier.
fn has_ts_parameter_modifiers(node: &EstreeNode) -> (r: bool)
    ensures
        r == spec_has_parameter_modifiers(*node),
{
    field_bool_named(node, "readonly") == Some(true) || field_str_named(node, "accessibility").is_some()
}

/// Whether `node` is a constructor: a method definition of kind `constructor`.
fn is_constructor_definition(node: &EstreeNode) -> (r: bool)
    ensures
        r == spec_constructor_definition(*node),
{
    type_is(node, "MethodDefinition") && match field_str_named(node, "kind") {
        Some(k) => text_is(k.as_slice(), "constructor"),
        None => false,
    }
}

/// Whether the string member `key` of `node` is `value`.
fn str_field_is(node: &EstreeNode, key: &str, value: &str) -> (r: bool)
    ensures
        r == (crate::estree::spec_field(*node, key@) matches Some(EstreeValue::String(s)) && s@ == value@),
{
    match field_str_named(node, key) {
        Some(s) => text_is(s.as_slice(), value),
        None => false,
    }
}

/// Whether a specifier is a type-only one, by `kind_key`.
pub open spec fn type_specifier(v: EstreeValue, kind_key: Seq<char>) -> bool {
    v matches EstreeValue::Object(s) && (crate::estree::spec_field(s, kind_key) matches Some(EstreeValue::String(k))
        && k@ == "type"@)
}

/// Whether every specifier in `specifiers` is a type-only one, by `kind_key`,
/// and there is at least one.
fn all_type_specifiers(specifiers: &Vec<EstreeValue>, kind_key: &str) -> (r: bool)
    ensures
        r == (specifiers@.len() > 0 && forall|i: int|
            0 <= i < specifiers@.len() ==> type_specifier(#[trigger] specifiers@[i], kind_key@)),
{
    if specifiers.len() == 0 {
        return false;
    }
    let mut i: usize = 0;
    while i < specifiers.len()
        invariant
            i <= specifiers@.len(),
            forall|j: int| 0 <= j < i ==> type_specifier(#[trigger] specifiers@[j], kind_key@),
        decreases specifiers.len() - i,
    {
        let ok = match &specifiers[i] {
            EstreeValue::Object(s) => str_field_is(s, kind_key, "type"),
            _ => false,
        };
        if !ok {
            return false;
        }
        i += 1;
    }
    true
}

/// The type name of a node, when it has one.
pub open spec fn spec_type_name(node: EstreeNode) -> Option<Seq<char>> {
    match crate::estree::spec_field(node, "type"@) {
        Some(EstreeValue::String(t)) => Some(t@),
        _ => None,
    }
}

/// Whether the string member `key` of `node` is `value`.
pub open spec fn spec_str_is(node: EstreeNode, key: Seq<char>, value: Seq<char>) -> bool {
    crate::estree::spec_field(node, key) matches Some(EstreeValue::String(s)) && s@ == value
}

/// Whether a member `specifiers` lists only type-only specifiers, by `kind_key`.
pub open spec fn only_type_specifiers(node: EstreeNode, kind_key: Seq<char>) -> bool {
    match crate::estree::spec_field(node, "specifiers"@) {
        Some(EstreeValue::Array(sp)) => sp@.len() > 0 && forall|i: int|
            0 <= i < sp@.len() ==> type_specifier(#[trigger] sp@[i], kind_key),
        _ => false,
    }
}

/// Whether a statement inside a namespace produces a value at run time.
pub open spec fn spec_entry_has_runtime(node: EstreeNode) -> bool
    decreases node, 1int, 0int,
{
    match spec_type_name(node) {
        None => false,
        Some(t) => if t == "TSInterfaceDeclaration"@ || t == "TSTypeAliasDeclaration"@ || t == "TSDeclareFunction"@ {
            false
        } else if t == "ImportDeclaration"@ {
            if spec_str_is(node, "importKind"@, "type"@) {
                false
            } else {
                match crate::estree::spec_field(node, "specifiers"@) {
                    Some(EstreeValue::Array(_)) => !only_type_specifiers(node, "importKind"@),
                    _ => true,
                }
            }
        } else if t == "ExportNamedDeclaration"@ {
            if spec_str_is(node, "exportKind"@, "type"@) {
                false
            } else {
                match crate::estree::spec_field(node, "declaration"@) {
                    Some(EstreeValue::Object(d)) => {
                        proof {
                            crate::estree::lemma_field_object_decreases(&node, "declaration"@, d);
                        }
                        spec_entry_has_runtime(d)
                    },
                    _ => match crate::estree::spec_field(node, "specifiers"@) {
                        Some(EstreeValue::Array(_)) => !only_type_specifiers(node, "exportKind"@),
                        _ => true,
                    },
                }
            }
        } else if t == "ExportDefaultDeclaration"@ || t == "ExportAllDeclaration"@ {
            !spec_str_is(node, "exportKind"@, "type"@)
        } else if t == "ClassDeclaration"@ || t == "VariableDeclaration"@ {
            !(crate::estree::spec_field(node, "declare"@) == Some(EstreeValue::Bool(true)))
        } else if t == "TSModuleDeclaration"@ {
            match crate::estree::spec_field(node, "body"@) {
                Some(EstreeValue::Object(b)) => {
                    proof {
                        crate::estree::lemma_field_object_decreases(&node, "body"@, b);
                    }
                    spec_namespace_has_runtime(b)
                },
                _ => false,
            }
        } else {
            true
        },
    }
}

/// Whether one of the statements `body[i..]` of the namespace block `node`
/// produces a value at run time.
pub open spec fn runtime_entries_from(node: EstreeNode, body: Vec<EstreeValue>, i: int) -> bool
    decreases node, 1int, body@.len() - i,
{
    if crate::estree::spec_field(node, "body"@) == Some(EstreeValue::Array(body)) && 0 <= i < body@.len() {
        match body@[i] {
            EstreeValue::Object(e) => {
                proof {
                    crate::estree::lemma_field_array_item_decreases(&node, "body"@, body, i);
                }
                spec_entry_has_runtime(e) || runtime_entries_from(node, body, i + 1)
            },
            _ => runtime_entries_from(node, body, i + 1),
        }
    } else {
        false
    }
}

/// Whether a namespace body produces a value at run time.
pub open spec fn spec_namespace_has_runtime(node: EstreeNode) -> bool
    decreases node, 2int, 0int,
{
    if crate::estree::spec_type_is(node, "TSModuleBlock"@) {
        match crate::estree::spec_field(node, "body"@) {
            Some(EstreeValue::Array(body)) => runtime_entries_from(node, body, 0),
            _ => false,
        }
    } else if crate::estree::spec_type_is(node, "TSModuleDeclaration"@) {
        match crate::estree::spec_field(node, "body"@) {
            Some(EstreeValue::Object(b)) => {
                proof {
                    crate::estree::lemma_field_object_decreases(&node, "body"@, b);
                }
                spec_namespace_has_runtime(b)
            },
            _ => false,
        }
    } else {
        spec_entry_has_runtime(node)
    }
}

/// Whether a statement inside a namespace produces a value at run time.
fn namespace_entry_has_runtime_node(node: &EstreeNode) -> (r: bool)
    ensures
        r == spec_entry_has_runtime(*node),
    decreases node, 1nat,
{
    let t = match node_type(node) {
        Some(t) => t,
        None => return false,
    };
    let t = t.as_slice();
    if text_is(t, "TSInterfaceDeclaration") || text_is(t, "TSTypeAliasDeclaration") || text_is(t, "TSDeclareFunction") {
        false
    } else if text_is(t, "ImportDeclaration") {
        if str_field_is(node, "importKind", "type") {
            return false;
        }
        match field_array_named(node, "specifiers") {
            Some(specifiers) => !all_type_specifiers(specifiers, "importKind"),
            None => true,
        }
    } else if text_is(t, "ExportNamedDeclaration") {
        if str_field_is(node, "exportKind", "type") {
            return false;
        }
        if let Some(declaration) = field_object_named(node, "declaration") {
            proof {
                crate::estree::lemma_field_object_decreases(node, "declaration"@, *declaration);
            }
            return namespace_entry_has_runtime_node(declaration);
        }
        match field_array_named(node, "specifiers") {
            Some(specifiers) => !all_type_specifiers(specifiers, "exportKind"),
            None => true,
        }
    } else if text_is(t, "ExportDefaultDeclaration") || text_is(t, "ExportAllDeclaration") {
        !str_field_is(node, "exportKind", "type")
    } else if text_is(t, "ClassDeclaration") || text_is(t, "VariableDeclaration") {
        field_bool_named(node, "declare") != Some(true)
    } else if text_is(t, "TSModuleDeclaration") {
        match field_object_named(node, "body") {
            Some(body) => {
                proof {
                    crate::estree::lemma_field_object_decreases(node, "body"@, *body);
                }
                namespace_has_runtime(body)
            },
            None => false,
        }
    } else {
        true
    }
}

/// Whether a namespace body produces a value at run time.
fn namespace_has_runtime(node: &EstreeNode) -> (r: bool)
    ensures
        r == spec_namespace_has_runtime(*node),
    decreases node, 2nat,
{
    if type_is(node, "TSModuleBlock") {
        match field_array_named(node, "body") {
            Some(body) => {
                let mut i: usize = 0;
                while i < body.len()
                    invariant
                        i <= body@.len(),
                        crate::estree::spec_field(*node, "body"@) == Some(EstreeValue::Array(*body)),
                        crate::estree::spec_type_is(*node, "TSModuleBlock"@),
                        runtime_entries_from(*node, *body, i as int) == runtime_entries_from(*node, *body, 0),
                    decreases body.len() - i,
                {
                    if let EstreeValue::Object(entry) = &body[i] {
                        proof {
                            crate::estree::lemma_field_array_item_decreases(node, "body"@, *body, i as int);
                        }
                        if namespace_entry_has_runtime_node(entry) {
                            return true;
                        }
                    }
                    i += 1;
                }
                false
            },
            None => false,
        }
    } else if type_is(node, "TSModuleDeclaration") {
        match field_object_named(node, "body") {
            Some(body) => {
                proof {
                    crate::estree::lemma_field_object_decreases(node, "body"@, *body);
                }
                namespace_has_runtime(body)
            },
            None => false,
        }
    } else {
        namespace_entry_has_runtime_node(node)
    }
}

/// A found feature as plain values: the feature and its range.
pub open spec fn issue_view(r: Option<TsIssue>) -> Option<(TsFeature, int, int)> {
    match r {
        Some(i) => Some((i.feature, i.start as int, i.end as int)),
        None => None,
    }
}

/// The issue of `feature` at `node`, when the node has a range.
pub open spec fn spec_ts_issue(node: EstreeNode, feature: TsFeature) -> Option<(TsFeature, int, int)> {
    match crate::estree::spec_estree_span(node) {
        Some((s, e)) => Some((feature, s, e)),
        None => None,
    }
}

/// Whether a parameter property carries `readonly` or an accessibility modifier.
pub open spec fn spec_has_parameter_modifiers(node: EstreeNode) -> bool {
    crate::estree::spec_field(node, "readonly"@) == Some(EstreeValue::Bool(true)) || crate::estree::spec_field(
        node,
        "accessibility"@,
    ) matches Some(EstreeValue::String(_))
}

/// Whether `node` is a method definition of kind `constructor`.
pub open spec fn spec_constructor_definition(node: EstreeNode) -> bool {
    crate::estree::spec_type_is(node, "MethodDefinition"@) && spec_str_is(node, "kind"@, "constructor"@)
}

/// The first of two optional findings.
pub open spec fn first_issue(a: Option<(TsFeature, int, int)>, b: Option<(TsFeature, int, int)>) -> Option<
    (TsFeature, int, int),
> {
    if a is Some {
        a
    } else {
        b
    }
}

/// The first TypeScript feature, in pre-order, that the compiler refuses in
/// the tree at `node`; `in_constructor` tells whether an ancestor is a constructor.
pub open spec fn spec_find_ts(node: EstreeNode, in_constructor: bool) -> Option<(TsFeature, int, int)>
    decreases node, 2int, 0int,
{
    let t = spec_type_name(node);
    if t == Some("Decorator"@) {
        spec_ts_issue(node, TsFeature::Decorators)
    } else if t == Some("AccessorProperty"@) {
        spec_ts_issue(node, TsFeature::AccessorFields)
    } else if t == Some("PropertyDefinition"@) && crate::estree::spec_field(node, "accessor"@) == Some(
        EstreeValue::Bool(true),
    ) {
        spec_ts_issue(node, TsFeature::AccessorFields)
    } else if t == Some("TSEnumDeclaration"@) {
        spec_ts_issue(node, TsFeature::Enums)
    } else if t == Some("TSParameterProperty"@) && spec_has_parameter_modifiers(node) && in_constructor {
        spec_ts_issue(node, TsFeature::ConstructorParameterModifiers)
    } else if t == Some("TSModuleDeclaration"@) {
        match crate::estree::spec_field(node, "body"@) {
            Some(EstreeValue::Object(b)) => {
                proof {
                    crate::estree::lemma_field_object_decreases(&node, "body"@, b);
                }
                let nested = spec_find_ts(b, in_constructor);
                if nested is Some {
                    nested
                } else if spec_namespace_has_runtime(b) {
                    spec_ts_issue(node, TsFeature::NamespaceValues)
                } else {
                    None
                }
            },
            _ => None,
        }
    } else {
        ts_fields_from(node, 0, in_constructor || spec_constructor_definition(node))
    }
}

/// The first refused feature inside the members `node.fields[i..]`.
pub open spec fn ts_fields_from(node: EstreeNode, i: int, in_constructor: bool) -> Option<(TsFeature, int, int)>
    decreases node, 1int, node.fields@.len() - i,
{
    if 0 <= i < node.fields@.len() {
        proof {
            assert(decreases_to!(node => node.fields));
            assert(decreases_to!(node.fields => node.fields@));
            assert(decreases_to!(node.fields@ => node.fields@[i]));
            assert(decreases_to!(node.fields@[i] => node.fields@[i].value));
        }
        first_issue(ts_in_value(node.fields@[i].value, in_constructor), ts_fields_from(node, i + 1, in_constructor))
    } else {
        None
    }
}

/// The first refused feature inside a member value.
pub open spec fn ts_in_value(v: EstreeValue, in_constructor: bool) -> Option<(TsFeature, int, int)>
    decreases v, 1int, 0int,
{
    match v {
        EstreeValue::Object(o) => spec_find_ts(o, in_constructor),
        EstreeValue::Array(_) => ts_items_from(v, 0, in_constructor),
        _ => None,
    }
}

/// The first refused feature inside the items `[i..]` of an array value.
pub open spec fn ts_items_from(v: EstreeValue, i: int, in_constructor: bool) -> Option<(TsFeature, int, int)>
    decreases v, 0int, (match v {
        EstreeValue::Array(items) => items@.len() as int,
        _ => 0int,
    }) - i,
{
    match v {
        EstreeValue::Array(items) => if 0 <= i < items@.len() {
            proof {
                assert(decreases_to!(v => v->Array_0));
                assert(decreases_to!(items => items@));
                assert(decreases_to!(items@ => items@[i]));
            }
            match items@[i] {
                EstreeValue::Object(o) => {
                    proof {
                        assert(decreases_to!(items@[i] => items@[i]->Object_0));
                    }
                    first_issue(spec_find_ts(o, in_constructor), ts_items_from(v, i + 1, in_constructor))
                },
                _ => ts_items_from(v, i + 1, in_constructor),
            }
        } else {
            None
        },
        _ => None,
    }
}

/// The first TypeScript feature, in pre-order, that the compiler refuses in
/// the tree at `node`. `in_constructor` tells whether an ancestor is a
/// constructor. A namespace is refused after what is refused inside it.
fn find_typescript_invalid_feature(node: &EstreeNode, in_constructor: bool) -> (r: Option<TsIssue>)
    ensures
        issue_view(r) == spec_find_ts(*node, in_constructor),
    decreases node, 2nat,
{
    if let Some(t) = node_type(node) {
        let t = t.as_slice();
        if text_is(t, "Decorator") {
            return ts_issue(node, TsFeature::Decorators);
        }
        if text_is(t, "AccessorProperty") {
            return ts_issue(node, TsFeature::AccessorFields);
        }
        if text_is(t, "PropertyDefinition") && field_bool_named(node, "accessor") == Some(true) {
            return ts_issue(node, TsFeature::AccessorFields);
        }
        if text_is(t, "TSEnumDeclaration") {
            return ts_issue(node, TsFeature::Enums);
        }
        if text_is(t, "TSParameterProperty") && has_ts_parameter_modifiers(node) && in_constructor {
            return ts_issue(node, TsFeature::ConstructorParameterModifiers);
        }
        if text_is(t, "TSModuleDeclaration") {
            return match field_object_named(node, "body") {
                Some(body) => {
                    proof {
                        crate::estree::lemma_field_object_decreases(node, "body"@, *body);
                    }
                    let nested = find_typescript_invalid_feature(body, in_constructor);
                    if nested.is_some() {
                        nested
                    } else if namespace_has_runtime(body) {
                        ts_issue(node, TsFeature::NamespaceValues)
                    } else {
                        None
                    }
                },
                None => None,
            };
        }
    }
    let inner = in_constructor || is_constructor_definition(node);
    assert(spec_find_ts(*node, in_constructor) == ts_fields_from(*node, 0, inner));
    let mut i: usize = 0;
    while i < node.fields.len()
        invariant
            i <= node.fields@.len(),
            ts_fields_from(*node, i as int, inner) == spec_find_ts(*node, in_constructor),
        decreases node.fields.len() - i,
    {
        proof {
            assert(decreases_to!(*node => node.fields));
            assert(decreases_to!(node.fields => node.fields@));
            assert(decreases_to!(node.fields@ => node.fields@[i as int]));
            assert(decreases_to!(node.fields@[i as int] => node.fields@[i as int].value));
        }
        if let Some(issue) = find_typescript_invalid_feature_in_value(&node.fields[i].value, inner) {
            return Some(issue);
        }
        i += 1;
    }
    None
}

/// The first refused TypeScript feature inside a member value.
fn find_typescript_invalid_feature_in_value(value: &EstreeValue, in_constructor: bool) -> (r: Option<TsIssue>)
    ensures
        issue_view(r) == ts_in_value(*value, in_constructor),
    decreases value, 1nat,
{
    match value {
        EstreeValue::Object(node) => find_typescript_invalid_feature(node, in_constructor),
        EstreeValue::Array(items) => {
            let mut i: usize = 0;
            while i < items.len()
                invariant
                    i <= items@.len(),
                    *value == EstreeValue::Array(*items),
                    ts_items_from(*value, i as int, in_constructor) == ts_in_value(*value, in_constructor),
                decreases items.len() - i,
            {
                proof {
                    assert(decreases_to!(*value => value->Array_0));
                    assert(decreases_to!(*items => items@));
                    assert(decreases_to!(items@ => items@[i as int]));
                }
                if let EstreeValue::Object(node) = &items[i] {
                    proof {
                        assert(decreases_to!(items@[i as int] => items@[i as int]->Object_0));
                    }
                    if let Some(issue) = find_typescript_invalid_feature(node, in_constructor) {
                        return Some(issue);
                    }
                }
                i += 1;
            }
            None
        },
        _ => None,
    }
}

/// The error for a refused TypeScript feature.
pub fn typescript_invalid_feature_error(issue: &TsIssue) -> (e: CompileError)
    ensures
        e.code == "typescript_invalid_feature",
        e.start == issue.start,
        e.end == issue.end,
        e.message@ == ts_feature_message(issue.feature),
{
    let mut m = chars_of("TypeScript language features like ");
    push_str(&mut m, issue.feature.description());
    push_str(
        &mut m,
        " are not natively supported, and their use is generally discouraged. Outside of `<script>` tags, these features are not supported. For use within `<script>` tags, you will need to use a preprocessor to convert it to JavaScript before it gets passed to the Svelte compiler. If you are using `vitePreprocess`, make sure to specifically enable preprocessing script tags (`vitePreprocess({ script: true })`)",
    );
    compile_error_custom("typescript_invalid_feature", m, issue.start, issue.end)
}

/// The first refused TypeScript feature in the TypeScript scripts of the component.
pub fn detect_typescript_invalid_features(root: &Root) -> (r: Option<CompileError>)
    ensures
        r matches Some(e) ==> e.code == "typescript_invalid_feature",
        root.scripts@.len() == 0 ==> r is None,
        crate::diagnostics::option_error_view(r) == ts_scripts_from(root.scripts@, 0),
{
    let mut i: usize = 0;
    while i < root.scripts.len()
        invariant
            i <= root.scripts@.len(),
            ts_scripts_from(root.scripts@, i as int) == ts_scripts_from(root.scripts@, 0),
        decreases root.scripts.len() - i,
    {
        let script = &root.scripts[i];
        if script_has_typescript_lang(script) {
            if let Some(issue) = find_typescript_invalid_feature(&script.content, false) {
                return Some(typescript_invalid_feature_error(&issue));
            }
        }
        i += 1;
    }
    None
}

} // verus!
