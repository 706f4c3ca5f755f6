//! Checks of the component's scripts that runes mode brings: `$`-prefixed
//! names, `beforeUpdate` imports and `export let` in runes mode, rune names
//! that do not exist, the renamed `$effect.active`, and props whose names
//! start with `$$`.
use vstd::prelude::*;

use crate::ast::Root;
use crate::consts::{callee_name, spec_callee_name, spec_object_field, spec_str_field};
use crate::diagnostics::{compile_error_custom, error_view, first_error, option_error_view, CompileError, ErrorView};
use crate::estree::{
    deref_node, field_array, field_bool, field_object, field_str, find_first_node, first_match, identifier_name,
    lemma_first_match_holds,
    node_span, spec_estree_span, spec_field, spec_type_is, type_is, EstreeNode, EstreeValue, RawField,
};
use crate::structure::spec_identifier_name;
use crate::text::{chars_of, push_chars, push_str, spec_at, starts_with, text_is};

verus! {

/// The statements of a program, if it has a body.
pub open spec fn spec_body(program: EstreeNode) -> Option<Seq<EstreeValue>> {
    match spec_field(program, "body"@) {
        Some(EstreeValue::Array(items)) => Some(items@),
        _ => None,
    }
}

/// The items held by a member, if it holds an array.
pub open spec fn spec_array_field(node: EstreeNode, key: Seq<char>) -> Option<Seq<EstreeValue>> {
    match spec_field(node, key) {
        Some(EstreeValue::Array(items)) => Some(items@),
        _ => None,
    }
}

// ----- `$`-prefixed names

/// Whether a name starts with `$` and a letter or `_`: a name that runes reserve.
pub open spec fn spec_dollar_prefixed_invalid(name: Seq<char>) -> bool {
    name.len() > 1 && name[0] == '$' && (name[1] == '_' || ('a' <= name[1] && name[1] <= 'z') || ('A' <= name[1]
        && name[1] <= 'Z'))
}

/// Whether a name starts with `$` and a letter or `_`.
pub fn is_dollar_prefixed_invalid_identifier(name: &[char]) -> (r: bool)
    ensures
        r == spec_dollar_prefixed_invalid(name@),
{
    if name.len() <= 1 || name[0] != '$' {
        return false;
    }
    let c = name[1];
    c == '_' || ('a' <= c && c <= 'z') || ('A' <= c && c <= 'Z')
}

/// The one-character range of the `$` of a node that is an identifier with a
/// reserved name and has a range.
pub open spec fn dollar_at(id: EstreeNode) -> Option<(int, int)> {
    match spec_identifier_name(id) {
        Some(name) => if spec_dollar_prefixed_invalid(name) {
            match spec_estree_span(id) {
                Some((s, _)) => if s < usize::MAX {
                    Some((s, s + 1))
                } else {
                    None
                },
                None => None,
            }
        } else {
            None
        },
        None => None,
    }
}

/// The first declarator among `ds[k..]` whose name is reserved, stopping at a
/// declarator without an `id`.
pub open spec fn dollar_in_declarators(ds: Seq<EstreeValue>, k: int) -> Option<(int, int)>
    decreases ds.len() - k,
{
    if k < 0 || k >= ds.len() {
        None
    } else {
        match ds[k] {
            EstreeValue::Object(d) => match spec_object_field(d, "id"@) {
                Some(id) => match dollar_at(id) {
                    Some(r) => Some(r),
                    None => dollar_in_declarators(ds, k + 1),
                },
                None => None,
            },
            _ => dollar_in_declarators(ds, k + 1),
        }
    }
}

/// The first import specifier among `sp[k..]` whose local name is reserved.
pub open spec fn dollar_in_specifiers(sp: Seq<EstreeValue>, k: int) -> Option<(int, int)>
    decreases sp.len() - k,
{
    if k < 0 || k >= sp.len() {
        None
    } else {
        match sp[k] {
            EstreeValue::Object(s) => match spec_object_field(s, "local"@) {
                Some(local) => match dollar_at(local) {
                    Some(r) => Some(r),
                    None => dollar_in_specifiers(sp, k + 1),
                },
                None => dollar_in_specifiers(sp, k + 1),
            },
            _ => dollar_in_specifiers(sp, k + 1),
        }
    }
}

/// The reserved name that a top-level statement declares or imports, if any.
pub open spec fn dollar_in_statement(st: EstreeValue) -> Option<(int, int)> {
    match st {
        EstreeValue::Object(s) => if spec_type_is(s, "VariableDeclaration"@) {
            match spec_array_field(s, "declarations"@) {
                Some(ds) => dollar_in_declarators(ds, 0),
                None => None,
            }
        } else if spec_type_is(s, "ImportDeclaration"@) {
            match spec_array_field(s, "specifiers"@) {
                Some(sp) => dollar_in_specifiers(sp, 0),
                None => None,
            }
        } else {
            None
        },
        _ => None,
    }
}

/// The first reserved name that the top-level statements `body[i..]` declare or import.
pub open spec fn dollar_in_body(body: Seq<EstreeValue>, i: int) -> Option<(int, int)>
    decreases body.len() - i,
{
    if i < 0 || i >= body.len() {
        None
    } else {
        match dollar_in_statement(body[i]) {
            Some(r) => Some(r),
            None => dollar_in_body(body, i + 1),
        }
    }
}

/// The one-character range of the `$` of a reserved identifier.
fn dollar_at_node(id: &EstreeNode) -> (r: Option<(usize, usize)>)
    ensures
        match r {
            Some((s, e)) => dollar_at(*id) == Some((s as int, e as int)),
            None => dollar_at(*id) is None,
        },
{
    let name = match identifier_name(id) {
        Some(n) => n,
        None => return None,
    };
    if !is_dollar_prefixed_invalid_identifier(name.as_slice()) {
        return None;
    }
    match node_span(id) {
        Some((s, _)) => {
            if s < usize::MAX {
                Some((s, s + 1))
            } else {
                None
            }
        },
        None => None,
    }
}

fn dollar_in_declaration(declaration: &EstreeNode) -> (r: Option<(usize, usize)>)
    ensures
        match r {
            Some((s, e)) => (match spec_array_field(*declaration, "declarations"@) {
                Some(ds) => dollar_in_declarators(ds, 0),
                None => None,
            }) == Some((s as int, e as int)),
            None => (match spec_array_field(*declaration, "declarations"@) {
                Some(ds) => dollar_in_declarators(ds, 0),
                None => None,
            }) is None,
        },
{
    let ds = match field_array(declaration, RawField::Declarations) {
        Some(d) => d,
        None => return None,
    };
    let mut k: usize = 0;
    while k < ds.len()
        invariant
            k <= ds@.len(),
            spec_array_field(*declaration, "declarations"@) == Some(ds@),
            dollar_in_declarators(ds@, 0) == dollar_in_declarators(ds@, k as int),
        decreases ds.len() - k,
    {
        if let EstreeValue::Object(d) = &ds[k] {
            let id = match field_object(d, RawField::Id) {
                Some(id) => id,
                None => return None,
            };
            if let Some(r) = dollar_at_node(id) {
                return Some(r);
            }
        }
        k += 1;
    }
    None
}

fn dollar_in_import(statement: &EstreeNode) -> (r: Option<(usize, usize)>)
    ensures
        match r {
            Some((s, e)) => (match spec_array_field(*statement, "specifiers"@) {
                Some(sp) => dollar_in_specifiers(sp, 0),
                None => None,
            }) == Some((s as int, e as int)),
            None => (match spec_array_field(*statement, "specifiers"@) {
                Some(sp) => dollar_in_specifiers(sp, 0),
                None => None,
            }) is None,
        },
{
    let sp = match field_array(statement, RawField::Specifiers) {
        Some(s) => s,
        None => return None,
    };
    let mut k: usize = 0;
    while k < sp.len()
        invariant
            k <= sp@.len(),
            spec_array_field(*statement, "specifiers"@) == Some(sp@),
            dollar_in_specifiers(sp@, 0) == dollar_in_specifiers(sp@, k as int),
        decreases sp.len() - k,
    {
        if let EstreeValue::Object(s) = &sp[k] {
            if let Some(local) = field_object(s, RawField::Local) {
                if let Some(r) = dollar_at_node(local) {
                    return Some(r);
                }
            }
        }
        k += 1;
    }
    None
}

/// The first reserved name that a program's top-level statements declare or import.
pub fn find_dollar_prefix_invalid_in_program(program: &EstreeNode) -> (r: Option<(usize, usize)>)
    ensures
        match r {
            Some((s, e)) => (match spec_body(*program) {
                Some(b) => dollar_in_body(b, 0),
                None => None,
            }) == Some((s as int, e as int)),
            None => (match spec_body(*program) {
                Some(b) => dollar_in_body(b, 0),
                None => None,
            }) is None,
        },
{
    let body = match field_array(program, RawField::Body) {
        Some(b) => b,
        None => return None,
    };
    let mut i: usize = 0;
    while i < body.len()
        invariant
            i <= body@.len(),
            spec_body(*program) == Some(body@),
            dollar_in_body(body@, 0) == dollar_in_body(body@, i as int),
        decreases body.len() - i,
    {
        if let EstreeValue::Object(st) = &body[i] {
            if type_is(st, "VariableDeclaration") {
                if let Some(r) = dollar_in_declaration(st) {
                    return Some(r);
                }
            } else if type_is(st, "ImportDeclaration") {
                if let Some(r) = dollar_in_import(st) {
                    return Some(r);
                }
            }
        }
        i += 1;
    }
    None
}

/// What a reserved name is reported with.
pub open spec fn dollar_prefix_message() -> Seq<char> {
    "The $ prefix is reserved, and cannot be used for variables and imports"@
}

/// The first reserved name that a script declares or imports at its top level.
pub open spec fn script_dollar(script: Option<crate::ast::Script>) -> Option<(int, int)> {
    match script {
        Some(sc) => match spec_body(sc.content) {
            Some(b) => dollar_in_body(b, 0),
            None => None,
        },
        None => None,
    }
}

/// The error for a range found by a check, with the given code and message.
pub open spec fn range_error(found: Option<(int, int)>, code: Seq<char>, message: Seq<char>) -> Option<ErrorView> {
    match found {
        Some((s, e)) => Some((code, message, s, e)),
        None => None,
    }
}

/// The first of two ranges that is there.
pub open spec fn first_range(a: Option<(int, int)>, b: Option<(int, int)>) -> Option<(int, int)> {
    if a is Some {
        a
    } else {
        b
    }
}

/// The first reserved name that the module script, then the instance
/// script, declares or imports at its top level.
pub open spec fn spec_detect_dollar_prefix_invalid(root: &Root) -> Option<ErrorView> {
    range_error(
        first_range(script_dollar(root.module), script_dollar(root.instance)),
        "dollar_prefix_invalid"@,
        dollar_prefix_message(),
    )
}

/// The first reserved name that the module script, then the instance
/// script, declares or imports at its top level.
pub fn detect_dollar_prefix_invalid(root: &Root) -> (r: Option<CompileError>)
    ensures
        option_error_view(r) == spec_detect_dollar_prefix_invalid(root),
{
    if let Some(m) = &root.module {
        if let Some((s, e)) = find_dollar_prefix_invalid_in_program(&m.content) {
            return Some(
                compile_error_custom(
                    "dollar_prefix_invalid",
                    chars_of("The $ prefix is reserved, and cannot be used for variables and imports"),
                    s,
                    e,
                ),
            );
        }
    }
    if let Some(i) = &root.instance {
        if let Some((s, e)) = find_dollar_prefix_invalid_in_program(&i.content) {
            return Some(
                compile_error_custom(
                    "dollar_prefix_invalid",
                    chars_of("The $ prefix is reserved, and cannot be used for variables and imports"),
                    s,
                    e,
                ),
            );
        }
    }
    None
}

// ----- `beforeUpdate` imported in runes mode

/// The text of a string literal node.
pub open spec fn spec_literal_string(node: EstreeNode) -> Option<Seq<char>> {
    if spec_type_is(node, "Literal"@) {
        spec_str_field(node, "value"@)
    } else {
        None
    }
}

/// The range reported for an import specifier of `beforeUpdate`: its local
/// name, else its imported name, else the specifier itself, when it has one.
pub open spec fn before_update_at(sp: EstreeNode) -> Option<(int, int)> {
    match spec_object_field(sp, "imported"@) {
        Some(imp) => if spec_type_is(sp, "ImportSpecifier"@) && spec_identifier_name(imp) == Some("beforeUpdate"@) {
            match spec_object_field(sp, "local"@) {
                Some(l) if spec_estree_span(l) is Some => spec_estree_span(l),
                _ => first_range(spec_estree_span(imp), spec_estree_span(sp)),
            }
        } else {
            None
        },
        None => None,
    }
}

/// The first import of `beforeUpdate` among the specifiers `sp[k..]`.
pub open spec fn before_update_in_specifiers(sp: Seq<EstreeValue>, k: int) -> Option<(int, int)>
    decreases sp.len() - k,
{
    if k < 0 || k >= sp.len() {
        None
    } else {
        match sp[k] {
            EstreeValue::Object(x) => match before_update_at(x) {
                Some(r) => Some(r),
                None => before_update_in_specifiers(sp, k + 1),
            },
            _ => before_update_in_specifiers(sp, k + 1),
        }
    }
}

/// The import of `beforeUpdate` from `svelte` that a top-level statement makes, if any.
pub open spec fn before_update_in_statement(st: EstreeValue) -> Option<(int, int)> {
    match st {
        EstreeValue::Object(s) => if spec_type_is(s, "ImportDeclaration"@) && (spec_object_field(s, "source"@) matches Some(
            src,
        ) && spec_literal_string(src) == Some("svelte"@)) {
            match spec_array_field(s, "specifiers"@) {
                Some(sp) => before_update_in_specifiers(sp, 0),
                None => None,
            }
        } else {
            None
        },
        _ => None,
    }
}

/// The first import of `beforeUpdate` from `svelte` among the top-level statements `body[i..]`.
pub open spec fn before_update_in_body(body: Seq<EstreeValue>, i: int) -> Option<(int, int)>
    decreases body.len() - i,
{
    if i < 0 || i >= body.len() {
        None
    } else {
        match before_update_in_statement(body[i]) {
            Some(r) => Some(r),
            None => before_update_in_body(body, i + 1),
        }
    }
}

fn literal_string(node: &EstreeNode) -> (r: Option<&Vec<char>>)
    ensures
        match r {
            Some(t) => spec_literal_string(*node) == Some(t@),
            None => spec_literal_string(*node) is None,
        },
{
    if type_is(node, "Literal") {
        field_str(node, RawField::Value)
    } else {
        None
    }
}

fn before_update_at_specifier(sp: &EstreeNode) -> (r: Option<(usize, usize)>)
    ensures
        match r {
            Some((s, e)) => before_update_at(*sp) == Some((s as int, e as int)),
            None => before_update_at(*sp) is None,
        },
{
    let imported = match field_object(sp, RawField::Imported) {
        Some(i) => i,
        None => return None,
    };
    if !type_is(sp, "ImportSpecifier") {
        return None;
    }
    let is_before_update = match identifier_name(imported) {
        Some(n) => text_is(n.as_slice(), "beforeUpdate"),
        None => false,
    };
    if !is_before_update {
        return None;
    }
    if let Some(local) = field_object(sp, RawField::Local) {
        if let Some(span) = node_span(local) {
            return Some(span);
        }
    }
    match node_span(imported) {
        Some(span) => Some(span),
        None => node_span(sp),
    }
}

fn before_update_in_import(statement: &EstreeNode) -> (r: Option<(usize, usize)>)
    ensures
        match r {
            Some((s, e)) => (match spec_array_field(*statement, "specifiers"@) {
                Some(sp) => before_update_in_specifiers(sp, 0),
                None => None,
            }) == Some((s as int, e as int)),
            None => (match spec_array_field(*statement, "specifiers"@) {
                Some(sp) => before_update_in_specifiers(sp, 0),
                None => None,
            }) is None,
        },
{
    let sp = match field_array(statement, RawField::Specifiers) {
        Some(s) => s,
        None => return None,
    };
    let mut k: usize = 0;
    while k < sp.len()
        invariant
            k <= sp@.len(),
            spec_array_field(*statement, "specifiers"@) == Some(sp@),
            before_update_in_specifiers(sp@, 0) == before_update_in_specifiers(sp@, k as int),
        decreases sp.len() - k,
    {
        if let EstreeValue::Object(x) = &sp[k] {
            if let Some(r) = before_update_at_specifier(x) {
                return Some(r);
            }
        }
        k += 1;
    }
    None
}

/// The first import of `beforeUpdate` from `svelte` at the top level of a program.
pub fn find_before_update_import_in_program(program: &EstreeNode) -> (r: Option<(usize, usize)>)
    ensures
        match r {
            Some((s, e)) => (match spec_body(*program) {
                Some(b) => before_update_in_body(b, 0),
                None => None,
            }) == Some((s as int, e as int)),
            None => (match spec_body(*program) {
                Some(b) => before_update_in_body(b, 0),
                None => None,
            }) is None,
        },
{
    let body = match field_array(program, RawField::Body) {
        Some(b) => b,
        None => return None,
    };
    let mut i: usize = 0;
    while i < body.len()
        invariant
            i <= body@.len(),
            spec_body(*program) == Some(body@),
            before_update_in_body(body@, 0) == before_update_in_body(body@, i as int),
        decreases body.len() - i,
    {
        if let EstreeValue::Object(st) = &body[i] {
            if type_is(st, "ImportDeclaration") {
                let from_svelte = match field_object(st, RawField::Source) {
                    Some(src) => match literal_string(src) {
                        Some(t) => text_is(t.as_slice(), "svelte"),
                        None => false,
                    },
                    None => false,
                };
                if from_svelte {
                    if let Some(r) = before_update_in_import(st) {
                        return Some(r);
                    }
                }
            }
        }
        i += 1;
    }
    None
}

/// The first import of `beforeUpdate` from `svelte` in the instance script.
pub open spec fn spec_detect_runes_mode_invalid_import(root: &Root) -> Option<ErrorView> {
    range_error(
        match root.instance {
            Some(sc) => match spec_body(sc.content) {
                Some(b) => before_update_in_body(b, 0),
                None => None,
            },
            None => None,
        },
        "runes_mode_invalid_import"@,
        "`beforeUpdate` cannot be used in runes mode"@,
    )
}

/// The first import of `beforeUpdate` from `svelte` in the instance script.
pub fn detect_runes_mode_invalid_import(root: &Root) -> (r: Option<CompileError>)
    ensures
        option_error_view(r) == spec_detect_runes_mode_invalid_import(root),
{
    let script = match &root.instance {
        Some(s) => s,
        None => return None,
    };
    match find_before_update_import_in_program(&script.content) {
        Some((s, e)) => Some(
            compile_error_custom("runes_mode_invalid_import", chars_of("`beforeUpdate` cannot be used in runes mode"), s, e),
        ),
        None => None,
    }
}

// ----- `export let` in runes mode

/// The range reported for a top-level `export let`: from the start of the
/// statement over `export let`, or to its end when it is shorter.
pub open spec fn export_let_in_statement(st: EstreeValue) -> Option<(int, int)> {
    match st {
        EstreeValue::Object(s) => if spec_type_is(s, "ExportNamedDeclaration"@) && spec_object_field(s, "source"@) is None
            && (spec_object_field(s, "declaration"@) matches Some(d) && spec_type_is(d, "VariableDeclaration"@)
            && spec_str_field(d, "kind"@) == Some("let"@)) {
            match spec_estree_span(s) {
                Some((start, end)) => Some((start, if start + 10 < end { start + 10 } else { end })),
                None => None,
            }
        } else {
            None
        },
        _ => None,
    }
}

/// The first top-level `export let` among `body[i..]`.
pub open spec fn export_let_in_body(body: Seq<EstreeValue>, i: int) -> Option<(int, int)>
    decreases body.len() - i,
{
    if i < 0 || i >= body.len() {
        None
    } else {
        match export_let_in_statement(body[i]) {
            Some(r) => Some(r),
            None => export_let_in_body(body, i + 1),
        }
    }
}

/// The first top-level `export let` of a program.
pub fn find_legacy_export_let_in_program(program: &EstreeNode) -> (r: Option<(usize, usize)>)
    ensures
        match r {
            Some((s, e)) => (match spec_body(*program) {
                Some(b) => export_let_in_body(b, 0),
                None => None,
            }) == Some((s as int, e as int)),
            None => (match spec_body(*program) {
                Some(b) => export_let_in_body(b, 0),
                None => None,
            }) is None,
        },
{
    let body = match field_array(program, RawField::Body) {
        Some(b) => b,
        None => return None,
    };
    let mut i: usize = 0;
    while i < body.len()
        invariant
            i <= body@.len(),
            spec_body(*program) == Some(body@),
            export_let_in_body(body@, 0) == export_let_in_body(body@, i as int),
        decreases body.len() - i,
    {
        if let EstreeValue::Object(st) = &body[i] {
            if type_is(st, "ExportNamedDeclaration") && field_object(st, RawField::Source).is_none() {
                if let Some(d) = field_object(st, RawField::Declaration) {
                    let is_let = type_is(d, "VariableDeclaration") && match field_str(d, RawField::Kind) {
                        Some(k) => text_is(k.as_slice(), "let"),
                        None => false,
                    };
                    if is_let {
                        if let Some((start, end)) = node_span(st) {
                            let e = if start <= usize::MAX - 10 && start + 10 < end {
                                start + 10
                            } else {
                                end
                            };
                            return Some((start, e));
                        }
                    }
                }
            }
        }
        i += 1;
    }
    None
}

/// The first top-level `export let` of the instance script.
pub open spec fn spec_detect_legacy_export_invalid(root: &Root) -> Option<ErrorView> {
    range_error(
        match root.instance {
            Some(sc) => match spec_body(sc.content) {
                Some(b) => export_let_in_body(b, 0),
                None => None,
            },
            None => None,
        },
        "legacy_export_invalid"@,
        "Cannot use `export let` in runes mode \u{2014} use `$props()` instead"@,
    )
}

/// The first top-level `export let` of the instance script.
pub fn detect_legacy_export_invalid(root: &Root) -> (r: Option<CompileError>)
    ensures
        option_error_view(r) == spec_detect_legacy_export_invalid(root),
{
    let script = match &root.instance {
        Some(s) => s,
        None => return None,
    };
    match find_legacy_export_let_in_program(&script.content) {
        Some((s, e)) => Some(
            compile_error_custom(
                "legacy_export_invalid",
                chars_of("Cannot use `export let` in runes mode \u{2014} use `$props()` instead"),
                s,
                e,
            ),
        ),
        None => None,
    }
}

// ----- rune names that do not exist

/// The object and property names of a member expression `a.b` whose
/// object and property are identifiers.
pub open spec fn member_names(n: EstreeNode) -> Option<(Seq<char>, Seq<char>)> {
    if spec_type_is(n, "MemberExpression"@) {
        match (spec_object_field(n, "object"@), spec_object_field(n, "property"@)) {
            (Some(o), Some(p)) => match (spec_identifier_name(o), spec_identifier_name(p)) {
                (Some(a), Some(b)) => Some((a, b)),
                _ => None,
            },
            _ => None,
        }
    } else {
        None
    }
}

/// Whether `$object.property` names no rune: `$state` takes only `raw` and
/// `snapshot`, `$effect` only `active`, `pre`, `tracking` and `root`.
pub open spec fn spec_unknown_rune_member(object: Seq<char>, property: Seq<char>) -> bool {
    (object == "$state"@ && property != "raw"@ && property != "snapshot"@) || (object == "$effect"@ && property
        != "active"@ && property != "pre"@ && property != "tracking"@ && property != "root"@)
}

/// The members of `$state` and `$effect` that exist are `$state.raw`,
/// `$state.snapshot`, `$effect.active` (reported on its own), `$effect.pre`,
/// `$effect.tracking` and `$effect.root`; every other member of those two is
/// an unknown rune, and members of other objects are not runes at all.
pub proof fn lemma_rune_members(object: Seq<char>, property: Seq<char>)
    ensures
        object == "$state"@ ==> (spec_unknown_rune_member(object, property) <==> !(property == "raw"@ || property
            == "snapshot"@)),
        object == "$effect"@ ==> (spec_unknown_rune_member(object, property) <==> !(property == "active"@ || property
            == "pre"@ || property == "tracking"@ || property == "root"@)),
        object != "$state"@ && object != "$effect"@ ==> !spec_unknown_rune_member(object, property),
{
    reveal_strlit("$state");
    reveal_strlit("$effect");
    assert("$state"@.len() == 6);
    assert("$effect"@.len() == 7);
}

/// Spread arguments are refused exactly in calls of `$derived`,
/// `$derived.by`, `$state` and `$state.raw`.
pub proof fn lemma_spread_checked_runes(name: Seq<char>)
    ensures
        spec_spread_checked_rune("$derived"@),
        spec_spread_checked_rune("$derived.by"@),
        spec_spread_checked_rune("$state"@),
        spec_spread_checked_rune("$state.raw"@),
        spec_spread_checked_rune(name) ==> name == "$derived"@ || name == "$derived.by"@ || name == "$state"@ || name
            == "$state.raw"@,
{
}

/// Whether a node is a member expression naming no rune, with a range.
pub open spec fn spec_invalid_rune_node(n: EstreeNode) -> bool {
    (member_names(n) matches Some((o, p)) && spec_unknown_rune_member(o, p)) && spec_estree_span(n) is Some
}

/// Whether a node is `$effect.active`, with a range.
pub open spec fn spec_effect_active_node(n: EstreeNode) -> bool {
    member_names(n) == Some(("$effect"@, "active"@)) && spec_estree_span(n) is Some
}

fn member_names_of(n: &EstreeNode) -> (r: Option<(&Vec<char>, &Vec<char>)>)
    ensures
        match r {
            Some((a, b)) => member_names(*n) == Some((a@, b@)),
            None => member_names(*n) is None,
        },
{
    if !type_is(n, "MemberExpression") {
        return None;
    }
    let object = match field_object(n, RawField::Object) {
        Some(o) => o,
        None => return None,
    };
    let property = match field_object(n, RawField::Property) {
        Some(p) => p,
        None => return None,
    };
    match (identifier_name(object), identifier_name(property)) {
        (Some(a), Some(b)) => Some((a, b)),
        _ => None,
    }
}

fn is_invalid_rune_node(n: &EstreeNode) -> (r: bool)
    ensures
        r == spec_invalid_rune_node(*n),
{
    match member_names_of(n) {
        Some((o, p)) => {
            let o = o.as_slice();
            let p = p.as_slice();
            let unknown = (text_is(o, "$state") && !text_is(p, "raw") && !text_is(p, "snapshot")) || (text_is(
                o,
                "$effect",
            ) && !text_is(p, "active") && !text_is(p, "pre") && !text_is(p, "tracking") && !text_is(p, "root"));
            unknown && node_span(n).is_some()
        },
        None => false,
    }
}

fn is_effect_active_node(n: &EstreeNode) -> (r: bool)
    ensures
        r == spec_effect_active_node(*n),
{
    match member_names_of(n) {
        Some((o, p)) => text_is(o.as_slice(), "$effect") && text_is(p.as_slice(), "active") && node_span(n).is_some(),
        None => false,
    }
}

/// What a member expression naming no rune is reported with.
pub open spec fn invalid_rune_message(n: EstreeNode) -> Seq<char> {
    let (o, p) = member_names(n).unwrap();
    "`"@ + o + "."@ + p + "` is not a valid rune"@
}

/// The first member expression in a program, in pre-order, that names no
/// rune, reported over its range.
pub open spec fn spec_detect_invalid_name(program: &EstreeNode) -> Option<ErrorView> {
    match first_match(*program, |n: EstreeNode| spec_invalid_rune_node(n)) {
        Some(n) => Some(
            (
                "rune_invalid_name"@,
                invalid_rune_message(n),
                spec_estree_span(n).unwrap().0,
                spec_estree_span(n).unwrap().1,
            ),
        ),
        None => None,
    }
}

/// The first member expression in a program, in pre-order, that names no
/// rune, reported over its range.
pub fn detect_invalid_name(program: &EstreeNode) -> (r: Option<CompileError>)
    ensures
        option_error_view(r) == spec_detect_invalid_name(program),
{
    let found = find_first_node(program, &is_invalid_rune_node, Ghost(|n: EstreeNode| spec_invalid_rune_node(n)));
    proof {
        lemma_first_match_holds(*program, |n: EstreeNode| spec_invalid_rune_node(n));
    }
    let n = match found {
        Some(n) => n,
        None => return None,
    };
    let (o, p) = match member_names_of(n) {
        Some(names) => names,
        None => return None,
    };
    let (start, end) = match node_span(n) {
        Some(span) => span,
        None => return None,
    };
    let mut m = chars_of("`");
    push_chars(&mut m, o.as_slice());
    push_str(&mut m, ".");
    push_chars(&mut m, p.as_slice());
    push_str(&mut m, "` is not a valid rune");
    Some(compile_error_custom("rune_invalid_name", m, start, end))
}

/// The first `$effect.active` in a program, in pre-order, reported as renamed.
pub open spec fn spec_detect_renamed_effect_active(program: &EstreeNode) -> Option<ErrorView> {
    match first_match(*program, |n: EstreeNode| spec_effect_active_node(n)) {
        Some(n) => Some(
            (
                "rune_renamed"@,
                "`$effect.active` is now `$effect.tracking`"@,
                spec_estree_span(n).unwrap().0,
                spec_estree_span(n).unwrap().1,
            ),
        ),
        None => None,
    }
}

/// The first `$effect.active` in a program, in pre-order, reported as renamed.
pub fn detect_renamed_effect_active(program: &EstreeNode) -> (r: Option<CompileError>)
    ensures
        option_error_view(r) == spec_detect_renamed_effect_active(program),
{
    let found = find_first_node(program, &is_effect_active_node, Ghost(|n: EstreeNode| spec_effect_active_node(n)));
    proof {
        lemma_first_match_holds(*program, |n: EstreeNode| spec_effect_active_node(n));
    }
    let n = match found {
        Some(n) => n,
        None => return None,
    };
    match node_span(n) {
        Some((start, end)) => Some(
            compile_error_custom("rune_renamed", chars_of("`$effect.active` is now `$effect.tracking`"), start, end),
        ),
        None => None,
    }
}

// ----- spread arguments and argument counts of runes

/// The name a call expression calls.
pub open spec fn spec_call_name(n: EstreeNode) -> Option<Seq<char>> {
    if spec_type_is(n, "CallExpression"@) {
        match spec_object_field(n, "callee"@) {
            Some(callee) => spec_callee_name(callee),
            None => None,
        }
    } else {
        None
    }
}

/// The number of arguments of a call: the length of its `arguments`, or 0.
pub open spec fn spec_argument_count(n: EstreeNode) -> int {
    match spec_array_field(n, "arguments"@) {
        Some(args) => args.len() as int,
        None => 0,
    }
}

/// The runes that take no spread argument.
pub open spec fn spec_spread_checked_rune(name: Seq<char>) -> bool {
    name == "$derived"@ || name == "$derived.by"@ || name == "$state"@ || name == "$state.raw"@
}

/// Whether some argument among `args` is a spread element.
pub open spec fn has_spread_argument(args: Seq<EstreeValue>) -> bool {
    exists|k: int| 0 <= k < args.len() && (#[trigger] args[k] matches EstreeValue::Object(a) && spec_type_is(a, "SpreadElement"@))
}

/// Whether a node calls a rune that takes no spread argument with one, and has a range.
pub open spec fn spec_spread_rune_call(n: EstreeNode) -> bool {
    &&& spec_call_name(n) matches Some(name) && spec_spread_checked_rune(name)
    &&& spec_array_field(n, "arguments"@) matches Some(args) && has_spread_argument(args)
    &&& spec_estree_span(n) is Some
}

fn has_spread(args: &Vec<EstreeValue>) -> (r: bool)
    ensures
        r == has_spread_argument(args@),
{
    let mut k: usize = 0;
    while k < args.len()
        invariant
            k <= args@.len(),
            forall|j: int| 0 <= j < k ==> !(#[trigger] args@[j] matches EstreeValue::Object(a) && spec_type_is(a, "SpreadElement"@)),
        decreases args.len() - k,
    {
        if let EstreeValue::Object(a) = &args[k] {
            if type_is(a, "SpreadElement") {
                return true;
            }
        }
        k += 1;
    }
    false
}

fn call_name(n: &EstreeNode) -> (r: Option<Vec<char>>)
    ensures
        match r {
            Some(name) => spec_call_name(*n) == Some(name@),
            None => spec_call_name(*n) is None,
        },
{
    if !type_is(n, "CallExpression") {
        return None;
    }
    match field_object(n, RawField::Callee) {
        Some(callee) => callee_name(callee),
        None => None,
    }
}

fn is_spread_rune_call(n: &EstreeNode) -> (r: bool)
    ensures
        r == spec_spread_rune_call(*n),
{
    let name = match call_name(n) {
        Some(name) => name,
        None => return false,
    };
    let checked = text_is(name.as_slice(), "$derived") || text_is(name.as_slice(), "$derived.by") || text_is(
        name.as_slice(),
        "$state",
    ) || text_is(name.as_slice(), "$state.raw");
    if !checked {
        return false;
    }
    let spread = match field_array(n, RawField::Arguments) {
        Some(args) => has_spread(args),
        None => false,
    };
    spread && node_span(n).is_some()
}

/// Where a call with a spread argument is reported: from its callee (or its
/// end, when the callee has no range) to its end.
pub open spec fn spread_call_range(n: EstreeNode) -> (int, int) {
    let end = spec_estree_span(n).unwrap().1;
    let start = match spec_object_field(n, "callee"@) {
        Some(c) => match spec_estree_span(c) {
            Some((s, _)) => s,
            None => end,
        },
        None => end,
    };
    (start, end)
}

/// The first call of `$derived`, `$derived.by`, `$state` or `$state.raw`
/// with a spread argument in a program, in pre-order.
pub open spec fn spec_detect_rune_invalid_spread(program: &EstreeNode) -> Option<ErrorView> {
    match first_match(*program, |n: EstreeNode| spec_spread_rune_call(n)) {
        Some(n) => Some(
            (
                "rune_invalid_spread"@,
                "`"@ + spec_call_name(n).unwrap() + "` cannot be called with a spread argument"@,
                spread_call_range(n).0,
                spread_call_range(n).1,
            ),
        ),
        None => None,
    }
}

/// The first call of `$derived`, `$derived.by`, `$state` or `$state.raw`
/// with a spread argument in a program, in pre-order.
pub fn detect_rune_invalid_spread(program: &EstreeNode) -> (r: Option<CompileError>)
    ensures
        option_error_view(r) == spec_detect_rune_invalid_spread(program),
{
    let found = find_first_node(program, &is_spread_rune_call, Ghost(|n: EstreeNode| spec_spread_rune_call(n)));
    proof {
        lemma_first_match_holds(*program, |n: EstreeNode| spec_spread_rune_call(n));
    }
    let n = match found {
        Some(n) => n,
        None => return None,
    };
    let name = match call_name(n) {
        Some(name) => name,
        None => return None,
    };
    let end = match node_span(n) {
        Some((_, e)) => e,
        None => return None,
    };
    let start = match field_object(n, RawField::Callee) {
        Some(c) => match node_span(c) {
            Some((s, _)) => s,
            None => end,
        },
        None => end,
    };
    let mut m = chars_of("`");
    push_chars(&mut m, name.as_slice());
    push_str(&mut m, "` cannot be called with a spread argument");
    Some(compile_error_custom("rune_invalid_spread", m, start, end))
}

/// What a rune called with the wrong number of arguments is reported with, if
/// `count` arguments are wrong for the rune `name`.
pub open spec fn spec_argument_count_message(name: Seq<char>, count: int) -> Option<Seq<char>> {
    if name == "$derived"@ && count != 1 {
        Some("`$derived` must be called with exactly one argument"@)
    } else if name == "$effect"@ && count != 1 {
        Some("`$effect` must be called with exactly one argument"@)
    } else if name == "$state.raw"@ && count > 1 {
        Some("`$state.raw` must be called with zero or one arguments"@)
    } else if name == "$state.snapshot"@ && count != 1 {
        Some("`$state.snapshot` must be called with exactly one argument"@)
    } else if name == "$state"@ && count > 1 {
        Some("`$state` must be called with zero or one arguments"@)
    } else {
        None
    }
}

/// The argument counts the runes take: `$derived`, `$effect` and
/// `$state.snapshot` exactly one, `$state` and `$state.raw` at most one;
/// any other count is reported with the rune's own message, and other names
/// are never reported.
pub proof fn lemma_rune_argument_counts(name: Seq<char>, count: int)
    requires
        count >= 0,
    ensures
        name == "$effect"@ ==> (spec_argument_count_message(name, count) == if count == 1 {
            None
        } else {
            Some("`$effect` must be called with exactly one argument"@)
        }),
        name == "$derived"@ ==> (spec_argument_count_message(name, count) == if count == 1 {
            None
        } else {
            Some("`$derived` must be called with exactly one argument"@)
        }),
        name == "$state.snapshot"@ ==> (spec_argument_count_message(name, count) == if count == 1 {
            None
        } else {
            Some("`$state.snapshot` must be called with exactly one argument"@)
        }),
        name == "$state"@ ==> (spec_argument_count_message(name, count) == if count <= 1 {
            None
        } else {
            Some("`$state` must be called with zero or one arguments"@)
        }),
        name == "$state.raw"@ ==> (spec_argument_count_message(name, count) == if count <= 1 {
            None
        } else {
            Some("`$state.raw` must be called with zero or one arguments"@)
        }),
        name != "$effect"@ && name != "$derived"@ && name != "$state.snapshot"@ && name != "$state"@ && name
            != "$state.raw"@ ==> spec_argument_count_message(name, count) is None,
{
    reveal_strlit("$effect");
    reveal_strlit("$derived");
    reveal_strlit("$state.snapshot");
    reveal_strlit("$state");
    reveal_strlit("$state.raw");
    assert("$effect"@.len() == 7);
    assert("$derived"@.len() == 8);
    assert("$state.snapshot"@.len() == 15);
    assert("$state"@.len() == 6);
    assert("$state.raw"@.len() == 10);
}

/// Whether a node calls a rune with the wrong number of arguments, and has a range.
pub open spec fn spec_bad_argument_count(n: EstreeNode) -> bool {
    (spec_call_name(n) matches Some(name) && spec_argument_count_message(name, spec_argument_count(n)) is Some)
        && spec_estree_span(n) is Some
}

fn argument_count(n: &EstreeNode) -> (r: usize)
    ensures
        r == spec_argument_count(*n),
{
    match field_array(n, RawField::Arguments) {
        Some(args) => args.len(),
        None => 0,
    }
}

fn argument_count_message(name: &[char], count: usize) -> (r: Option<&'static str>)
    ensures
        match r {
            Some(m) => spec_argument_count_message(name@, count as int) == Some(m@),
            None => spec_argument_count_message(name@, count as int) is None,
        },
{
    if text_is(name, "$derived") && count != 1 {
        Some("`$derived` must be called with exactly one argument")
    } else if text_is(name, "$effect") && count != 1 {
        Some("`$effect` must be called with exactly one argument")
    } else if text_is(name, "$state.raw") && count > 1 {
        Some("`$state.raw` must be called with zero or one arguments")
    } else if text_is(name, "$state.snapshot") && count != 1 {
        Some("`$state.snapshot` must be called with exactly one argument")
    } else if text_is(name, "$state") && count > 1 {
        Some("`$state` must be called with zero or one arguments")
    } else {
        None
    }
}

fn is_bad_argument_count(n: &EstreeNode) -> (r: bool)
    ensures
        r == spec_bad_argument_count(*n),
{
    match call_name(n) {
        Some(name) => argument_count_message(name.as_slice(), argument_count(n)).is_some() && node_span(n).is_some(),
        None => false,
    }
}

/// The first call of a rune in a program, in pre-order, with a number of
/// arguments that the rune does not take, reported over the call.
pub open spec fn spec_detect_rune_argument_count(program: &EstreeNode) -> Option<ErrorView> {
    match first_match(*program, |n: EstreeNode| spec_bad_argument_count(n)) {
        Some(n) => Some(
            (
                "rune_invalid_arguments_length"@,
                spec_argument_count_message(spec_call_name(n).unwrap(), spec_argument_count(n)).unwrap(),
                spec_estree_span(n).unwrap().0,
                spec_estree_span(n).unwrap().1,
            ),
        ),
        None => None,
    }
}

/// The first call of a rune in a program, in pre-order, with a number of
/// arguments that the rune does not take, reported over the call.
pub fn detect_rune_argument_count(program: &EstreeNode) -> (r: Option<CompileError>)
    ensures
        option_error_view(r) == spec_detect_rune_argument_count(program),
{
    let found = find_first_node(program, &is_bad_argument_count, Ghost(|n: EstreeNode| spec_bad_argument_count(n)));
    proof {
        lemma_first_match_holds(*program, |n: EstreeNode| spec_bad_argument_count(n));
    }
    let n = match found {
        Some(n) => n,
        None => return None,
    };
    let name = match call_name(n) {
        Some(name) => name,
        None => return None,
    };
    let message = match argument_count_message(name.as_slice(), argument_count(n)) {
        Some(m) => m,
        None => return None,
    };
    match node_span(n) {
        Some((s, e)) => Some(compile_error_custom("rune_invalid_arguments_length", chars_of(message), s, e)),
        None => None,
    }
}

/// The first rune error of a program: a rune name that does not exist,
/// `$effect.active`, a wrong number of arguments, a spread argument.
pub open spec fn spec_detect_rune_errors_in_program(program: &EstreeNode) -> Option<ErrorView> {
    first_error(
        spec_detect_invalid_name(program),
        first_error(
            spec_detect_renamed_effect_active(program),
            first_error(spec_detect_rune_argument_count(program), spec_detect_rune_invalid_spread(program)),
        ),
    )
}

/// The first rune error of a program: a rune name that does not exist,
/// `$effect.active`, a wrong number of arguments, a spread argument.
pub fn detect_rune_errors_in_program(program: &EstreeNode) -> (r: Option<CompileError>)
    ensures
        option_error_view(r) == spec_detect_rune_errors_in_program(program),
        r is None ==> {
            &&& first_match(*program, |n: EstreeNode| spec_invalid_rune_node(n)) is None
            &&& first_match(*program, |n: EstreeNode| spec_effect_active_node(n)) is None
            &&& first_match(*program, |n: EstreeNode| spec_bad_argument_count(n)) is None
            &&& first_match(*program, |n: EstreeNode| spec_spread_rune_call(n)) is None
        },
{
    if let Some(e) = detect_invalid_name(program) {
        return Some(e);
    }
    if let Some(e) = detect_renamed_effect_active(program) {
        return Some(e);
    }
    if let Some(e) = detect_rune_argument_count(program) {
        return Some(e);
    }
    detect_rune_invalid_spread(program)
}

} // verus!
