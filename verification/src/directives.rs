//! Checks of attributes and directives on elements and components:
//! sequence expressions, `bind:` expressions and targets, transitions,
//! animations, directives that components do not take, and slot names.
use vstd::prelude::*;

use crate::ast::{
    spec_element, Alternate, Attribute, AttributeValue, AttributeValueList, Component, DirectiveAttribute, Expression, Fragment,
    NamedAttribute, Node, Root, StyleDirective,
};
use crate::bindings::{collect_binding_names, contains_name, has_name, names_set, pattern_binds, push_unique};
use crate::consts::spec_str_field;
use crate::diagnostics::{
    compile_error_custom, compile_error_with_range, first_error, kind_error_view, option_error_view, CompileError,
    CompilerDiagnosticKind, ErrorView,
};
use crate::estree::{
    field_array, field_object, field_str, lemma_field_object_decreases, node_span, node_type, spec_estree_span,
    spec_field, spec_type_is, type_is, EstreeNode, EstreeValue, RawField,
};
use crate::parse::{attribute_static_text, find_named_attribute, spec_named_attribute_from, spec_static_text};
use crate::template::{is_blank, message3, spec_attribute_span, spec_blank};
use crate::text::{chars_of, spec_at, text_is};

verus! {

/// Whether a node wraps an expression in parentheses or a TypeScript form.
pub open spec fn spec_typescript_wrapper(node: EstreeNode) -> bool {
    spec_type_is(node, "ParenthesizedExpression"@) || spec_type_is(node, "TSAsExpression"@) || spec_type_is(
        node,
        "TSSatisfiesExpression"@,
    ) || spec_type_is(node, "TSNonNullExpression"@) || spec_type_is(node, "TSTypeAssertion"@)
}

/// `node` without the parentheses and TypeScript wrappers around it.
pub open spec fn spec_unwrap_typescript(node: EstreeNode) -> EstreeNode
    decreases node,
{
    if spec_typescript_wrapper(node) {
        match spec_field(node, RawField::Expression.spec_key()@) {
            Some(EstreeValue::Object(inner)) => {
                proof {
                    lemma_field_object_decreases(&node, RawField::Expression.spec_key()@, inner);
                }
                spec_unwrap_typescript(inner)
            },
            _ => node,
        }
    } else {
        node
    }
}

/// `node` without the parentheses and TypeScript wrappers around it:
/// `(x)`, `x as T`, `x satisfies T`, `x!` and `<T>x` all give `x`.
pub fn unwrap_typescript_expression(node: &EstreeNode) -> (r: &EstreeNode)
    ensures
        *r == *node || decreases_to!(*node => *r),
        *r == spec_unwrap_typescript(*node),
    decreases node,
{
    let wrapped = type_is(node, "ParenthesizedExpression") || type_is(node, "TSAsExpression") || type_is(
        node,
        "TSSatisfiesExpression",
    ) || type_is(node, "TSNonNullExpression") || type_is(node, "TSTypeAssertion");
    if !wrapped {
        return node;
    }
    match field_object(node, RawField::Expression) {
        Some(inner) => {
            proof {
                lemma_field_object_decreases(node, RawField::Expression.key()@, *inner);
            }
            unwrap_typescript_expression(inner)
        },
        None => node,
    }
}

/// The identifier at the base of a binding target such as `a`, `a.b` or `(a as T).b`.
pub open spec fn spec_binding_base(node: EstreeNode) -> Option<Seq<char>>
    decreases node,
{
    let u = spec_unwrap_typescript(node);
    if spec_type_is(u, "Identifier"@) {
        spec_str_field(u, RawField::Name.spec_key()@)
    } else if spec_type_is(u, "MemberExpression"@) {
        match spec_field(u, RawField::Object.spec_key()@) {
            Some(EstreeValue::Object(object)) => {
                proof {
                    lemma_unwrap_decreases(node);
                    lemma_field_object_decreases(&u, RawField::Object.spec_key()@, object);
                }
                spec_binding_base(object)
            },
            _ => None,
        }
    } else {
        None
    }
}

/// Unwrapping gives the node itself or a part of it.
pub proof fn lemma_unwrap_decreases(node: EstreeNode)
    ensures
        spec_unwrap_typescript(node) == node || decreases_to!(node => spec_unwrap_typescript(node)),
    decreases node,
{
    if spec_typescript_wrapper(node) {
        if let Some(EstreeValue::Object(inner)) = spec_field(node, RawField::Expression.spec_key()@) {
            lemma_field_object_decreases(&node, RawField::Expression.spec_key()@, inner);
            lemma_unwrap_decreases(inner);
        }
    }
}

/// The identifier at the base of a binding target such as `a`, `a.b` or `(a as T).b`.
pub fn binding_base_identifier_name(node: &EstreeNode) -> (r: Option<&Vec<char>>)
    ensures
        r matches Some(n) ==> spec_binding_base(*node) == Some(n@),
        r is None ==> spec_binding_base(*node) is None,
    decreases node,
{
    let node = unwrap_typescript_expression(node);
    if type_is(node, "Identifier") {
        return field_str(node, RawField::Name);
    }
    if type_is(node, "MemberExpression") {
        return match field_object(node, RawField::Object) {
            Some(object) => {
                proof {
                    lemma_field_object_decreases(node, RawField::Object.key()@, *object);
                }
                binding_base_identifier_name(object)
            },
            None => None,
        };
    }
    None
}

/// Whether an import specifier among `specs[i..]` has the local name `n`.
pub open spec fn specifier_locals_from(specs: Seq<EstreeValue>, i: int, n: Seq<char>) -> bool
    decreases specs.len() - i,
{
    if 0 <= i < specs.len() {
        (match specs[i] {
            EstreeValue::Object(sp) => match spec_field(sp, RawField::Local.spec_key()@) {
                Some(EstreeValue::Object(local)) => spec_type_is(local, "Identifier"@) && spec_str_field(
                    local,
                    RawField::Name.spec_key()@,
                ) == Some(n),
                _ => false,
            },
            _ => false,
        }) || specifier_locals_from(specs, i + 1, n)
    } else {
        false
    }
}

/// Whether an import anywhere in the tree at `node` has the local name `n`.
pub open spec fn imports_in_node(node: EstreeNode, n: Seq<char>) -> bool
    decreases node, 1int, 0int,
{
    (spec_type_is(node, "ImportDeclaration"@) && match spec_field(node, RawField::Specifiers.spec_key()@) {
        Some(EstreeValue::Array(specs)) => specifier_locals_from(specs@, 0, n),
        _ => false,
    }) || imports_in_fields(node, 0, n)
}

/// Whether an import inside the members `node.fields[i..]` has the local name `n`.
pub open spec fn imports_in_fields(node: EstreeNode, i: int, n: Seq<char>) -> bool
    decreases node, 0int, node.fields@.len() - i,
{
    if 0 <= i < node.fields@.len() {
        proof {
            assert(decreases_to!(node => node.fields));
            assert(decreases_to!(node.fields => node.fields@));
            assert(decreases_to!(node.fields@ => node.fields@[i]));
            assert(decreases_to!(node.fields@[i] => node.fields@[i].value));
        }
        imports_in_value(node.fields@[i].value, n) || imports_in_fields(node, i + 1, n)
    } else {
        false
    }
}

/// Whether an import inside a member value has the local name `n`.
pub open spec fn imports_in_value(v: EstreeValue, n: Seq<char>) -> bool
    decreases v, 1int, 0int,
{
    match v {
        EstreeValue::Object(o) => imports_in_node(o, n),
        EstreeValue::Array(_) => imports_in_items(v, 0, n),
        _ => false,
    }
}

/// Whether an import inside the items `[i..]` of an array value has the local name `n`.
pub open spec fn imports_in_items(v: EstreeValue, i: int, n: Seq<char>) -> bool
    decreases v, 0int, (match v {
        EstreeValue::Array(items) => items@.len() as int,
        _ => 0int,
    }) - i,
{
    match v {
        EstreeValue::Array(items) => if 0 <= i < items@.len() {
            proof {
                assert(decreases_to!(v => v->Array_0));
                assert(decreases_to!(items => items@));
                assert(decreases_to!(items@ => items@[i]));
            }
            imports_in_value(items@[i], n) || imports_in_items(v, i + 1, n)
        } else {
            false
        },
        _ => false,
    }
}

/// The set of names `f` holds of.
pub open spec fn names_where(f: spec_fn(Seq<char>) -> bool) -> Set<Seq<char>> {
    Set::new(f)
}

/// The local names of an import declaration itself.
pub open spec fn own_imports(node: EstreeNode) -> Set<Seq<char>> {
    names_where(
        |n: Seq<char>|
            spec_type_is(node, "ImportDeclaration"@) && match spec_field(node, RawField::Specifiers.spec_key()@) {
                Some(EstreeValue::Array(specs)) => specifier_locals_from(specs@, 0, n),
                _ => false,
            },
    )
}

/// Adds to `out` the local names of every import in the tree at `node`.
pub fn collect_imported_bindings_in_program(node: &EstreeNode, out: &mut Vec<Vec<char>>)
    ensures
        names_set(final(out)@) == names_set(old(out)@).union(names_where(|n: Seq<char>| imports_in_node(*node, n))),
    decreases node, 1nat,
{
    let ghost start = out@;
    if type_is(node, "ImportDeclaration") {
        if let Some(specifiers) = field_array(node, RawField::Specifiers) {
            let mut i: usize = 0;
            while i < specifiers.len()
                invariant
                    i <= specifiers@.len(),
                    names_set(start).union(names_where(|n: Seq<char>| specifier_locals_from(specifiers@, 0, n)))
                        == names_set(out@).union(
                        names_where(|n: Seq<char>| specifier_locals_from(specifiers@, i as int, n)),
                    ),
                decreases specifiers.len() - i,
            {
                let ghost before = out@;
                let ghost k = i as int;
                if let EstreeValue::Object(specifier) = &specifiers[i] {
                    if let Some(local) = field_object(specifier, RawField::Local) {
                        if type_is(local, "Identifier") {
                            if let Some(name) = field_str(local, RawField::Name) {
                                push_unique(out, name.as_slice());
                            }
                        }
                    }
                }
                i += 1;
                proof {
                    assert(names_set(out@).union(names_where(|n: Seq<char>| specifier_locals_from(specifiers@, k + 1, n)))
                        =~= names_set(before).union(names_where(|n: Seq<char>| specifier_locals_from(specifiers@, k, n))));
                }
            }
            proof {
                assert(names_where(|n: Seq<char>| specifier_locals_from(specifiers@, specifiers@.len() as int, n))
                    =~= Set::empty());
                assert(names_set(out@) =~= names_set(start).union(
                    names_where(|n: Seq<char>| specifier_locals_from(specifiers@, 0, n)),
                ));
                assert(names_where(|n: Seq<char>| specifier_locals_from(specifiers@, 0, n)) =~= own_imports(*node));
                assert(names_set(out@) =~= names_set(start).union(own_imports(*node)));
            }
        } else {
            proof {
                assert(names_set(out@) =~= names_set(start).union(own_imports(*node)));
            }
        }
    } else {
        proof {
            assert(names_set(out@) =~= names_set(start).union(own_imports(*node)));
        }
    }
    let ghost mid = out@;
    let mut i: usize = 0;
    while i < node.fields.len()
        invariant
            i <= node.fields@.len(),
            names_set(mid).union(names_where(|n: Seq<char>| imports_in_fields(*node, 0, n))) == names_set(out@).union(
                names_where(|n: Seq<char>| imports_in_fields(*node, i as int, n)),
            ),
        decreases node.fields.len() - i,
    {
        proof {
            assert(decreases_to!(*node => node.fields));
            assert(decreases_to!(node.fields => node.fields@));
            assert(decreases_to!(node.fields@ => node.fields@[i as int]));
            assert(decreases_to!(node.fields@[i as int] => node.fields@[i as int].value));
        }
        let ghost before = out@;
        let ghost k = i as int;
        collect_imported_in_value(&node.fields[i].value, out);
        i += 1;
        proof {
            assert(names_set(out@).union(names_where(|n: Seq<char>| imports_in_fields(*node, k + 1, n))) =~= names_set(
                before,
            ).union(names_where(|n: Seq<char>| imports_in_fields(*node, k, n))));
        }
    }
    proof {
        assert(names_where(|n: Seq<char>| imports_in_fields(*node, node.fields@.len() as int, n)) =~= Set::empty());
        assert(names_set(out@) =~= names_set(mid).union(names_where(|n: Seq<char>| imports_in_fields(*node, 0, n))));
        assert(names_set(out@) =~= names_set(start).union(names_where(|n: Seq<char>| imports_in_node(*node, n))));
    }
}

/// Adds to `out` the local names of every import inside a member value.
fn collect_imported_in_value(value: &EstreeValue, out: &mut Vec<Vec<char>>)
    ensures
        names_set(final(out)@) == names_set(old(out)@).union(names_where(|n: Seq<char>| imports_in_value(*value, n))),
    decreases value, 0nat,
{
    let ghost start = out@;
    match value {
        EstreeValue::Object(node) => collect_imported_bindings_in_program(node, out),
        EstreeValue::Array(items) => {
            let mut i: usize = 0;
            while i < items.len()
                invariant
                    i <= items@.len(),
                    *value == EstreeValue::Array(*items),
                    names_set(start).union(names_where(|n: Seq<char>| imports_in_items(*value, 0, n))) == names_set(
                        out@,
                    ).union(names_where(|n: Seq<char>| imports_in_items(*value, i as int, n))),
                decreases items.len() - i,
            {
                proof {
                    assert(decreases_to!(*value => value->Array_0));
                    assert(decreases_to!(*items => items@));
                    assert(decreases_to!(items@ => items@[i as int]));
                }
                let ghost before = out@;
                let ghost k = i as int;
                collect_imported_in_value(&items[i], out);
                i += 1;
                proof {
                    assert(names_set(out@).union(names_where(|n: Seq<char>| imports_in_items(*value, k + 1, n)))
                        =~= names_set(before).union(names_where(|n: Seq<char>| imports_in_items(*value, k, n))));
                }
            }
            proof {
                assert(names_where(|n: Seq<char>| imports_in_items(*value, items@.len() as int, n)) =~= Set::empty());
                assert(names_set(out@) =~= names_set(start).union(names_where(|n: Seq<char>| imports_in_items(*value, 0, n))));
                assert(names_where(|n: Seq<char>| imports_in_items(*value, 0, n)) =~= names_where(
                    |n: Seq<char>| imports_in_value(*value, n),
                ));
            }
        },
        _ => {
            proof {
                assert(names_set(out@) =~= names_set(start).union(names_where(|n: Seq<char>| imports_in_value(*value, n))));
            }
        },
    }
}

/// The names imported by a script, if there is one.
pub open spec fn script_imports(script: Option<crate::ast::Script>) -> Set<Seq<char>> {
    match script {
        Some(sc) => names_where(|n: Seq<char>| imports_in_node(sc.content, n)),
        None => Set::empty(),
    }
}

/// The names imported by the module and instance scripts.
pub fn collect_imported_bindings(root: &Root) -> (names: Vec<Vec<char>>)
    ensures
        names_set(names@) == script_imports(root.module).union(script_imports(root.instance)),
{
    let mut names: Vec<Vec<char>> = Vec::new();
    proof {
        assert(names_set(names@) =~= Set::empty());
    }
    if let Some(script) = &root.module {
        collect_imported_bindings_in_program(&script.content, &mut names);
    }
    let ghost mid = names@;
    proof {
        assert(names_set(mid) =~= script_imports(root.module));
    }
    if let Some(script) = &root.instance {
        collect_imported_bindings_in_program(&script.content, &mut names);
    }
    proof {
        assert(names_set(names@) =~= script_imports(root.module).union(script_imports(root.instance)));
    }
    names
}

/// Whether one of the declarators `decls[i..]` binds `n` by its `id` pattern.
pub open spec fn declarators_bind(decls: Seq<EstreeValue>, i: int, n: Seq<char>) -> bool
    decreases decls.len() - i,
{
    if 0 <= i < decls.len() {
        (match decls[i] {
            EstreeValue::Object(d) => match spec_field(d, RawField::Id.spec_key()@) {
                Some(EstreeValue::Object(id)) => pattern_binds(id, n),
                _ => false,
            },
            _ => false,
        }) || declarators_bind(decls, i + 1, n)
    } else {
        false
    }
}

/// Whether a variable declaration binds `n`.
pub open spec fn declaration_binds(declaration: EstreeNode, n: Seq<char>) -> bool {
    match spec_field(declaration, RawField::Declarations.spec_key()@) {
        Some(EstreeValue::Array(ds)) => declarators_bind(ds@, 0, n),
        _ => false,
    }
}

/// Adds to `out` the names bound by the declarators of a variable declaration.
fn collect_bindings_from_variable_declaration(declaration: &EstreeNode, out: &mut Vec<Vec<char>>)
    ensures
        names_set(final(out)@) == names_set(old(out)@).union(names_where(|n: Seq<char>| declaration_binds(*declaration, n))),
{
    let ghost start = out@;
    if let Some(declarations) = field_array(declaration, RawField::Declarations) {
        let mut i: usize = 0;
        while i < declarations.len()
            invariant
                i <= declarations@.len(),
                names_set(start).union(names_where(|n: Seq<char>| declarators_bind(declarations@, 0, n))) == names_set(
                    out@,
                ).union(names_where(|n: Seq<char>| declarators_bind(declarations@, i as int, n))),
            decreases declarations.len() - i,
        {
            let ghost before = out@;
            let ghost k = i as int;
            if let EstreeValue::Object(declarator) = &declarations[i] {
                if let Some(id) = field_object(declarator, RawField::Id) {
                    collect_binding_names(id, out);
                    proof {
                        assert(names_set(out@) =~= names_set(before).union(pattern_names(*id)));
                    }
                }
            }
            i += 1;
            proof {
                assert(names_set(out@).union(names_where(|n: Seq<char>| declarators_bind(declarations@, k + 1, n)))
                    =~= names_set(before).union(names_where(|n: Seq<char>| declarators_bind(declarations@, k, n))));
            }
        }
        proof {
            assert(names_where(|n: Seq<char>| declarators_bind(declarations@, declarations@.len() as int, n))
                =~= Set::empty());
            assert(names_set(out@) =~= names_set(start).union(
                names_where(|n: Seq<char>| declarators_bind(declarations@, 0, n)),
            ));
            assert(names_where(|n: Seq<char>| declarators_bind(declarations@, 0, n)) =~= names_where(
                |n: Seq<char>| declaration_binds(*declaration, n),
            ));
        }
    } else {
        proof {
            assert(names_set(out@) =~= names_set(start).union(
                names_where(|n: Seq<char>| declaration_binds(*declaration, n)),
            ));
        }
    }
}

/// Whether a declaration is a `const` variable declaration.
pub open spec fn spec_const_declaration(node: EstreeNode) -> bool {
    spec_type_is(node, "VariableDeclaration"@) && spec_str_field(node, RawField::Kind.spec_key()@) == Some("const"@)
}

/// Whether a declaration is a `const` variable declaration.
fn is_const_declaration(node: &EstreeNode) -> (r: bool)
    ensures
        r == spec_const_declaration(*node),
{
    type_is(node, "VariableDeclaration") && match field_str(node, RawField::Kind) {
        Some(k) => text_is(k.as_slice(), "const"),
        None => false,
    }
}

/// Whether a top-level statement declares the constant `n`, exported or not.
pub open spec fn statement_constants(statement: EstreeNode, n: Seq<char>) -> bool {
    if spec_const_declaration(statement) {
        declaration_binds(statement, n)
    } else if spec_type_is(statement, "ExportNamedDeclaration"@) {
        match spec_field(statement, RawField::Declaration.spec_key()@) {
            Some(EstreeValue::Object(d)) => spec_const_declaration(d) && declaration_binds(d, n),
            _ => false,
        }
    } else {
        false
    }
}

/// Whether one of the statements `body[i..]` declares the constant `n`.
pub open spec fn body_constants(body: Seq<EstreeValue>, i: int, n: Seq<char>) -> bool
    decreases body.len() - i,
{
    if 0 <= i < body.len() {
        (match body[i] {
            EstreeValue::Object(st) => statement_constants(st, n),
            _ => false,
        }) || body_constants(body, i + 1, n)
    } else {
        false
    }
}

/// Whether the top level of a program declares the constant `n`.
pub open spec fn program_constants(program: EstreeNode, n: Seq<char>) -> bool {
    match spec_field(program, RawField::Body.spec_key()@) {
        Some(EstreeValue::Array(b)) => body_constants(b@, 0, n),
        _ => false,
    }
}

/// Adds to `out` the names of the top-level `const` declarations of a
/// program, exported or not.
fn collect_script_constant_bindings_in_program(program: &EstreeNode, out: &mut Vec<Vec<char>>)
    ensures
        names_set(final(out)@) == names_set(old(out)@).union(names_where(|n: Seq<char>| program_constants(*program, n))),
{
    let ghost start = out@;
    if let Some(body) = field_array(program, RawField::Body) {
        let mut i: usize = 0;
        while i < body.len()
            invariant
                i <= body@.len(),
                names_set(start).union(names_where(|n: Seq<char>| body_constants(body@, 0, n))) == names_set(
                    out@,
                ).union(names_where(|n: Seq<char>| body_constants(body@, i as int, n))),
            decreases body.len() - i,
        {
            let ghost before = out@;
            let ghost k = i as int;
            if let EstreeValue::Object(statement) = &body[i] {
                if is_const_declaration(statement) {
                    collect_bindings_from_variable_declaration(statement, out);
                } else if type_is(statement, "ExportNamedDeclaration") {
                    if let Some(declaration) = field_object(statement, RawField::Declaration) {
                        if is_const_declaration(declaration) {
                            collect_bindings_from_variable_declaration(declaration, out);
                        }
                    }
                }
                proof {
                    assert(names_set(out@) =~= names_set(before).union(
                        names_where(|n: Seq<char>| statement_constants(*statement, n)),
                    ));
                }
            }
            i += 1;
            proof {
                assert(names_set(out@).union(names_where(|n: Seq<char>| body_constants(body@, k + 1, n))) =~= names_set(
                    before,
                ).union(names_where(|n: Seq<char>| body_constants(body@, k, n))));
            }
        }
        proof {
            assert(names_where(|n: Seq<char>| body_constants(body@, body@.len() as int, n)) =~= Set::empty());
            assert(names_set(out@) =~= names_set(start).union(names_where(|n: Seq<char>| body_constants(body@, 0, n))));
            assert(names_where(|n: Seq<char>| body_constants(body@, 0, n)) =~= names_where(
                |n: Seq<char>| program_constants(*program, n),
            ));
        }
    } else {
        proof {
            assert(names_set(out@) =~= names_set(start).union(names_where(|n: Seq<char>| program_constants(*program, n))));
        }
    }
}

/// The top-level constants of a script, if there is one.
pub open spec fn script_constants(script: Option<crate::ast::Script>) -> Set<Seq<char>> {
    match script {
        Some(sc) => names_where(|n: Seq<char>| program_constants(sc.content, n)),
        None => Set::empty(),
    }
}

/// The names of the top-level constants of the module and instance scripts.
pub fn collect_script_constant_bindings(root: &Root) -> (names: Vec<Vec<char>>)
    ensures
        names_set(names@) == script_constants(root.module).union(script_constants(root.instance)),
{
    let mut names: Vec<Vec<char>> = Vec::new();
    proof {
        assert(names_set(names@) =~= Set::empty());
    }
    if let Some(script) = &root.module {
        collect_script_constant_bindings_in_program(&script.content, &mut names);
    }
    let ghost mid = names@;
    proof {
        assert(names_set(mid) =~= script_constants(root.module));
    }
    if let Some(script) = &root.instance {
        collect_script_constant_bindings_in_program(&script.content, &mut names);
    }
    proof {
        assert(names_set(names@) =~= script_constants(root.module).union(script_constants(root.instance)));
    }
    names
}

/// What the directive checks know at a point of the template.
pub struct DirectiveContext {
    pub imports: Vec<Vec<char>>,
    pub immutable: Vec<Vec<char>>,
    pub snippets: Vec<Vec<char>>,
    pub runes: bool,
}

/// What the directive checks know, as plain values: the imported names,
/// the names that cannot be bound to (constants, `{:then}`/`{:catch}`
/// values, snippet parameters), the snippet parameters, and runes mode.
pub type DirectiveScope = (Set<Seq<char>>, Set<Seq<char>>, Set<Seq<char>>, bool);

/// What a context knows, as plain values.
pub open spec fn scope_view(c: DirectiveContext) -> DirectiveScope {
    (names_set(c.imports@), names_set(c.immutable@), names_set(c.snippets@), c.runes)
}

/// Where an element stands with respect to an enclosing `{#each}` block.
#[derive(Clone, Copy)]
pub struct EachContext {
    pub keyed: bool,
    pub animation_relevant_children: usize,
}

/// The expression of an attribute whose value is one `{...}` alone.
pub open spec fn spec_single_expression(value: AttributeValueList) -> Option<Expression> {
    match value {
        AttributeValueList::ExpressionTag(tag) => Some(tag.expression),
        AttributeValueList::Values(values) => if values@.len() == 1 {
            match values@[0] {
                AttributeValue::ExpressionTag(tag) => Some(tag.expression),
                _ => None,
            }
        } else {
            None
        },
        AttributeValueList::Boolean(_) => None,
    }
}

/// The expression of an attribute whose value is one `{...}` alone.
pub fn single_attribute_expression(value: &AttributeValueList) -> (r: Option<&Expression>)
    ensures
        r matches Some(x) ==> spec_single_expression(*value) == Some(*x),
        r is None ==> spec_single_expression(*value) is None,
{
    match value {
        AttributeValueList::ExpressionTag(tag) => Some(&tag.expression),
        AttributeValueList::Values(values) => {
            if values.len() == 1 {
                match &values[0] {
                    AttributeValue::ExpressionTag(tag) => Some(&tag.expression),
                    _ => None,
                }
            } else {
                None
            }
        },
        AttributeValueList::Boolean(_) => None,
    }
}

/// The error for an attribute value written as unquoted text and
/// expressions run together, such as `foo=bar{baz}`.
pub open spec fn spec_unquoted_sequence(attribute: NamedAttribute) -> Option<ErrorView> {
    if attribute.value_syntax == crate::ast::AttributeValueSyntax::Unquoted && (attribute.value matches AttributeValueList::Values(
        v,
    ) && v@.len() > 1) {
        Some(
            kind_error_view(
                CompilerDiagnosticKind::AttributeUnquotedSequence,
                attribute.start as int,
                attribute.end as int,
            ),
        )
    } else {
        None
    }
}

/// The error for an attribute value written as unquoted text and
/// expressions run together.
pub fn detect_unquoted_attribute_sequence(attribute: &NamedAttribute) -> (r: Option<CompileError>)
    ensures
        option_error_view(r) == spec_unquoted_sequence(*attribute),
{
    if attribute.value_syntax != crate::ast::AttributeValueSyntax::Unquoted {
        return None;
    }
    match &attribute.value {
        AttributeValueList::Values(values) => {
            if values.len() <= 1 {
                None
            } else {
                Some(compile_error_with_range(CompilerDiagnosticKind::AttributeUnquotedSequence, attribute.start, attribute.end))
            }
        },
        _ => None,
    }
}

/// The error for a sequence expression `a, b` not wrapped in parentheses,
/// over the expression's range.
pub open spec fn spec_unparenthesized_sequence(expression: Expression) -> Option<ErrorView> {
    if spec_type_is(expression.0, "SequenceExpression"@) && expression.1.parens == 0 {
        match spec_estree_span(expression.0) {
            Some((s, e)) => Some(kind_error_view(CompilerDiagnosticKind::AttributeInvalidSequenceExpression, s, e)),
            None => None,
        }
    } else {
        None
    }
}

/// The error for a sequence expression `a, b` not wrapped in parentheses.
pub fn detect_unparenthesized_sequence_expression(expression: &Expression) -> (r: Option<CompileError>)
    ensures
        option_error_view(r) == spec_unparenthesized_sequence(*expression),
{
    if !type_is(&expression.0, "SequenceExpression") || expression.is_parenthesized() {
        return None;
    }
    match node_span(&expression.0) {
        Some((s, e)) => Some(compile_error_with_range(CompilerDiagnosticKind::AttributeInvalidSequenceExpression, s, e)),
        None => None,
    }
}

/// The sequence errors of one attribute: in runes mode, unquoted sequences
/// and unparenthesized sequence expressions; `{@attach}` tags in any mode.
pub open spec fn spec_attribute_sequence_error(attribute: Attribute, runes_mode: bool) -> Option<ErrorView> {
    match attribute {
        Attribute::Attribute(a) => if runes_mode {
            if spec_unquoted_sequence(a) is Some {
                spec_unquoted_sequence(a)
            } else {
                match spec_single_expression(a.value) {
                    Some(x) => spec_unparenthesized_sequence(x),
                    None => None,
                }
            }
        } else {
            None
        },
        Attribute::BindDirective(_) | Attribute::SpreadAttribute(_) => None,
        Attribute::OnDirective(a) | Attribute::ClassDirective(a) | Attribute::LetDirective(a)
        | Attribute::AnimateDirective(a) | Attribute::UseDirective(a) => if runes_mode {
            spec_unparenthesized_sequence(a.expression)
        } else {
            None
        },
        Attribute::TransitionDirective(a) => if runes_mode {
            spec_unparenthesized_sequence(a.expression)
        } else {
            None
        },
        Attribute::StyleDirective(a) => if runes_mode {
            match spec_single_expression(a.value) {
                Some(x) => spec_unparenthesized_sequence(x),
                None => None,
            }
        } else {
            None
        },
        Attribute::AttachTag(a) => spec_unparenthesized_sequence(a.expression),
    }
}

/// The sequence errors of one attribute: in runes mode, unquoted sequences
/// and unparenthesized sequence expressions; `{@attach}` tags in any mode.
pub fn detect_attribute_sequence_or_syntax_error(attribute: &Attribute, runes_mode: bool) -> (r: Option<CompileError>)
    ensures
        option_error_view(r) == spec_attribute_sequence_error(*attribute, runes_mode),
{
    match attribute {
        Attribute::Attribute(a) => {
            if runes_mode {
                if let Some(e) = detect_unquoted_attribute_sequence(a) {
                    return Some(e);
                }
                if let Some(expression) = single_attribute_expression(&a.value) {
                    return detect_unparenthesized_sequence_expression(expression);
                }
            }
            None
        },
        Attribute::BindDirective(_) | Attribute::SpreadAttribute(_) => None,
        Attribute::OnDirective(a) | Attribute::ClassDirective(a) | Attribute::LetDirective(a)
        | Attribute::AnimateDirective(a) | Attribute::UseDirective(a) => {
            if runes_mode {
                detect_unparenthesized_sequence_expression(&a.expression)
            } else {
                None
            }
        },
        Attribute::TransitionDirective(a) => {
            if runes_mode {
                detect_unparenthesized_sequence_expression(&a.expression)
            } else {
                None
            }
        },
        Attribute::StyleDirective(a) => {
            if runes_mode {
                match single_attribute_expression(&a.value) {
                    Some(expression) => detect_unparenthesized_sequence_expression(expression),
                    None => None,
                }
            } else {
                None
            }
        },
        Attribute::AttachTag(a) => detect_unparenthesized_sequence_expression(&a.expression),
    }
}

/// The shape of a `bind:` expression.
pub enum BindExpr {
    Target,
    Pair(usize),
    Invalid,
}

/// The shape of a `bind:` expression: a sequence (with its length), an
/// identifier or member expression, or anything else.
pub open spec fn spec_bind_expr(directive: DirectiveAttribute) -> BindExpr {
    let target = spec_unwrap_typescript(directive.expression.0);
    if spec_type_is(target, "SequenceExpression"@) {
        BindExpr::Pair(
            match spec_field(target, RawField::Expressions.spec_key()@) {
                Some(EstreeValue::Array(expressions)) => expressions@.len() as usize,
                _ => 0,
            },
        )
    } else if spec_type_is(target, "Identifier"@) || spec_type_is(target, "MemberExpression"@) {
        BindExpr::Target
    } else {
        BindExpr::Invalid
    }
}

/// The shape of a `bind:` expression: a sequence (with its length), an
/// identifier or member expression, or anything else.
pub fn bind_expr(directive: &DirectiveAttribute) -> (r: BindExpr)
    ensures
        r == spec_bind_expr(*directive),
{
    let target = unwrap_typescript_expression(&directive.expression.0);
    if type_is(target, "SequenceExpression") {
        let len = match field_array(target, RawField::Expressions) {
            Some(expressions) => expressions.len(),
            None => 0,
        };
        return BindExpr::Pair(len);
    }
    if type_is(target, "Identifier") || type_is(target, "MemberExpression") {
        return BindExpr::Target;
    }
    BindExpr::Invalid
}

/// The error for a `bind:` expression that is not a target or a pair, over
/// the expression's range (the directive's, if it has none).
pub open spec fn bind_expression_error(d: DirectiveAttribute) -> ErrorView {
    let (s, e) = match spec_estree_span(d.expression.0) {
        Some(span) => span,
        None => (d.start as int, d.end as int),
    };
    ("bind_invalid_expression"@, "Can only bind to an Identifier or MemberExpression or a `{get, set}` pair"@, s, e)
}

/// The error of a `bind:` directive given what is known: for `bind:group`
/// (where group checks apply) an expression that is not a target, or one
/// based on a snippet parameter; then a pair that is not of two or is in
/// parentheses, an expression of another shape; then binding to an import,
/// to a snippet parameter, or to a constant.
pub open spec fn spec_bind_directive_error(d: DirectiveAttribute, scope: DirectiveScope, group_checks: bool) -> Option<
    ErrorView,
> {
    let range = (d.start as int, d.end as int);
    let group_error = if group_checks && d.name@ == "group"@ {
        if !(spec_bind_expr(d) is Target) {
            Some(
                (
                    "bind_group_invalid_expression"@,
                    "`bind:group` can only bind to an Identifier or MemberExpression"@,
                    range.0,
                    range.1,
                ),
            )
        } else {
            match spec_binding_base(d.expression.0) {
                Some(b) => if scope.2.contains(b) {
                    Some(
                        (
                            "bind_group_invalid_snippet_parameter"@,
                            "Cannot `bind:group` to a snippet parameter"@,
                            range.0,
                            range.1,
                        ),
                    )
                } else {
                    None
                },
                None => None,
            }
        }
    } else {
        None
    };
    if group_error is Some {
        group_error
    } else {
        match spec_bind_expr(d) {
            BindExpr::Pair(n) => if n == 2 {
                if d.expression.1.parens != 0 {
                    Some(
                        (
                            "bind_invalid_parens"@,
                            "`bind:"@ + d.name@ + "={get, set}` must not have surrounding parentheses"@,
                            range.0,
                            range.1,
                        ),
                    )
                } else {
                    None
                }
            } else {
                Some(bind_expression_error(d))
            },
            BindExpr::Invalid => Some(bind_expression_error(d)),
            BindExpr::Target => match spec_binding_base(d.expression.0) {
                None => None,
                Some(base) => {
                    let identifier = spec_type_is(spec_unwrap_typescript(d.expression.0), "Identifier"@);
                    if identifier && scope.0.contains(base) {
                        Some(("constant_binding"@, "Cannot bind to import"@, range.0, range.1))
                    } else if scope.2.contains(base) {
                        Some(kind_error_view(CompilerDiagnosticKind::SnippetParameterAssignment, range.0, range.1))
                    } else if identifier && scope.1.contains(base) {
                        Some(("constant_binding"@, "Cannot bind to constant"@, range.0, range.1))
                    } else {
                        None
                    }
                },
            },
        }
    }
}

/// The error for a `bind:` directive whose expression is not a target or a
/// `{get, set}` pair, or that binds an import, a snippet parameter or a constant.
pub fn detect_bind_directive_error(
    directive: &DirectiveAttribute,
    context: &DirectiveContext,
    allow_group_specific_checks: bool,
) -> (r: Option<CompileError>)
    ensures
        option_error_view(r) == spec_bind_directive_error(*directive, scope_view(*context), allow_group_specific_checks),
{
    if allow_group_specific_checks && text_is(directive.name.as_slice(), "group") {
        let is_target = match bind_expr(directive) {
            BindExpr::Target => true,
            _ => false,
        };
        if !is_target {
            return Some(
                compile_error_custom(
                    "bind_group_invalid_expression",
                    chars_of("`bind:group` can only bind to an Identifier or MemberExpression"),
                    directive.start,
                    directive.end,
                ),
            );
        }
        if let Some(base) = binding_base_identifier_name(&directive.expression.0) {
            if contains_name(&context.snippets, base.as_slice()) {
                return Some(
                    compile_error_custom(
                        "bind_group_invalid_snippet_parameter",
                        chars_of("Cannot `bind:group` to a snippet parameter"),
                        directive.start,
                        directive.end,
                    ),
                );
            }
        }
    }
    match bind_expr(directive) {
        BindExpr::Pair(n) => {
            if n == 2 {
                if directive.expression.is_parenthesized() {
                    return Some(
                        compile_error_custom(
                            "bind_invalid_parens",
                            message3("`bind:", directive.name.as_slice(), "={get, set}` must not have surrounding parentheses"),
                            directive.start,
                            directive.end,
                        ),
                    );
                }
                return None;
            }
            let (s, e) = match node_span(&directive.expression.0) {
                Some(span) => span,
                None => (directive.start, directive.end),
            };
            return Some(
                compile_error_custom(
                    "bind_invalid_expression",
                    chars_of("Can only bind to an Identifier or MemberExpression or a `{get, set}` pair"),
                    s,
                    e,
                ),
            );
        },
        BindExpr::Invalid => {
            let (s, e) = match node_span(&directive.expression.0) {
                Some(span) => span,
                None => (directive.start, directive.end),
            };
            return Some(
                compile_error_custom(
                    "bind_invalid_expression",
                    chars_of("Can only bind to an Identifier or MemberExpression or a `{get, set}` pair"),
                    s,
                    e,
                ),
            );
        },
        BindExpr::Target => {},
    }
    let base = match binding_base_identifier_name(&directive.expression.0) {
        Some(b) => b,
        None => return None,
    };
    let is_identifier_target = type_is(unwrap_typescript_expression(&directive.expression.0), "Identifier");
    if is_identifier_target && contains_name(&context.imports, base.as_slice()) {
        return Some(compile_error_custom("constant_binding", chars_of("Cannot bind to import"), directive.start, directive.end));
    }
    if contains_name(&context.snippets, base.as_slice()) {
        return Some(compile_error_with_range(CompilerDiagnosticKind::SnippetParameterAssignment, directive.start, directive.end));
    }
    if is_identifier_target && contains_name(&context.immutable, base.as_slice()) {
        return Some(compile_error_custom("constant_binding", chars_of("Cannot bind to constant"), directive.start, directive.end));
    }
    None
}

/// Whether `name` is one of the bindings that `<svelte:window>` offers.
pub open spec fn spec_window_binding(name: Seq<char>) -> bool {
    name == "devicePixelRatio"@ || name == "focused"@ || name == "innerHeight"@ || name == "innerWidth"@ || name
        == "online"@ || name == "outerHeight"@ || name == "outerWidth"@ || name == "scrollX"@ || name == "scrollY"@
        || name == "this"@
}

/// Whether `name` is one of the bindings that `<svelte:document>` offers.
pub open spec fn spec_document_binding(name: Seq<char>) -> bool {
    name == "activeElement"@ || name == "focused"@ || name == "fullscreenElement"@ || name == "pointerLockElement"@
        || name == "this"@ || name == "visibilityState"@
}

/// Whether `name` ends with `suffix`.
pub open spec fn spec_ends_with(name: Seq<char>, suffix: Seq<char>) -> bool {
    suffix.len() <= name.len() && spec_at(name, name.len() - suffix.len(), suffix)
}

/// Whether a name looks like a size binding of the window.
pub open spec fn spec_window_dimension(name: Seq<char>) -> bool {
    name == "clientWidth"@ || name == "clientHeight"@ || name == "offsetWidth"@ || name == "offsetHeight"@
        || spec_ends_with(name, "Width"@) || spec_ends_with(name, "Height"@)
}

/// Whether `name` is one of the bindings that `<svelte:window>` offers.
fn is_window_binding(name: &[char]) -> (r: bool)
    ensures
        r == spec_window_binding(name@),
{
    text_is(name, "devicePixelRatio") || text_is(name, "focused") || text_is(name, "innerHeight") || text_is(
        name,
        "innerWidth",
    ) || text_is(name, "online") || text_is(name, "outerHeight") || text_is(name, "outerWidth") || text_is(
        name,
        "scrollX",
    ) || text_is(name, "scrollY") || text_is(name, "this")
}

/// Whether `name` is one of the bindings that `<svelte:document>` offers.
fn is_document_binding(name: &[char]) -> (r: bool)
    ensures
        r == spec_document_binding(name@),
{
    text_is(name, "activeElement") || text_is(name, "focused") || text_is(name, "fullscreenElement") || text_is(
        name,
        "pointerLockElement",
    ) || text_is(name, "this") || text_is(name, "visibilityState")
}

/// Whether `name` ends with `suffix`.
fn ends_with(name: &[char], suffix: &str) -> (r: bool)
    ensures
        r == spec_ends_with(name@, suffix@),
{
    let w = crate::text::str_chars(suffix);
    if w.len() > name.len() {
        return false;
    }
    crate::text::at(name, name.len() - w.len(), suffix)
}

/// Whether a name looks like a size binding of the window.
fn looks_like_window_dimension_binding(name: &[char]) -> (r: bool)
    ensures
        r == spec_window_dimension(name@),
{
    text_is(name, "clientWidth") || text_is(name, "clientHeight") || text_is(name, "offsetWidth") || text_is(
        name,
        "offsetHeight",
    ) || ends_with(name, "Width") || ends_with(name, "Height")
}

/// The error for a binding that `<svelte:window>` or `<svelte:document>` does not offer.
pub open spec fn spec_bind_name_error(element_name: Seq<char>, d: DirectiveAttribute) -> Option<ErrorView> {
    let name = d.name@;
    if element_name == "svelte:window"@ && !spec_window_binding(name) {
        Some(
            (
                "bind_invalid_name"@,
                if name == "innerwidth"@ {
                    "`bind:innerwidth` is not a valid binding. Did you mean 'innerWidth'?"@
                } else if spec_window_dimension(name) {
                    "`bind:"@ + name
                        + "` is not a valid binding. Possible bindings for <svelte:window> are devicePixelRatio, focused, innerHeight, innerWidth, online, outerHeight, outerWidth, scrollX, scrollY, this"@
                } else {
                    "`bind:"@ + name + "` is not a valid binding"@
                },
                d.start as int,
                d.end as int,
            ),
        )
    } else if element_name == "svelte:document"@ && !spec_document_binding(name) {
        Some(
            (
                "bind_invalid_name"@,
                "`bind:"@ + name
                    + "` is not a valid binding. Possible bindings for <svelte:document> are activeElement, focused, fullscreenElement, pointerLockElement, this, visibilityState"@,
                d.start as int,
                d.end as int,
            ),
        )
    } else {
        None
    }
}

/// The error for a binding that `<svelte:window>` or `<svelte:document>` does not offer.
pub fn detect_bind_target_error_for_name(element_name: &[char], directive: &DirectiveAttribute) -> (r: Option<
    CompileError,
>)
    ensures
        option_error_view(r) == spec_bind_name_error(element_name@, *directive),
{
    let name = directive.name.as_slice();
    if text_is(element_name, "svelte:window") && !is_window_binding(name) {
        let message = if text_is(name, "innerwidth") {
            chars_of("`bind:innerwidth` is not a valid binding. Did you mean 'innerWidth'?")
        } else if looks_like_window_dimension_binding(name) {
            message3(
                "`bind:",
                name,
                "` is not a valid binding. Possible bindings for <svelte:window> are devicePixelRatio, focused, innerHeight, innerWidth, online, outerHeight, outerWidth, scrollX, scrollY, this",
            )
        } else {
            message3("`bind:", name, "` is not a valid binding")
        };
        return Some(compile_error_custom("bind_invalid_name", message, directive.start, directive.end));
    }
    if text_is(element_name, "svelte:document") && !is_document_binding(name) {
        return Some(
            compile_error_custom(
                "bind_invalid_name",
                message3(
                    "`bind:",
                    name,
                    "` is not a valid binding. Possible bindings for <svelte:document> are activeElement, focused, fullscreenElement, pointerLockElement, this, visibilityState",
                ),
                directive.start,
                directive.end,
            ),
        );
    }
    None
}

/// The static `type` of an input: `Some(Some(text))` when static text,
/// `Some(None)` when dynamic, `None` when absent.
pub open spec fn spec_input_type(attributes: Seq<Attribute>) -> Option<Option<Seq<char>>> {
    match spec_named_attribute_from(attributes, 0, "type"@) {
        Some(a) => match a.value {
            AttributeValueList::Values(_) => Some(spec_static_text(a.value)),
            _ => Some(None),
        },
        None => None,
    }
}

/// The static `type` of an input: `Some(Some(text))` when static text,
/// `Some(None)` when dynamic, `None` when absent.
fn input_type_attribute(attributes: &Vec<Attribute>) -> (r: Option<Option<&Vec<char>>>)
    ensures
        match r {
            Some(Some(t)) => spec_input_type(attributes@) == Some(Some(t@)),
            Some(None) => spec_input_type(attributes@) == Some(None::<Seq<char>>),
            None => spec_input_type(attributes@) is None,
        },
{
    match find_named_attribute(attributes, "type") {
        Some(a) => match &a.value {
            AttributeValueList::Values(_) => Some(attribute_static_text(&a.value)),
            _ => Some(None),
        },
        None => None,
    }
}

/// The error of a `bind:checked` that is not on a checkbox.
pub open spec fn checkbox_error(d: DirectiveAttribute) -> ErrorView {
    (
        "bind_invalid_target"@,
        "`bind:checked` can only be used with `<input type=\"checkbox\">`"@,
        d.start as int,
        d.end as int,
    )
}

/// The error for a binding that the element does not support, or whose
/// attributes the binding needs static: `value` on other elements than
/// `<input>`, `<textarea>` and `<select>` (an `<input>` with a bare `type`,
/// a `<select>` with a dynamic `multiple`), `checked` but on a checkbox,
/// `open` but on `<details>`, `offsetWidth` on `<svg>`, content bindings
/// without a static `contenteditable`, and `bind:whatever`.
pub open spec fn spec_bind_target_error(element_name: Seq<char>, attributes: Seq<Attribute>, d: DirectiveAttribute) -> Option<
    ErrorView,
> {
    let name = d.name@;
    let range = (d.start as int, d.end as int);
    if spec_bind_name_error(element_name, d) is Some {
        spec_bind_name_error(element_name, d)
    } else if name == "value"@ {
        if !(element_name == "input"@ || element_name == "textarea"@ || element_name == "select"@) {
            Some(
                (
                    "bind_invalid_target"@,
                    "`bind:value` can only be used with `<input>`, `<textarea>`, `<select>`"@,
                    range.0,
                    range.1,
                ),
            )
        } else if element_name == "input"@ && (spec_named_attribute_from(attributes, 0, "type"@) matches Some(a)
            && a.value is Boolean) {
            let a = spec_named_attribute_from(attributes, 0, "type"@)->0;
            Some(
                (
                    "attribute_invalid_type"@,
                    "'type' attribute must be a static text value if input uses two-way binding"@,
                    a.start as int,
                    a.end as int,
                ),
            )
        } else if element_name == "select"@ && (spec_named_attribute_from(attributes, 0, "multiple"@) matches Some(a)
            && !(a.value is Boolean)) {
            let a = spec_named_attribute_from(attributes, 0, "multiple"@)->0;
            Some(
                (
                    "attribute_invalid_multiple"@,
                    "'multiple' attribute must be static if select uses two-way binding"@,
                    a.start as int,
                    a.end as int,
                ),
            )
        } else {
            None
        }
    } else if name == "checked"@ {
        if element_name != "input"@ {
            Some(checkbox_error(d))
        } else {
            match spec_input_type(attributes) {
                Some(Some(t)) => if t == "checkbox"@ {
                    None
                } else if t == "radio"@ {
                    Some(
                        (
                            "bind_invalid_target"@,
                            "`bind:checked` can only be used with `<input type=\"checkbox\">` — for `<input type=\"radio\">`, use `bind:group`"@,
                            range.0,
                            range.1,
                        ),
                    )
                } else {
                    Some(checkbox_error(d))
                },
                _ => Some(checkbox_error(d)),
            }
        }
    } else if name == "open"@ && element_name != "details"@ {
        Some(("bind_invalid_target"@, "`bind:open` can only be used with `<details>`"@, range.0, range.1))
    } else if name == "offsetWidth"@ && element_name == "svg"@ {
        Some(
            (
                "bind_invalid_target"@,
                "`bind:offsetWidth` can only be used with non-`<svg>` elements. Use `bind:clientWidth` for `<svg>` instead"@,
                range.0,
                range.1,
            ),
        )
    } else if name == "textContent"@ || name == "innerHTML"@ || name == "innerText"@ {
        match spec_named_attribute_from(attributes, 0, "contenteditable"@) {
            None => Some(
                (
                    "attribute_contenteditable_missing"@,
                    "'contenteditable' attribute is required for textContent, innerHTML and innerText two-way bindings"@,
                    range.0,
                    range.1,
                ),
            ),
            Some(c) => {
                let is_true = c.value matches AttributeValueList::Boolean(b) && b;
                if !is_true && spec_static_text(c.value) is None {
                    Some(
                        (
                            "attribute_contenteditable_dynamic"@,
                            "'contenteditable' attribute cannot be dynamic if element uses two-way binding"@,
                            c.start as int,
                            c.end as int,
                        ),
                    )
                } else {
                    None
                }
            },
        }
    } else if name == "whatever"@ {
        Some(("bind_invalid_name"@, "`bind:whatever` is not a valid binding"@, range.0, range.1))
    } else {
        None
    }
}

/// The error for a binding that the element does not support.
pub fn detect_bind_target_error_for_element(
    element_name: &[char],
    attributes: &Vec<Attribute>,
    directive: &DirectiveAttribute,
) -> (r: Option<CompileError>)
    ensures
        option_error_view(r) == spec_bind_target_error(element_name@, attributes@, *directive),
{
    if let Some(e) = detect_bind_target_error_for_name(element_name, directive) {
        return Some(e);
    }
    let name = directive.name.as_slice();
    if text_is(name, "value") {
        if !(text_is(element_name, "input") || text_is(element_name, "textarea") || text_is(element_name, "select")) {
            return Some(
                compile_error_custom(
                    "bind_invalid_target",
                    chars_of("`bind:value` can only be used with `<input>`, `<textarea>`, `<select>`"),
                    directive.start,
                    directive.end,
                ),
            );
        }
        if text_is(element_name, "input") {
            if let Some(a) = find_named_attribute(attributes, "type") {
                if let AttributeValueList::Boolean(_) = &a.value {
                    return Some(
                        compile_error_custom(
                            "attribute_invalid_type",
                            chars_of("'type' attribute must be a static text value if input uses two-way binding"),
                            a.start,
                            a.end,
                        ),
                    );
                }
            }
        }
        if text_is(element_name, "select") {
            if let Some(a) = find_named_attribute(attributes, "multiple") {
                let is_boolean = match &a.value {
                    AttributeValueList::Boolean(_) => true,
                    _ => false,
                };
                if !is_boolean {
                    return Some(
                        compile_error_custom(
                            "attribute_invalid_multiple",
                            chars_of("'multiple' attribute must be static if select uses two-way binding"),
                            a.start,
                            a.end,
                        ),
                    );
                }
            }
        }
    } else if text_is(name, "checked") {
        let checkbox_message = "`bind:checked` can only be used with `<input type=\"checkbox\">`";
        if !text_is(element_name, "input") {
            return Some(compile_error_custom("bind_invalid_target", chars_of(checkbox_message), directive.start, directive.end));
        }
        match input_type_attribute(attributes) {
            Some(Some(t)) => {
                if text_is(t.as_slice(), "checkbox") {
                } else if text_is(t.as_slice(), "radio") {
                    return Some(
                        compile_error_custom(
                            "bind_invalid_target",
                            chars_of(
                                "`bind:checked` can only be used with `<input type=\"checkbox\">` — for `<input type=\"radio\">`, use `bind:group`",
                            ),
                            directive.start,
                            directive.end,
                        ),
                    );
                } else {
                    return Some(compile_error_custom("bind_invalid_target", chars_of(checkbox_message), directive.start, directive.end));
                }
            },
            _ => {
                return Some(compile_error_custom("bind_invalid_target", chars_of(checkbox_message), directive.start, directive.end));
            },
        }
    } else if text_is(name, "open") && !text_is(element_name, "details") {
        return Some(
            compile_error_custom(
                "bind_invalid_target",
                chars_of("`bind:open` can only be used with `<details>`"),
                directive.start,
                directive.end,
            ),
        );
    } else if text_is(name, "offsetWidth") && text_is(element_name, "svg") {
        return Some(
            compile_error_custom(
                "bind_invalid_target",
                chars_of(
                    "`bind:offsetWidth` can only be used with non-`<svg>` elements. Use `bind:clientWidth` for `<svg>` instead",
                ),
                directive.start,
                directive.end,
            ),
        );
    } else if text_is(name, "textContent") || text_is(name, "innerHTML") || text_is(name, "innerText") {
        match find_named_attribute(attributes, "contenteditable") {
            None => {
                return Some(
                    compile_error_custom(
                        "attribute_contenteditable_missing",
                        chars_of(
                            "'contenteditable' attribute is required for textContent, innerHTML and innerText two-way bindings",
                        ),
                        directive.start,
                        directive.end,
                    ),
                );
            },
            Some(c) => {
                let is_true = match &c.value {
                    AttributeValueList::Boolean(b) => *b,
                    _ => false,
                };
                if !is_true && attribute_static_text(&c.value).is_none() {
                    return Some(
                        compile_error_custom(
                            "attribute_contenteditable_dynamic",
                            chars_of("'contenteditable' attribute cannot be dynamic if element uses two-way binding"),
                            c.start,
                            c.end,
                        ),
                    );
                }
            },
        }
    } else if text_is(name, "whatever") {
        return Some(
            compile_error_custom(
                "bind_invalid_name",
                chars_of("`bind:whatever` is not a valid binding"),
                directive.start,
                directive.end,
            ),
        );
    }
    None
}

/// Whether some modifier is not `once`.
pub open spec fn has_other_modifier(modifiers: Seq<Vec<char>>) -> bool {
    exists|k: int| 0 <= k < modifiers.len() && (#[trigger] modifiers[k])@ != "once"@
}

/// The first error among the attributes `attrs[i..]` of a component: a
/// sequence error, a `bind:` error, an event modifier other than `once`, or
/// a directive that components do not take.
pub open spec fn component_directive_from(attrs: Seq<Attribute>, i: int, scope: DirectiveScope) -> Option<ErrorView>
    decreases attrs.len() - i,
{
    if 0 <= i < attrs.len() {
        let a = attrs[i];
        if spec_attribute_sequence_error(a, scope.3) is Some {
            spec_attribute_sequence_error(a, scope.3)
        } else {
            match a {
                Attribute::BindDirective(d) => if spec_bind_directive_error(d, scope, false) is Some {
                    spec_bind_directive_error(d, scope, false)
                } else {
                    component_directive_from(attrs, i + 1, scope)
                },
                Attribute::OnDirective(d) => if has_other_modifier(d.modifiers@) {
                    Some(
                        (
                            "event_handler_invalid_component_modifier"@,
                            "Event modifiers other than 'once' can only be used on DOM elements"@,
                            d.start as int,
                            d.end as int,
                        ),
                    )
                } else {
                    component_directive_from(attrs, i + 1, scope)
                },
                Attribute::UseDirective(_) | Attribute::AnimateDirective(_) | Attribute::TransitionDirective(_)
                | Attribute::StyleDirective(_) => {
                    let (s, e) = spec_attribute_span(a);
                    Some(
                        (
                            "component_invalid_directive"@,
                            "This type of directive is not valid on components"@,
                            s as int,
                            e as int,
                        ),
                    )
                },
                _ => component_directive_from(attrs, i + 1, scope),
            }
        }
    } else {
        None
    }
}

/// The error for a directive that a component does not take, for event
/// modifiers other than `once` on a component, and for the sequence and
/// `bind:` errors of its attributes.
pub fn detect_component_directive_errors(component: &Component, context: &DirectiveContext) -> (r: Option<CompileError>)
    ensures
        option_error_view(r) == component_directive_from(component.attributes@, 0, scope_view(*context)),
{
    let mut i: usize = 0;
    while i < component.attributes.len()
        invariant
            i <= component.attributes@.len(),
            component_directive_from(component.attributes@, 0, scope_view(*context)) == component_directive_from(
                component.attributes@,
                i as int,
                scope_view(*context),
            ),
        decreases component.attributes.len() - i,
    {
        let attribute = &component.attributes[i];
        if let Some(e) = detect_attribute_sequence_or_syntax_error(attribute, context.runes) {
            return Some(e);
        }
        match attribute {
            Attribute::BindDirective(d) => {
                if let Some(e) = detect_bind_directive_error(d, context, false) {
                    return Some(e);
                }
            },
            Attribute::OnDirective(d) => {
                let mut other = false;
                let mut k: usize = 0;
                while k < d.modifiers.len()
                    invariant
                        k <= d.modifiers@.len(),
                        other == exists|j: int| 0 <= j < k && (#[trigger] d.modifiers@[j])@ != "once"@,
                    decreases d.modifiers.len() - k,
                {
                    if !text_is(d.modifiers[k].as_slice(), "once") {
                        other = true;
                    }
                    k += 1;
                }
                if other {
                    return Some(
                        compile_error_custom(
                            "event_handler_invalid_component_modifier",
                            chars_of("Event modifiers other than 'once' can only be used on DOM elements"),
                            d.start,
                            d.end,
                        ),
                    );
                }
            },
            Attribute::UseDirective(_) | Attribute::AnimateDirective(_) | Attribute::TransitionDirective(_)
            | Attribute::StyleDirective(_) => {
                let (s, e) = crate::template::attribute_span(attribute);
                return Some(
                    compile_error_custom(
                        "component_invalid_directive",
                        chars_of("This type of directive is not valid on components"),
                        s,
                        e,
                    ),
                );
            },
            _ => {},
        }
        i += 1;
    }
    None
}

/// The error of a transition directive given the transitions seen before it
/// on the same element: `in:`, `out:` and `transition:`.
pub open spec fn spec_transition_error(
    d: crate::ast::TransitionDirective,
    seen_in: bool,
    seen_out: bool,
    seen_both: bool,
) -> Option<ErrorView> {
    let range = (d.start as int, d.end as int);
    if d.intro && d.outro {
        if seen_both {
            Some(("transition_duplicate"@, "Cannot use multiple `transition:` directives on a single element"@, range.0, range.1))
        } else if seen_in {
            Some(("transition_conflict"@, "Cannot use `in:` alongside existing `transition:` directive"@, range.0, range.1))
        } else if seen_out {
            Some(("transition_conflict"@, "Cannot use `out:` alongside existing `transition:` directive"@, range.0, range.1))
        } else {
            None
        }
    } else if d.intro {
        if seen_in {
            Some(("transition_duplicate"@, "Cannot use multiple `in:` directives on a single element"@, range.0, range.1))
        } else if seen_both {
            Some(("transition_conflict"@, "Cannot use `transition:` alongside existing `in:` directive"@, range.0, range.1))
        } else {
            None
        }
    } else if d.outro {
        if seen_out {
            Some(("transition_duplicate"@, "Cannot use multiple `out:` directives on a single element"@, range.0, range.1))
        } else if seen_both {
            Some(("transition_conflict"@, "Cannot use `transition:` alongside existing `out:` directive"@, range.0, range.1))
        } else {
            None
        }
    } else {
        None
    }
}

/// A second transition directive of the same kind on an element (`in:`
/// after `in:`, `out:` after `out:`, `transition:` after `transition:`) is
/// reported as a duplicate at its own range, whatever else came before.
pub proof fn lemma_transition_duplicate(d: crate::ast::TransitionDirective, seen_in: bool, seen_out: bool, seen_both: bool)
    ensures
        (d.intro && d.outro && seen_both) || (d.intro && !d.outro && seen_in) || (!d.intro && d.outro && seen_out)
            ==> (spec_transition_error(d, seen_in, seen_out, seen_both) matches Some(e) && e.0 == "transition_duplicate"@
            && e.2 == d.start as int && e.3 == d.end as int),
        !d.intro && !d.outro ==> spec_transition_error(d, seen_in, seen_out, seen_both) is None,
{
}

/// A `transition:` directive after an `in:` or `out:` one, and an `in:` or
/// `out:` directive after a `transition:` one, on the same element, is
/// reported as a conflict at its own range, unless it is a duplicate.
pub proof fn lemma_transition_conflict(d: crate::ast::TransitionDirective, seen_in: bool, seen_out: bool, seen_both: bool)
    ensures
        d.intro && d.outro && !seen_both && seen_in ==> spec_transition_error(d, seen_in, seen_out, seen_both) == Some(
            (
                "transition_conflict"@,
                "Cannot use `in:` alongside existing `transition:` directive"@,
                d.start as int,
                d.end as int,
            ),
        ),
        d.intro && d.outro && !seen_both && !seen_in && seen_out ==> spec_transition_error(d, seen_in, seen_out, seen_both)
            == Some(
            (
                "transition_conflict"@,
                "Cannot use `out:` alongside existing `transition:` directive"@,
                d.start as int,
                d.end as int,
            ),
        ),
        d.intro && !d.outro && !seen_in && seen_both ==> spec_transition_error(d, seen_in, seen_out, seen_both) == Some(
            (
                "transition_conflict"@,
                "Cannot use `transition:` alongside existing `in:` directive"@,
                d.start as int,
                d.end as int,
            ),
        ),
        !d.intro && d.outro && !seen_out && seen_both ==> spec_transition_error(d, seen_in, seen_out, seen_both) == Some(
            (
                "transition_conflict"@,
                "Cannot use `transition:` alongside existing `out:` directive"@,
                d.start as int,
                d.end as int,
            ),
        ),
        d.intro && d.outro && !seen_both && !seen_in && !seen_out ==> spec_transition_error(d, seen_in, seen_out, seen_both) is None,
        d.intro && !d.outro && !seen_in && !seen_both ==> spec_transition_error(d, seen_in, seen_out, seen_both) is None,
        !d.intro && d.outro && !seen_out && !seen_both ==> spec_transition_error(d, seen_in, seen_out, seen_both) is None,
{
}

/// With two or more `animate:` directives on an element, the second is
/// reported as a duplicate, wherever the element stands.
pub proof fn lemma_animate_duplicate(animate: Seq<(usize, usize)>, each: Option<EachContext>)
    requires
        animate.len() > 1,
    ensures
        animate_error(animate, each) == Some(
            (
                "animation_duplicate"@,
                "An element can only have one 'animate' directive"@,
                animate[1].0 as int,
                animate[1].1 as int,
            ),
        ),
{
}

/// The error of a transition directive given the transitions seen before it
/// on the same element: `(in, out, both)`.
fn transition_error(
    d: &crate::ast::TransitionDirective,
    seen_in: bool,
    seen_out: bool,
    seen_both: bool,
) -> (r: Option<CompileError>)
    ensures
        option_error_view(r) == spec_transition_error(*d, seen_in, seen_out, seen_both),
{
    if d.intro && d.outro {
        if seen_both {
            return Some(compile_error_custom("transition_duplicate", chars_of("Cannot use multiple `transition:` directives on a single element"), d.start, d.end));
        }
        if seen_in {
            return Some(compile_error_custom("transition_conflict", chars_of("Cannot use `in:` alongside existing `transition:` directive"), d.start, d.end));
        }
        if seen_out {
            return Some(compile_error_custom("transition_conflict", chars_of("Cannot use `out:` alongside existing `transition:` directive"), d.start, d.end));
        }
    } else if d.intro {
        if seen_in {
            return Some(compile_error_custom("transition_duplicate", chars_of("Cannot use multiple `in:` directives on a single element"), d.start, d.end));
        }
        if seen_both {
            return Some(compile_error_custom("transition_conflict", chars_of("Cannot use `transition:` alongside existing `in:` directive"), d.start, d.end));
        }
    } else if d.outro {
        if seen_out {
            return Some(compile_error_custom("transition_duplicate", chars_of("Cannot use multiple `out:` directives on a single element"), d.start, d.end));
        }
        if seen_both {
            return Some(compile_error_custom("transition_conflict", chars_of("Cannot use `transition:` alongside existing `out:` directive"), d.start, d.end));
        }
    }
    None
}

/// The error of the `animate:` directives of an element, by their ranges:
/// a second one; else one outside a keyed `{#each}` block of which the
/// element is the only relevant child.
pub open spec fn animate_error(animate: Seq<(usize, usize)>, each: Option<EachContext>) -> Option<ErrorView> {
    let placement = "An element that uses the `animate:` directive must be the only child of a keyed `{#each ...}` block"@;
    if animate.len() > 1 {
        Some(
            (
                "animation_duplicate"@,
                "An element can only have one 'animate' directive"@,
                animate[1].0 as int,
                animate[1].1 as int,
            ),
        )
    } else if animate.len() == 1 {
        let (s, e) = animate[0];
        match each {
            None => Some(("animation_invalid_placement"@, placement, s as int, e as int)),
            Some(c) => if !c.keyed {
                Some(
                    (
                        "animation_missing_key"@,
                        "An element that uses the `animate:` directive must be the only child of a keyed `{#each ...}` block. Did you forget to add a key to your each block?"@,
                        s as int,
                        e as int,
                    ),
                )
            } else if c.animation_relevant_children != 1 {
                Some(("animation_invalid_placement"@, placement, s as int, e as int))
            } else {
                None
            },
        }
    } else {
        None
    }
}

/// A single `animate:` directive is accepted only on the one relevant child
/// of a keyed `{#each}` block: outside any `{#each}` it is misplaced, in an
/// unkeyed one the key is missing, beside other relevant children it is
/// misplaced; with no `animate:` directive nothing is reported.
pub proof fn lemma_animate_placement(animate: Seq<(usize, usize)>, each: Option<EachContext>)
    ensures
        animate.len() == 0 ==> animate_error(animate, each) is None,
        animate.len() == 1 && each is None ==> (animate_error(animate, each) matches Some(e) && e.0
            == "animation_invalid_placement"@ && e.2 == animate[0].0 as int && e.3 == animate[0].1 as int),
        animate.len() == 1 && (each matches Some(c) && !c.keyed) ==> (animate_error(animate, each) matches Some(e) && e.0
            == "animation_missing_key"@ && e.2 == animate[0].0 as int),
        animate.len() == 1 && (each matches Some(c) && c.keyed && c.animation_relevant_children != 1) ==> (animate_error(
            animate,
            each,
        ) matches Some(e) && e.0 == "animation_invalid_placement"@ && e.2 == animate[0].0 as int),
        animate.len() == 1 && (each matches Some(c) && c.keyed && c.animation_relevant_children == 1) ==> animate_error(
            animate,
            each,
        ) is None,
{
}

/// `<svelte:window>` offers exactly the bindings `devicePixelRatio`,
/// `focused`, `innerHeight`, `innerWidth`, `online`, `outerHeight`,
/// `outerWidth`, `scrollX`, `scrollY` and `this`; `<svelte:document>` exactly
/// `activeElement`, `focused`, `fullscreenElement`, `pointerLockElement`,
/// `this` and `visibilityState`.
pub proof fn lemma_meta_bindings(name: Seq<char>)
    ensures
        spec_window_binding(name) <==> (name == "devicePixelRatio"@ || name == "focused"@ || name == "innerHeight"@
            || name == "innerWidth"@ || name == "online"@ || name == "outerHeight"@ || name == "outerWidth"@ || name
            == "scrollX"@ || name == "scrollY"@ || name == "this"@),
        spec_document_binding(name) <==> (name == "activeElement"@ || name == "focused"@ || name == "fullscreenElement"@
            || name == "pointerLockElement"@ || name == "this"@ || name == "visibilityState"@),
{
}

/// The first directive error among the attributes `attrs[i..]` of an element
/// named `name`, given the transitions seen and the ranges of the `animate`
/// directives met so far; after the last attribute, the `animate` error.
pub open spec fn element_directive_from(
    name: Seq<char>,
    attrs: Seq<Attribute>,
    i: int,
    each: Option<EachContext>,
    scope: DirectiveScope,
    seen_in: bool,
    seen_out: bool,
    seen_both: bool,
    animate: Seq<(usize, usize)>,
) -> Option<ErrorView>
    decreases attrs.len() - i,
{
    if 0 <= i < attrs.len() {
        let a = attrs[i];
        if spec_attribute_sequence_error(a, scope.3) is Some {
            spec_attribute_sequence_error(a, scope.3)
        } else {
            match a {
                Attribute::BindDirective(d) => if spec_bind_target_error(name, attrs, d) is Some {
                    spec_bind_target_error(name, attrs, d)
                } else if spec_bind_directive_error(d, scope, true) is Some {
                    spec_bind_directive_error(d, scope, true)
                } else {
                    element_directive_from(name, attrs, i + 1, each, scope, seen_in, seen_out, seen_both, animate)
                },
                Attribute::AnimateDirective(d) => element_directive_from(
                    name,
                    attrs,
                    i + 1,
                    each,
                    scope,
                    seen_in,
                    seen_out,
                    seen_both,
                    animate.push((d.start, d.end)),
                ),
                Attribute::Attribute(na) => element_directive_from(
                    name,
                    attrs,
                    i + 1,
                    each,
                    scope,
                    seen_in,
                    seen_out,
                    seen_both,
                    if na.name@ == "animate"@ {
                        animate.push((na.start, na.end))
                    } else {
                        animate
                    },
                ),
                Attribute::TransitionDirective(d) => if spec_transition_error(d, seen_in, seen_out, seen_both) is Some {
                    spec_transition_error(d, seen_in, seen_out, seen_both)
                } else {
                    element_directive_from(
                        name,
                        attrs,
                        i + 1,
                        each,
                        scope,
                        seen_in || (d.intro && !d.outro),
                        seen_out || (!d.intro && d.outro),
                        seen_both || (d.intro && d.outro),
                        animate,
                    )
                },
                _ => element_directive_from(name, attrs, i + 1, each, scope, seen_in, seen_out, seen_both, animate),
            }
        }
    } else {
        animate_error(animate, each)
    }
}

/// The directive errors of an element: sequences, bindings, transitions and animations.
pub fn detect_element_directive_errors(
    element_name: &[char],
    attributes: &Vec<Attribute>,
    each: Option<EachContext>,
    context: &DirectiveContext,
) -> (r: Option<CompileError>)
    ensures
        option_error_view(r) == element_directive_from(
            element_name@,
            attributes@,
            0,
            each,
            scope_view(*context),
            false,
            false,
            false,
            Seq::empty(),
        ),
{
    let mut animate: Vec<(usize, usize)> = Vec::new();
    let mut seen_in = false;
    let mut seen_out = false;
    let mut seen_both = false;
    let mut i: usize = 0;
    while i < attributes.len()
        invariant
            i <= attributes@.len(),
            element_directive_from(
                element_name@,
                attributes@,
                0,
                each,
                scope_view(*context),
                false,
                false,
                false,
                Seq::empty(),
            ) == element_directive_from(
                element_name@,
                attributes@,
                i as int,
                each,
                scope_view(*context),
                seen_in,
                seen_out,
                seen_both,
                animate@,
            ),
        decreases attributes.len() - i,
    {
        let attribute = &attributes[i];
        if let Some(e) = detect_attribute_sequence_or_syntax_error(attribute, context.runes) {
            return Some(e);
        }
        match attribute {
            Attribute::BindDirective(d) => {
                if let Some(e) = detect_bind_target_error_for_element(element_name, attributes, d) {
                    return Some(e);
                }
                if let Some(e) = detect_bind_directive_error(d, context, true) {
                    return Some(e);
                }
            },
            Attribute::AnimateDirective(d) => {
                animate.push((d.start, d.end));
            },
            Attribute::Attribute(a) => {
                if text_is(a.name.as_slice(), "animate") {
                    animate.push((a.start, a.end));
                }
            },
            Attribute::TransitionDirective(d) => {
                if let Some(e) = transition_error(d, seen_in, seen_out, seen_both) {
                    return Some(e);
                }
                if d.intro && d.outro {
                    seen_both = true;
                } else if d.intro {
                    seen_in = true;
                } else if d.outro {
                    seen_out = true;
                }
            },
            _ => {},
        }
        i += 1;
    }
    if animate.len() > 1 {
        let (s, e) = animate[1];
        return Some(compile_error_custom("animation_duplicate", chars_of("An element can only have one 'animate' directive"), s, e));
    }
    if animate.len() == 1 {
        let (s, e) = animate[0];
        let placement = "An element that uses the `animate:` directive must be the only child of a keyed `{#each ...}` block";
        match each {
            None => {
                return Some(compile_error_custom("animation_invalid_placement", chars_of(placement), s, e));
            },
            Some(c) => {
                if !c.keyed {
                    return Some(
                        compile_error_custom(
                            "animation_missing_key",
                            chars_of(
                                "An element that uses the `animate:` directive must be the only child of a keyed `{#each ...}` block. Did you forget to add a key to your each block?",
                            ),
                            s,
                            e,
                        ),
                    );
                }
                if c.animation_relevant_children != 1 {
                    return Some(compile_error_custom("animation_invalid_placement", chars_of(placement), s, e));
                }
            },
        }
    }
    None
}

/// Whether a node counts for `animate:`: all but blank text, comments,
/// `{@const}` and `{@debug}` tags do.
pub open spec fn animation_relevant(node: Node) -> bool {
    match node {
        Node::Text(t) => !spec_blank(t.data@),
        Node::Comment(_) | Node::ConstTag(_) | Node::DebugTag(_) => false,
        _ => true,
    }
}

/// How many of the nodes `nodes[i..]` count for `animate:`.
pub open spec fn relevant_from(nodes: Seq<Node>, i: int) -> int
    decreases nodes.len() - i,
{
    if 0 <= i < nodes.len() {
        (if animation_relevant(nodes[i]) {
            1int
        } else {
            0int
        }) + relevant_from(nodes, i + 1)
    } else {
        0
    }
}

/// The number of nodes of a fragment that count for `animate:`: all but
/// blank text, comments, `{@const}` and `{@debug}` tags.
pub fn count_animation_relevant_nodes(fragment: &Fragment) -> (r: usize)
    ensures
        r <= fragment.nodes@.len(),
        r == relevant_from(fragment.nodes@, 0),
{
    let mut count: usize = 0;
    let mut i: usize = 0;
    while i < fragment.nodes.len()
        invariant
            i <= fragment.nodes@.len(),
            count <= i,
            count + relevant_from(fragment.nodes@, i as int) == relevant_from(fragment.nodes@, 0),
        decreases fragment.nodes.len() - i,
    {
        let relevant = match &fragment.nodes[i] {
            Node::Text(t) => !is_blank(t.data.as_slice()),
            Node::Comment(_) | Node::ConstTag(_) | Node::DebugTag(_) => false,
            _ => true,
        };
        if relevant {
            count += 1;
        }
        i += 1;
    }
    count
}

/// The first `name` attribute among `attrs[i..]` of a `<slot>` that is not
/// static text, or is `default`.
pub open spec fn slot_name_from(attrs: Seq<Attribute>, i: int) -> Option<ErrorView>
    decreases attrs.len() - i,
{
    if 0 <= i < attrs.len() {
        match attrs[i] {
            Attribute::Attribute(a) => if a.name@ == "name"@ {
                match spec_static_text(a.value) {
                    None => Some(
                        (
                            "slot_element_invalid_name"@,
                            "slot attribute must be a static value"@,
                            a.start as int,
                            a.end as int,
                        ),
                    ),
                    Some(t) => if t == "default"@ {
                        Some(
                            (
                                "slot_element_invalid_name_default"@,
                                "`default` is a reserved word — it cannot be used as a slot name"@,
                                a.start as int,
                                a.end as int,
                            ),
                        )
                    } else {
                        slot_name_from(attrs, i + 1)
                    },
                }
            } else {
                slot_name_from(attrs, i + 1)
            },
            _ => slot_name_from(attrs, i + 1),
        }
    } else {
        None
    }
}

/// The error for a `<slot>` whose `name` is not static text, or is `default`.
pub fn detect_slot_name_error(attributes: &Vec<Attribute>) -> (r: Option<CompileError>)
    ensures
        option_error_view(r) == slot_name_from(attributes@, 0),
{
    let mut i: usize = 0;
    while i < attributes.len()
        invariant
            i <= attributes@.len(),
            slot_name_from(attributes@, 0) == slot_name_from(attributes@, i as int),
        decreases attributes.len() - i,
    {
        if let Attribute::Attribute(a) = &attributes[i] {
            if text_is(a.name.as_slice(), "name") {
                match attribute_static_text(&a.value) {
                    None => {
                        return Some(compile_error_custom("slot_element_invalid_name", chars_of("slot attribute must be a static value"), a.start, a.end));
                    },
                    Some(t) => {
                        if text_is(t.as_slice(), "default") {
                            return Some(
                                compile_error_custom(
                                    "slot_element_invalid_name_default",
                                    chars_of("`default` is a reserved word — it cannot be used as a slot name"),
                                    a.start,
                                    a.end,
                                ),
                            );
                        }
                    },
                }
            }
        }
        i += 1;
    }
    None
}

/// The names that a pattern binds.
pub open spec fn pattern_names(p: EstreeNode) -> Set<Seq<char>> {
    Set::new(|n: Seq<char>| pattern_binds(p, n))
}

/// The names that the parameters `ps[..i]` bind.
pub open spec fn params_names(ps: Seq<Expression>, i: int) -> Set<Seq<char>> {
    Set::new(|n: Seq<char>| exists|k: int| 0 <= k < i && pattern_binds(#[trigger] ps[k].0, n))
}

/// The names an optional pattern binds.
pub open spec fn optional_pattern_names(p: Option<Expression>) -> Set<Seq<char>> {
    match p {
        Some(x) => pattern_names(x.0),
        None => Set::empty(),
    }
}

/// What is known inside a `{:then}` or `{:catch}` branch: its value cannot be bound to.
pub open spec fn with_immutable(scope: DirectiveScope, names: Set<Seq<char>>) -> DirectiveScope {
    (scope.0, scope.1.union(names), scope.2, scope.3)
}

/// What is known inside a snippet: its parameters are snippet parameters
/// and cannot be bound to.
pub open spec fn with_snippet_params(scope: DirectiveScope, ps: Seq<Expression>) -> DirectiveScope {
    (scope.0, scope.1.union(params_names(ps, ps.len() as int)), scope.2.union(params_names(ps, ps.len() as int)), scope.3)
}

/// Adding the names of a pattern to a list adds them to its set of names.
proof fn lemma_collected_names(before: Seq<Vec<char>>, after: Seq<Vec<char>>, p: EstreeNode)
    requires
        forall|n: Seq<char>| has_name(after, n) <==> (has_name(before, n) || pattern_binds(p, n)),
    ensures
        names_set(after) == names_set(before).union(pattern_names(p)),
{
    assert(names_set(after) =~= names_set(before).union(pattern_names(p)));
}

/// Adds the parameters of a snippet to the names known as snippet
/// parameters and as constants.
fn push_snippet_params(context: &mut DirectiveContext, block: &crate::ast::SnippetBlock)
    ensures
        scope_view(*final(context)) == with_snippet_params(scope_view(*old(context)), block.parameters@),
        final(context).imports@ == old(context).imports@,
        final(context).runes == old(context).runes,
        final(context).immutable@.len() >= old(context).immutable@.len(),
        final(context).immutable@.subrange(0, old(context).immutable@.len() as int) == old(context).immutable@,
        final(context).snippets@.len() >= old(context).snippets@.len(),
        final(context).snippets@.subrange(0, old(context).snippets@.len() as int) == old(context).snippets@,
{
    let ghost imm0 = context.immutable@;
    let ghost snip0 = context.snippets@;
    let mut i: usize = 0;
    while i < block.parameters.len()
        invariant
            i <= block.parameters@.len(),
            names_set(context.immutable@) == names_set(imm0).union(params_names(block.parameters@, i as int)),
            names_set(context.snippets@) == names_set(snip0).union(params_names(block.parameters@, i as int)),
            context.imports@ == old(context).imports@,
            context.runes == old(context).runes,
            imm0 == old(context).immutable@,
            snip0 == old(context).snippets@,
            context.immutable@.len() >= imm0.len(),
            context.immutable@.subrange(0, imm0.len() as int) == imm0,
            context.snippets@.len() >= snip0.len(),
            context.snippets@.subrange(0, snip0.len() as int) == snip0,
        decreases block.parameters.len() - i,
    {
        let ghost imm1 = context.immutable@;
        let ghost snip1 = context.snippets@;
        let ghost k = i as int;
        collect_binding_names(&block.parameters[i].0, &mut context.snippets);
        collect_binding_names(&block.parameters[i].0, &mut context.immutable);
        proof {
            lemma_collected_names(imm1, context.immutable@, block.parameters@[k].0);
            lemma_collected_names(snip1, context.snippets@, block.parameters@[k].0);
            assert(params_names(block.parameters@, k + 1) =~= params_names(block.parameters@, k).union(
                pattern_names(block.parameters@[k].0),
            ));
            assert(context.immutable@.subrange(0, imm0.len() as int) =~= context.immutable@.subrange(
                0,
                imm1.len() as int,
            ).subrange(0, imm0.len() as int));
            assert(context.snippets@.subrange(0, snip0.len() as int) =~= context.snippets@.subrange(
                0,
                snip1.len() as int,
            ).subrange(0, snip0.len() as int));
            assert(names_set(imm0).union(params_names(block.parameters@, k)).union(pattern_names(block.parameters@[k].0))
                =~= names_set(imm0).union(params_names(block.parameters@, k + 1)));
            assert(names_set(snip0).union(params_names(block.parameters@, k)).union(pattern_names(block.parameters@[k].0))
                =~= names_set(snip0).union(params_names(block.parameters@, k + 1)));
        }
        i += 1;
    }
}

/// The bind errors among the attributes `attrs[i..]` of `<svelte:window>`
/// or `<svelte:document>` named `name`.
pub open spec fn meta_bind_from(name: Seq<char>, attrs: Seq<Attribute>, i: int, scope: DirectiveScope) -> Option<
    ErrorView,
>
    decreases attrs.len() - i,
{
    if 0 <= i < attrs.len() {
        match attrs[i] {
            Attribute::BindDirective(d) => first_error(
                spec_bind_name_error(name, d),
                first_error(spec_bind_directive_error(d, scope, true), meta_bind_from(name, attrs, i + 1, scope)),
            ),
            _ => meta_bind_from(name, attrs, i + 1, scope),
        }
    } else {
        None
    }
}

/// The first directive error among the nodes `f.nodes[i..]` and their
/// descendants, in document order; `each` tells where the nodes stand with
/// respect to an enclosing `{#each}` block.
pub open spec fn directive_from(f: Fragment, i: int, each: Option<EachContext>, scope: DirectiveScope) -> Option<
    ErrorView,
>
    decreases f, f.nodes@.len() - i,
{
    if 0 <= i < f.nodes@.len() {
        proof {
            assert(decreases_to!(f => f.nodes));
            assert(decreases_to!(f.nodes => f.nodes@));
            assert(decreases_to!(f.nodes@ => f.nodes@[i]));
        }
        first_error(directive_at(f.nodes@[i], each, scope), directive_from(f, i + 1, each, scope))
    } else {
        None
    }
}

/// The directive errors of an optional fragment.
pub open spec fn directive_in_optional(f: Option<Fragment>, scope: DirectiveScope) -> Option<ErrorView>
    decreases f, 0int,
{
    match f {
        Some(fr) => directive_from(fr, 0, None, scope),
        None => None,
    }
}

/// The first directive error at a node or among its descendants. A
/// snippet's parameters, and the values of `{:then}` and `{:catch}`, are
/// known inside them only.
pub open spec fn directive_at(node: Node, each: Option<EachContext>, scope: DirectiveScope) -> Option<ErrorView>
    decreases node, 2int,
{
    match node {
        Node::RegularElement(e) => first_error(
            element_directive_from(e.name@, e.attributes@, 0, each, scope, false, false, false, Seq::empty()),
            directive_from(e.fragment, 0, each, scope),
        ),
        Node::Component(c) => first_error(
            component_directive_from(c.attributes@, 0, scope),
            directive_from(c.fragment, 0, None, scope),
        ),
        Node::SlotElement(e) => first_error(slot_name_from(e.attributes@, 0), directive_from(e.fragment, 0, None, scope)),
        Node::SvelteWindow(e) => first_error(
            meta_bind_from(e.name@, e.attributes@, 0, scope),
            directive_from(e.fragment, 0, None, scope),
        ),
        Node::SvelteDocument(e) => first_error(
            meta_bind_from(e.name@, e.attributes@, 0, scope),
            directive_from(e.fragment, 0, None, scope),
        ),
        Node::SvelteElement(e) => first_error(
            element_directive_from(e.name@, e.attributes@, 0, each, scope, false, false, false, Seq::empty()),
            directive_from(e.fragment, 0, None, scope),
        ),
        Node::SvelteHead(e) => directive_from(e.fragment, 0, None, scope),
        Node::SvelteBody(e) => directive_from(e.fragment, 0, None, scope),
        Node::SvelteComponent(e) => directive_from(e.fragment, 0, None, scope),
        Node::SvelteSelf(e) => directive_from(e.fragment, 0, None, scope),
        Node::SvelteFragment(e) => directive_from(e.fragment, 0, None, scope),
        Node::SvelteBoundary(e) => directive_from(e.fragment, 0, None, scope),
        Node::TitleElement(e) => directive_from(e.fragment, 0, None, scope),
        Node::IfBlock(b) => first_error(
            directive_from(b.consequent, 0, None, scope),
            match b.alternate {
                Some(alternate) => {
                    proof {
                        assert(decreases_to!(b => b.alternate));
                    }
                    match *alternate {
                        Alternate::Fragment(f) => directive_from(f, 0, None, scope),
                        Alternate::IfBlock(elseif) => directive_from(elseif.consequent, 0, None, scope),
                    }
                },
                None => None,
            },
        ),
        Node::KeyBlock(b) => directive_from(b.fragment, 0, None, scope),
        Node::AwaitBlock(b) => first_error(
            directive_in_optional(b.pending, scope),
            first_error(
                directive_in_optional(b.then_branch, with_immutable(scope, optional_pattern_names(b.value))),
                directive_in_optional(b.catch, with_immutable(scope, optional_pattern_names(b.error))),
            ),
        ),
        Node::SnippetBlock(b) => directive_from(b.body, 0, None, with_snippet_params(scope, b.parameters@)),
        Node::EachBlock(b) => first_error(
            directive_from(
                b.body,
                0,
                Some(
                    EachContext {
                        keyed: b.key is Some,
                        animation_relevant_children: relevant_from(b.body.nodes@, 0) as usize,
                    },
                ),
                scope,
            ),
            directive_in_optional(b.fallback, scope),
        ),
        _ => None,
    }
}

/// The directive errors of the nodes of a fragment and their descendants, in
/// document order. Names a snippet or an `{:then}`/`{:catch}` introduces are
/// known inside it only.
pub fn detect_template_directive_errors_in_fragment(
    fragment: &Fragment,
    each: Option<EachContext>,
    context: &mut DirectiveContext,
) -> (r: Option<CompileError>)
    ensures
        option_error_view(r) == directive_from(*fragment, 0, each, scope_view(*old(context))),
        final(context).imports@ == old(context).imports@,
        final(context).runes == old(context).runes,
        r is None ==> final(context).immutable@ == old(context).immutable@ && final(context).snippets@ == old(
            context,
        ).snippets@,
    decreases fragment, 4nat,
{
    let mut i: usize = 0;
    while i < fragment.nodes.len()
        invariant
            i <= fragment.nodes@.len(),
            context.imports@ == old(context).imports@,
            context.runes == old(context).runes,
            context.immutable@ == old(context).immutable@,
            context.snippets@ == old(context).snippets@,
            directive_from(*fragment, 0, each, scope_view(*old(context))) == directive_from(
                *fragment,
                i as int,
                each,
                scope_view(*old(context)),
            ),
        decreases fragment.nodes.len() - i,
    {
        proof {
            assert(decreases_to!(fragment => fragment.nodes));
            assert(decreases_to!(fragment.nodes => fragment.nodes@));
            assert(decreases_to!(fragment.nodes@ => fragment.nodes@[i as int]));
            assert(scope_view(*context) == scope_view(*old(context)));
        }
        if let Some(e) = detect_template_directive_errors_in_node(&fragment.nodes[i], each, context) {
            return Some(e);
        }
        i += 1;
    }
    None
}

/// The directive errors of an optional fragment, outside any `{#each}`.
fn detect_template_directive_errors_in_optional(fragment: &Option<Fragment>, context: &mut DirectiveContext) -> (r:
    Option<CompileError>)
    ensures
        option_error_view(r) == directive_in_optional(*fragment, scope_view(*old(context))),
        final(context).imports@ == old(context).imports@,
        final(context).runes == old(context).runes,
        r is None ==> final(context).immutable@ == old(context).immutable@ && final(context).snippets@ == old(
            context,
        ).snippets@,
    decreases fragment, 5nat,
{
    match fragment {
        Some(f) => detect_template_directive_errors_in_fragment(f, None, context),
        None => None,
    }
}

/// The directive errors of an optional fragment whose pattern's names cannot
/// be bound to inside it.
fn detect_template_directive_errors_with_value(
    fragment: &Option<Fragment>,
    value: &Option<Expression>,
    context: &mut DirectiveContext,
) -> (r: Option<CompileError>)
    ensures
        option_error_view(r) == directive_in_optional(
            *fragment,
            with_immutable(scope_view(*old(context)), optional_pattern_names(*value)),
        ),
        final(context).imports@ == old(context).imports@,
        final(context).runes == old(context).runes,
        r is None ==> final(context).immutable@ == old(context).immutable@ && final(context).snippets@ == old(
            context,
        ).snippets@,
    decreases fragment, 6nat,
{
    let f = match fragment {
        Some(f) => f,
        None => return None,
    };
    let mark = context.immutable.len();
    let ghost before = context.immutable@;
    if let Some(v) = value {
        collect_binding_names(&v.0, &mut context.immutable);
        proof {
            lemma_collected_names(before, context.immutable@, v.0);
        }
    } else {
        proof {
            assert(names_set(before).union(Set::empty()) =~= names_set(before));
        }
    }
    if let Some(e) = detect_template_directive_errors_in_fragment(f, None, context) {
        return Some(e);
    }
    context.immutable.truncate(mark);
    None
}

/// The bind errors of `<svelte:window>` or `<svelte:document>` named `name`.
fn detect_meta_bind_errors(name: &[char], attributes: &Vec<Attribute>, context: &DirectiveContext) -> (r: Option<
    CompileError,
>)
    ensures
        option_error_view(r) == meta_bind_from(name@, attributes@, 0, scope_view(*context)),
{
    let mut i: usize = 0;
    while i < attributes.len()
        invariant
            i <= attributes@.len(),
            meta_bind_from(name@, attributes@, 0, scope_view(*context)) == meta_bind_from(
                name@,
                attributes@,
                i as int,
                scope_view(*context),
            ),
        decreases attributes.len() - i,
    {
        if let Attribute::BindDirective(d) = &attributes[i] {
            if let Some(e) = detect_bind_target_error_for_name(name, d) {
                return Some(e);
            }
            if let Some(e) = detect_bind_directive_error(d, context, true) {
                return Some(e);
            }
        }
        i += 1;
    }
    None
}

/// The directive errors of a node and its descendants.
fn detect_template_directive_errors_in_node(node: &Node, each: Option<EachContext>, context: &mut DirectiveContext) -> (r:
    Option<CompileError>)
    ensures
        option_error_view(r) == directive_at(*node, each, scope_view(*old(context))),
        final(context).imports@ == old(context).imports@,
        final(context).runes == old(context).runes,
        r is None ==> final(context).immutable@ == old(context).immutable@ && final(context).snippets@ == old(
            context,
        ).snippets@,
    decreases node, 3nat,
{
    match node {
        Node::RegularElement(element) => {
            if let Some(e) = detect_element_directive_errors(element.name.as_slice(), &element.attributes, each, context) {
                return Some(e);
            }
            detect_template_directive_errors_in_fragment(&element.fragment, each, context)
        },
        Node::Component(component) => {
            if let Some(e) = detect_component_directive_errors(component, context) {
                return Some(e);
            }
            detect_template_directive_errors_in_fragment(&component.fragment, None, context)
        },
        Node::SlotElement(slot) => {
            if let Some(e) = detect_slot_name_error(&slot.attributes) {
                return Some(e);
            }
            detect_template_directive_errors_in_fragment(&slot.fragment, None, context)
        },
        Node::SvelteWindow(w) => {
            if let Some(e) = detect_meta_bind_errors(w.name.as_slice(), &w.attributes, context) {
                return Some(e);
            }
            detect_template_directive_errors_in_fragment(&w.fragment, None, context)
        },
        Node::SvelteDocument(d) => {
            if let Some(e) = detect_meta_bind_errors(d.name.as_slice(), &d.attributes, context) {
                return Some(e);
            }
            detect_template_directive_errors_in_fragment(&d.fragment, None, context)
        },
        Node::SvelteElement(element) => {
            if let Some(e) = detect_element_directive_errors(element.name.as_slice(), &element.attributes, each, context) {
                return Some(e);
            }
            detect_template_directive_errors_in_fragment(&element.fragment, None, context)
        },
        Node::SvelteHead(e) => detect_template_directive_errors_in_fragment(&e.fragment, None, context),
        Node::SvelteBody(e) => detect_template_directive_errors_in_fragment(&e.fragment, None, context),
        Node::SvelteComponent(e) => detect_template_directive_errors_in_fragment(&e.fragment, None, context),
        Node::SvelteSelf(e) => detect_template_directive_errors_in_fragment(&e.fragment, None, context),
        Node::SvelteFragment(e) => detect_template_directive_errors_in_fragment(&e.fragment, None, context),
        Node::SvelteBoundary(e) => detect_template_directive_errors_in_fragment(&e.fragment, None, context),
        Node::TitleElement(e) => detect_template_directive_errors_in_fragment(&e.fragment, None, context),
        Node::IfBlock(block) => {
            if let Some(e) = detect_template_directive_errors_in_fragment(&block.consequent, None, context) {
                return Some(e);
            }
            match &block.alternate {
                Some(alternate) => {
                    proof {
                        assert(decreases_to!(block => block.alternate));
                    }
                    match &**alternate {
                        Alternate::Fragment(f) => detect_template_directive_errors_in_fragment(f, None, context),
                        Alternate::IfBlock(elseif) => detect_template_directive_errors_in_fragment(&elseif.consequent, None, context),
                    }
                },
                None => None,
            }
        },
        Node::KeyBlock(block) => detect_template_directive_errors_in_fragment(&block.fragment, None, context),
        Node::AwaitBlock(block) => {
            if let Some(e) = detect_template_directive_errors_in_optional(&block.pending, context) {
                return Some(e);
            }
            if let Some(e) = detect_template_directive_errors_with_value(&block.then_branch, &block.value, context) {
                return Some(e);
            }
            detect_template_directive_errors_with_value(&block.catch, &block.error, context)
        },
        Node::SnippetBlock(block) => {
            let mark_immutable = context.immutable.len();
            let mark_snippets = context.snippets.len();
            push_snippet_params(context, block);
            if let Some(e) = detect_template_directive_errors_in_fragment(&block.body, None, context) {
                return Some(e);
            }
            context.immutable.truncate(mark_immutable);
            context.snippets.truncate(mark_snippets);
            None
        },
        Node::EachBlock(block) => {
            let body_each = EachContext {
                keyed: block.key.is_some(),
                animation_relevant_children: count_animation_relevant_nodes(&block.body),
            };
            if let Some(e) = detect_template_directive_errors_in_fragment(&block.body, Some(body_each), context) {
                return Some(e);
            }
            detect_template_directive_errors_in_optional(&block.fallback, context)
        },
        _ => None,
    }
}

/// The directive errors of the template, in document order, knowing the
/// imports and top-level constants of the scripts.
pub open spec fn spec_detect_template_directive_errors(root: &Root, runes_mode: bool) -> Option<ErrorView> {
    directive_from(
        root.fragment,
        0,
        None,
        (
            script_imports(root.module).union(script_imports(root.instance)),
            script_constants(root.module).union(script_constants(root.instance)),
            Set::empty(),
            runes_mode,
        ),
    )
}

/// The directive errors of the template, in document order, knowing the
/// imports and top-level constants of the scripts.
pub fn detect_template_directive_errors(root: &Root, runes_mode: bool) -> (r: Option<CompileError>)
    ensures
        option_error_view(r) == spec_detect_template_directive_errors(root, runes_mode),
{
    let mut context = DirectiveContext {
        imports: collect_imported_bindings(root),
        immutable: collect_script_constant_bindings(root),
        snippets: Vec::new(),
        runes: runes_mode,
    };
    proof {
        assert(names_set(context.snippets@) =~= Set::empty());
    }
    detect_template_directive_errors_in_fragment(&root.fragment, None, &mut context)
}

} // verus!
