//! Assignments to constants in a script. A walk of the tree keeps the names
//! bound at each point (declarations, imports, functions, classes,
//! parameters and `catch` bindings, scoped by blocks and functions) and
//! whether each is a constant, and stops at the first assignment or update
//! whose target binds a constant.
use vstd::prelude::*;

use crate::ast::{Expression, Root};
use crate::bindings::{names_set, names_view};
use crate::consts::spec_str_field;
use crate::diagnostics::{
    compile_error_with_range, kind_error_view, option_error_view, CompileError, CompilerDiagnosticKind, ErrorView,
};
use crate::estree::{
    field_array, field_object, field_str, identifier_name, lemma_field_array_item_decreases,
    lemma_field_object_decreases, node_span, spec_estree_span, spec_field, spec_type_is, type_is, EstreeNode,
    EstreeValue, RawField,
};
use crate::structure::spec_identifier_name;
use crate::text::{chars_eq, copy_chars, text_is};

verus! {

/// A bound name and whether it is a constant, as plain values.
pub type BindingView = (Seq<char>, bool);

/// Bindings as plain values, oldest first.
pub open spec fn bindings_view(b: Seq<(Vec<char>, bool)>) -> Seq<BindingView> {
    b.map_values(|e: (Vec<char>, bool)| (e.0@, e.1))
}

/// Bindings of `names`, each a constant or not.
pub open spec fn declared(names: Seq<Seq<char>>, constant: bool) -> Seq<BindingView> {
    names.map_values(|n: Seq<char>| (n, constant))
}

/// Whether the latest binding of `name` among `b[..i]` is a constant, if
/// `name` is bound there.
pub open spec fn binding_from(b: Seq<BindingView>, i: int, name: Seq<char>) -> Option<bool>
    decreases i,
{
    if i <= 0 {
        None
    } else if b[i - 1].0 == name {
        Some(b[i - 1].1)
    } else {
        binding_from(b, i - 1, name)
    }
}

/// Whether assigning to `name` assigns a constant: its latest binding is a
/// constant, or it is not bound and is one of the constants outside.
pub open spec fn assigns_constant(b: Seq<BindingView>, outer: Set<Seq<char>>, name: Seq<char>) -> bool {
    match binding_from(b, b.len() as int, name) {
        Some(c) => c,
        None => outer.contains(name),
    }
}

/// The names a binding pattern binds, in order: an identifier's name, and
/// the names inside rest elements, defaults, array and object patterns.
pub open spec fn pattern_name_seq(p: EstreeNode) -> Seq<Seq<char>>
    decreases p, 1int, 0int,
{
    if spec_type_is(p, "Identifier"@) {
        match spec_field(p, RawField::Name.spec_key()@) {
            Some(EstreeValue::String(s)) => seq![s@],
            _ => Seq::empty(),
        }
    } else if spec_type_is(p, "RestElement"@) {
        member_name_seq(p, RawField::Argument)
    } else if spec_type_is(p, "AssignmentPattern"@) {
        member_name_seq(p, RawField::Left)
    } else if spec_type_is(p, "ArrayPattern"@) {
        match spec_field(p, RawField::Elements.spec_key()@) {
            Some(EstreeValue::Array(items)) => element_name_seq(p, items, 0),
            _ => Seq::empty(),
        }
    } else if spec_type_is(p, "ObjectPattern"@) {
        match spec_field(p, RawField::Properties.spec_key()@) {
            Some(EstreeValue::Array(items)) => property_name_seq(p, items, 0),
            _ => Seq::empty(),
        }
    } else {
        Seq::empty()
    }
}

/// The names bound by the pattern that the member `key` of `p` holds.
pub open spec fn member_name_seq(p: EstreeNode, key: RawField) -> Seq<Seq<char>>
    decreases p, 0int, 0int,
{
    match spec_field(p, key.spec_key()@) {
        Some(EstreeValue::Object(child)) => {
            proof {
                lemma_field_object_decreases(&p, key.spec_key()@, child);
            }
            pattern_name_seq(child)
        },
        _ => Seq::empty(),
    }
}

/// The names bound by the element patterns `items[i..]` of the array pattern `p`.
pub open spec fn element_name_seq(p: EstreeNode, items: Vec<EstreeValue>, i: int) -> Seq<Seq<char>>
    decreases p, 0int, items@.len() - i,
{
    if spec_field(p, RawField::Elements.spec_key()@) == Some(EstreeValue::Array(items)) && 0 <= i < items@.len() {
        (match items@[i] {
            EstreeValue::Object(e) => {
                proof {
                    lemma_field_array_item_decreases(&p, RawField::Elements.spec_key()@, items, i);
                }
                pattern_name_seq(e)
            },
            _ => Seq::empty(),
        }) + element_name_seq(p, items, i + 1)
    } else {
        Seq::empty()
    }
}

/// The names bound by the properties `items[i..]` of the object pattern `p`.
pub open spec fn property_name_seq(p: EstreeNode, items: Vec<EstreeValue>, i: int) -> Seq<Seq<char>>
    decreases p, 0int, items@.len() - i,
{
    if spec_field(p, RawField::Properties.spec_key()@) == Some(EstreeValue::Array(items)) && 0 <= i < items@.len() {
        (match items@[i] {
            EstreeValue::Object(prop) => {
                proof {
                    lemma_field_array_item_decreases(&p, RawField::Properties.spec_key()@, items, i);
                }
                if spec_type_is(prop, "Property"@) {
                    member_name_seq(prop, RawField::Value)
                } else if spec_type_is(prop, "RestElement"@) {
                    member_name_seq(prop, RawField::Argument)
                } else {
                    Seq::empty()
                }
            },
            _ => Seq::empty(),
        }) + property_name_seq(p, items, i + 1)
    } else {
        Seq::empty()
    }
}

/// Appends to `out` the names a binding pattern binds, in order.
pub fn push_pattern_names(pattern: &EstreeNode, out: &mut Vec<Vec<char>>)
    ensures
        names_view(final(out)@) == names_view(old(out)@) + pattern_name_seq(*pattern),
    decreases pattern,
{
    let ghost start = names_view(out@);
    if type_is(pattern, "Identifier") {
        if let Some(name) = field_str(pattern, RawField::Name) {
            out.push(copy_chars(name.as_slice()));
        }
        proof {
            assert(names_view(out@) =~= start + pattern_name_seq(*pattern));
        }
    } else if type_is(pattern, "RestElement") {
        if let Some(argument) = field_object(pattern, RawField::Argument) {
            proof {
                lemma_field_object_decreases(pattern, RawField::Argument.key()@, *argument);
            }
            push_pattern_names(argument, out);
        }
        proof {
            assert(names_view(out@) =~= start + pattern_name_seq(*pattern));
        }
    } else if type_is(pattern, "AssignmentPattern") {
        if let Some(left) = field_object(pattern, RawField::Left) {
            proof {
                lemma_field_object_decreases(pattern, RawField::Left.key()@, *left);
            }
            push_pattern_names(left, out);
        }
        proof {
            assert(names_view(out@) =~= start + pattern_name_seq(*pattern));
        }
    } else if type_is(pattern, "ArrayPattern") {
        if let Some(elements) = field_array(pattern, RawField::Elements) {
            let mut i: usize = 0;
            while i < elements.len()
                invariant
                    i <= elements@.len(),
                    spec_field(*pattern, RawField::Elements.key()@) == Some(EstreeValue::Array(*elements)),
                    names_view(out@) + element_name_seq(*pattern, *elements, i as int) == start + element_name_seq(
                        *pattern,
                        *elements,
                        0,
                    ),
                decreases elements.len() - i,
            {
                let ghost before = names_view(out@);
                let ghost k = i as int;
                if let EstreeValue::Object(element) = &elements[i] {
                    proof {
                        lemma_field_array_item_decreases(pattern, RawField::Elements.key()@, *elements, i as int);
                    }
                    push_pattern_names(element, out);
                }
                i += 1;
                proof {
                    let item = match elements@[k] {
                        EstreeValue::Object(e) => pattern_name_seq(e),
                        _ => Seq::empty(),
                    };
                    assert(element_name_seq(*pattern, *elements, k) == item + element_name_seq(*pattern, *elements, k + 1));
                    assert(names_view(out@) =~= before + item);
                    assert(names_view(out@) + element_name_seq(*pattern, *elements, k + 1) =~= before + element_name_seq(
                        *pattern,
                        *elements,
                        k,
                    ));
                }
            }
            proof {
                assert(element_name_seq(*pattern, *elements, elements@.len() as int) =~= Seq::<Seq<char>>::empty());
                assert(names_view(out@) =~= start + pattern_name_seq(*pattern));
            }
        } else {
            proof {
                assert(names_view(out@) =~= start + pattern_name_seq(*pattern));
            }
        }
    } else if type_is(pattern, "ObjectPattern") {
        if let Some(properties) = field_array(pattern, RawField::Properties) {
            let mut i: usize = 0;
            while i < properties.len()
                invariant
                    i <= properties@.len(),
                    spec_field(*pattern, RawField::Properties.key()@) == Some(EstreeValue::Array(*properties)),
                    names_view(out@) + property_name_seq(*pattern, *properties, i as int) == start + property_name_seq(
                        *pattern,
                        *properties,
                        0,
                    ),
                decreases properties.len() - i,
            {
                let ghost before = names_view(out@);
                let ghost k = i as int;
                if let EstreeValue::Object(property) = &properties[i] {
                    proof {
                        lemma_field_array_item_decreases(pattern, RawField::Properties.key()@, *properties, i as int);
                    }
                    if type_is(property, "Property") {
                        if let Some(value) = field_object(property, RawField::Value) {
                            proof {
                                lemma_field_object_decreases(property, RawField::Value.key()@, *value);
                            }
                            push_pattern_names(value, out);
                        }
                    } else if type_is(property, "RestElement") {
                        if let Some(argument) = field_object(property, RawField::Argument) {
                            proof {
                                lemma_field_object_decreases(property, RawField::Argument.key()@, *argument);
                            }
                            push_pattern_names(argument, out);
                        }
                    }
                }
                i += 1;
                proof {
                    let item = match properties@[k] {
                        EstreeValue::Object(prop) => if spec_type_is(prop, "Property"@) {
                            member_name_seq(prop, RawField::Value)
                        } else if spec_type_is(prop, "RestElement"@) {
                            member_name_seq(prop, RawField::Argument)
                        } else {
                            Seq::empty()
                        },
                        _ => Seq::empty(),
                    };
                    assert(property_name_seq(*pattern, *properties, k) == item + property_name_seq(
                        *pattern,
                        *properties,
                        k + 1,
                    ));
                    assert(names_view(out@) =~= before + item);
                    assert(names_view(out@) + property_name_seq(*pattern, *properties, k + 1) =~= before
                        + property_name_seq(*pattern, *properties, k));
                }
            }
            proof {
                assert(property_name_seq(*pattern, *properties, properties@.len() as int) =~= Seq::<
                    Seq<char>,
                >::empty());
                assert(names_view(out@) =~= start + pattern_name_seq(*pattern));
            }
        } else {
            proof {
                assert(names_view(out@) =~= start + pattern_name_seq(*pattern));
            }
        }
    } else {
        proof {
            assert(names_view(out@) =~= start + pattern_name_seq(*pattern));
        }
    }
}

/// Binds the names of a pattern, each a constant or not.
fn declare_pattern(pattern: &EstreeNode, constant: bool, bindings: &mut Vec<(Vec<char>, bool)>)
    ensures
        bindings_view(final(bindings)@) == bindings_view(old(bindings)@) + declared(pattern_name_seq(*pattern), constant),
        final(bindings)@.len() >= old(bindings)@.len(),
{
    let mut names: Vec<Vec<char>> = Vec::new();
    push_pattern_names(pattern, &mut names);
    proof {
        assert(names_view(names@) =~= pattern_name_seq(*pattern));
    }
    let ghost start = bindings_view(bindings@);
    let mut i: usize = 0;
    while i < names.len()
        invariant
            i <= names@.len(),
            names_view(names@) == pattern_name_seq(*pattern),
            bindings_view(bindings@) == start + declared(names_view(names@).subrange(0, i as int), constant),
        decreases names.len() - i,
    {
        let ghost k = i as int;
        let ghost before = bindings_view(bindings@);
        bindings.push((copy_chars(names[i].as_slice()), constant));
        i += 1;
        proof {
            assert(bindings_view(bindings@) =~= before.push((names@[k]@, constant)));
            assert(declared(names_view(names@).subrange(0, k + 1), constant) =~= declared(
                names_view(names@).subrange(0, k),
                constant,
            ).push((names@[k]@, constant)));
            assert(bindings_view(bindings@) =~= start + declared(names_view(names@).subrange(0, k + 1), constant));
        }
    }
    proof {
        assert(names_view(names@).subrange(0, names@.len() as int) =~= names_view(names@));
    }
}

/// Binds one name, a constant or not.
fn declare_name(name: &[char], constant: bool, bindings: &mut Vec<(Vec<char>, bool)>)
    ensures
        bindings_view(final(bindings)@) == bindings_view(old(bindings)@).push((name@, constant)),
        final(bindings)@.len() >= old(bindings)@.len(),
{
    let ghost start = bindings_view(bindings@);
    bindings.push((copy_chars(name), constant));
    proof {
        assert(bindings_view(bindings@) =~= start.push((name@, constant)));
    }
}

/// Whether the latest binding of `name` is a constant, if `name` is bound.
fn binding_lookup(bindings: &Vec<(Vec<char>, bool)>, name: &[char]) -> (r: Option<bool>)
    ensures
        r == binding_from(bindings_view(bindings@), bindings@.len() as int, name@),
{
    let mut i = bindings.len();
    while i > 0
        invariant
            i <= bindings@.len(),
            binding_from(bindings_view(bindings@), bindings@.len() as int, name@) == binding_from(
                bindings_view(bindings@),
                i as int,
                name@,
            ),
        decreases i,
    {
        if chars_eq(bindings[i - 1].0.as_slice(), name) {
            return Some(bindings[i - 1].1);
        }
        i -= 1;
    }
    None
}

/// Whether an assignment target binds a name whose assignment assigns a constant.
pub open spec fn target_assigns_constant(target: EstreeNode, b: Seq<BindingView>, outer: Set<Seq<char>>) -> bool {
    exists|k: int|
        0 <= k < pattern_name_seq(target).len() && assigns_constant(b, outer, #[trigger] pattern_name_seq(target)[k])
}

/// Whether an assignment target binds a name whose assignment assigns a constant.
fn target_has_constant(target: &EstreeNode, bindings: &Vec<(Vec<char>, bool)>, outer: &Vec<Vec<char>>) -> (r: bool)
    ensures
        r == target_assigns_constant(*target, bindings_view(bindings@), names_set(outer@)),
{
    let mut names: Vec<Vec<char>> = Vec::new();
    push_pattern_names(target, &mut names);
    proof {
        assert(names_view(names@) =~= pattern_name_seq(*target));
    }
    let mut i: usize = 0;
    while i < names.len()
        invariant
            i <= names@.len(),
            names_view(names@) == pattern_name_seq(*target),
            forall|k: int|
                0 <= k < i ==> !assigns_constant(
                    bindings_view(bindings@),
                    names_set(outer@),
                    #[trigger] pattern_name_seq(*target)[k],
                ),
        decreases names.len() - i,
    {
        let ghost k = i as int;
        proof {
            assert(pattern_name_seq(*target)[k] == names@[k]@);
        }
        let constant = match binding_lookup(bindings, names[i].as_slice()) {
            Some(c) => c,
            None => crate::bindings::contains_name(outer, names[i].as_slice()),
        };
        if constant {
            return true;
        }
        i += 1;
    }
    false
}

/// A range as whole numbers.
pub open spec fn span_view(r: Option<(usize, usize)>) -> Option<(int, int)> {
    match r {
        Some((s, e)) => Some((s as int, e as int)),
        None => None,
    }
}

/// The outcome of a walk: the range of the first assignment to a constant,
/// if one was found, and the bindings after the walk.
pub type WalkOutcome = (Option<(int, int)>, Seq<BindingView>);

/// The walk of a node from the bindings `b`.
pub open spec fn walk_node(n: EstreeNode, b: Seq<BindingView>, outer: Set<Seq<char>>) -> WalkOutcome
    decreases n, 4int, 0int,
{
    if spec_type_is(n, "Program"@) {
        walk_body(n, b, outer)
    } else if spec_type_is(n, "BlockStatement"@) {
        let (r, after) = walk_body(n, b, outer);
        (r, after.subrange(0, b.len() as int))
    } else if spec_type_is(n, "VariableDeclaration"@) {
        let constant = spec_str_field(n, RawField::Kind.spec_key()@) == Some("const"@);
        match spec_field(n, RawField::Declarations.spec_key()@) {
            Some(EstreeValue::Array(ds)) => walk_inits(n, ds, 0, b + declared(declarator_name_seq(ds@, 0), constant), outer),
            _ => (None, b),
        }
    } else if spec_type_is(n, "ImportDeclaration"@) {
        match spec_field(n, RawField::Specifiers.spec_key()@) {
            Some(EstreeValue::Array(sp)) => (None, b + declared(local_name_seq(sp@, 0), true)),
            _ => (None, b),
        }
    } else if spec_type_is(n, "ExportNamedDeclaration"@) {
        match spec_field(n, RawField::Declaration.spec_key()@) {
            Some(EstreeValue::Object(d)) => {
                proof {
                    lemma_field_object_decreases(&n, RawField::Declaration.spec_key()@, d);
                }
                walk_node(d, b, outer)
            },
            _ => walk_fields(n, 0, b, outer),
        }
    } else if spec_type_is(n, "FunctionDeclaration"@) {
        walk_function(n, b + declared(id_name_seq(n), false), outer, false)
    } else if spec_type_is(n, "FunctionExpression"@) {
        walk_function(n, b, outer, true)
    } else if spec_type_is(n, "ArrowFunctionExpression"@) {
        walk_function(n, b, outer, false)
    } else if spec_type_is(n, "ClassDeclaration"@) {
        walk_fields(n, 0, b + declared(id_name_seq(n), false), outer)
    } else if spec_type_is(n, "CatchClause"@) {
        let inner = match spec_field(n, "param"@) {
            Some(EstreeValue::Object(param)) => b + declared(pattern_name_seq(param), false),
            _ => b,
        };
        let (r, after) = match spec_field(n, RawField::Body.spec_key()@) {
            Some(EstreeValue::Object(body)) => {
                proof {
                    lemma_field_object_decreases(&n, RawField::Body.spec_key()@, body);
                }
                walk_node(body, inner, outer)
            },
            _ => walk_fields(n, 0, inner, outer),
        };
        (r, after.subrange(0, b.len() as int))
    } else if spec_type_is(n, "AssignmentExpression"@) || spec_type_is(n, "UpdateExpression"@) {
        let key = if spec_type_is(n, "AssignmentExpression"@) {
            RawField::Left
        } else {
            RawField::Argument
        };
        if (spec_field(n, key.spec_key()@) matches Some(EstreeValue::Object(t)) && target_assigns_constant(t, b, outer))
            && spec_estree_span(n) is Some {
            (spec_estree_span(n), b)
        } else {
            walk_fields(n, 0, b, outer)
        }
    } else {
        walk_fields(n, 0, b, outer)
    }
}

/// The walk of a program or block: its statements if it has a body, else its members.
pub open spec fn walk_body(n: EstreeNode, b: Seq<BindingView>, outer: Set<Seq<char>>) -> WalkOutcome
    decreases n, 3int, 0int,
{
    match spec_field(n, RawField::Body.spec_key()@) {
        Some(EstreeValue::Array(body)) => walk_statements(n, body, 0, b, outer),
        _ => walk_fields(n, 0, b, outer),
    }
}

/// The name of the `id` of a function or class, as a list of at most one name.
pub open spec fn id_name_seq(n: EstreeNode) -> Seq<Seq<char>> {
    match spec_field(n, RawField::Id.spec_key()@) {
        Some(EstreeValue::Object(id)) => match spec_identifier_name(id) {
            Some(name) => seq![name],
            None => Seq::empty(),
        },
        _ => Seq::empty(),
    }
}

/// The names bound by the `id` patterns of the declarators `ds[i..]`.
pub open spec fn declarator_name_seq(ds: Seq<EstreeValue>, i: int) -> Seq<Seq<char>>
    decreases ds.len() - i,
{
    if 0 <= i < ds.len() {
        (match ds[i] {
            EstreeValue::Object(d) => match spec_field(d, RawField::Id.spec_key()@) {
                Some(EstreeValue::Object(id)) => pattern_name_seq(id),
                _ => Seq::empty(),
            },
            _ => Seq::empty(),
        }) + declarator_name_seq(ds, i + 1)
    } else {
        Seq::empty()
    }
}

/// The names bound by the `local` patterns of the import specifiers `sp[i..]`.
pub open spec fn local_name_seq(sp: Seq<EstreeValue>, i: int) -> Seq<Seq<char>>
    decreases sp.len() - i,
{
    if 0 <= i < sp.len() {
        (match sp[i] {
            EstreeValue::Object(s) => match spec_field(s, RawField::Local.spec_key()@) {
                Some(EstreeValue::Object(local)) => pattern_name_seq(local),
                _ => Seq::empty(),
            },
            _ => Seq::empty(),
        }) + local_name_seq(sp, i + 1)
    } else {
        Seq::empty()
    }
}

/// The walk of the initializers of the declarators `ds[i..]` of `n`.
pub open spec fn walk_inits(n: EstreeNode, ds: Vec<EstreeValue>, i: int, b: Seq<BindingView>, outer: Set<Seq<char>>) -> WalkOutcome
    decreases n, 1int, ds@.len() - i,
{
    if spec_field(n, RawField::Declarations.spec_key()@) == Some(EstreeValue::Array(ds)) && 0 <= i < ds@.len() {
        match ds@[i] {
            EstreeValue::Object(d) => {
                proof {
                    lemma_field_array_item_decreases(&n, RawField::Declarations.spec_key()@, ds, i);
                }
                match spec_field(d, RawField::Init.spec_key()@) {
                    Some(EstreeValue::Object(init)) => {
                        proof {
                            lemma_field_object_decreases(&d, RawField::Init.spec_key()@, init);
                        }
                        let (r, after) = walk_node(init, b, outer);
                        if r is Some {
                            (r, after)
                        } else {
                            walk_inits(n, ds, i + 1, after, outer)
                        }
                    },
                    _ => walk_inits(n, ds, i + 1, b, outer),
                }
            },
            _ => walk_inits(n, ds, i + 1, b, outer),
        }
    } else {
        (None, b)
    }
}

/// The walk of the statements `body[i..]` of `n`.
pub open spec fn walk_statements(n: EstreeNode, body: Vec<EstreeValue>, i: int, b: Seq<BindingView>, outer: Set<Seq<char>>) -> WalkOutcome
    decreases n, 1int, body@.len() - i,
{
    if spec_field(n, RawField::Body.spec_key()@) == Some(EstreeValue::Array(body)) && 0 <= i < body@.len() {
        match body@[i] {
            EstreeValue::Object(st) => {
                proof {
                    lemma_field_array_item_decreases(&n, RawField::Body.spec_key()@, body, i);
                }
                let (r, after) = walk_node(st, b, outer);
                if r is Some {
                    (r, after)
                } else {
                    walk_statements(n, body, i + 1, after, outer)
                }
            },
            _ => walk_statements(n, body, i + 1, b, outer),
        }
    } else {
        (None, b)
    }
}

/// The walk of a function: in a scope of its own, its name (for a function
/// expression), its parameters, then its body.
pub open spec fn walk_function(n: EstreeNode, b: Seq<BindingView>, outer: Set<Seq<char>>, inner_name: bool) -> WalkOutcome
    decreases n, 3int, 0int,
{
    let named = if inner_name {
        b + declared(id_name_seq(n), false)
    } else {
        b
    };
    let with_params = match spec_field(n, RawField::Params.spec_key()@) {
        Some(EstreeValue::Array(ps)) => named + declared(param_name_seq(ps@, 0), false),
        _ => named,
    };
    let (r, after) = match spec_field(n, RawField::Body.spec_key()@) {
        Some(EstreeValue::Object(body)) => {
            proof {
                lemma_field_object_decreases(&n, RawField::Body.spec_key()@, body);
            }
            walk_node(body, with_params, outer)
        },
        _ => (None, with_params),
    };
    (r, after.subrange(0, b.len() as int))
}

/// The names bound by the parameter patterns `ps[i..]`.
pub open spec fn param_name_seq(ps: Seq<EstreeValue>, i: int) -> Seq<Seq<char>>
    decreases ps.len() - i,
{
    if 0 <= i < ps.len() {
        (match ps[i] {
            EstreeValue::Object(p) => pattern_name_seq(p),
            _ => Seq::empty(),
        }) + param_name_seq(ps, i + 1)
    } else {
        Seq::empty()
    }
}

/// The walk of the members `n.fields[i..]`.
pub open spec fn walk_fields(n: EstreeNode, i: int, b: Seq<BindingView>, outer: Set<Seq<char>>) -> WalkOutcome
    decreases n, 0int, n.fields@.len() - i,
{
    if 0 <= i < n.fields@.len() {
        proof {
            assert(decreases_to!(n => n.fields));
            assert(decreases_to!(n.fields => n.fields@));
            assert(decreases_to!(n.fields@ => n.fields@[i]));
            assert(decreases_to!(n.fields@[i] => n.fields@[i].value));
        }
        let (r, after) = walk_value(n.fields@[i].value, b, outer);
        if r is Some {
            (r, after)
        } else {
            walk_fields(n, i + 1, after, outer)
        }
    } else {
        (None, b)
    }
}

/// The walk of a member value.
pub open spec fn walk_value(v: EstreeValue, b: Seq<BindingView>, outer: Set<Seq<char>>) -> WalkOutcome
    decreases v, 4int, 0int,
{
    match v {
        EstreeValue::Object(o) => walk_node(o, b, outer),
        EstreeValue::Array(_) => walk_items(v, 0, b, outer),
        _ => (None, b),
    }
}

/// The walk of the items `[i..]` of an array value.
pub open spec fn walk_items(v: EstreeValue, i: int, b: Seq<BindingView>, outer: Set<Seq<char>>) -> WalkOutcome
    decreases v, 0int, (match v {
        EstreeValue::Array(items) => items@.len() as int,
        _ => 0int,
    }) - i,
{
    match v {
        EstreeValue::Array(items) => if 0 <= i < items@.len() {
            proof {
                assert(decreases_to!(v => v->Array_0));
                assert(decreases_to!(items => items@));
                assert(decreases_to!(items@ => items@[i]));
            }
            let (r, after) = walk_value(items@[i], b, outer);
            if r is Some {
                (r, after)
            } else {
                walk_items(v, i + 1, after, outer)
            }
        } else {
            (None, b)
        },
        _ => (None, b),
    }
}

/// `declared` of a concatenation is the concatenation of `declared`.
proof fn lemma_declared_concat(a: Seq<Seq<char>>, b: Seq<Seq<char>>, constant: bool)
    ensures
        declared(a + b, constant) == declared(a, constant) + declared(b, constant),
{
    assert(declared(a + b, constant) =~= declared(a, constant) + declared(b, constant));
}

/// Binds, as constants or not, the names of the `id` patterns of declarators.
fn declare_declarators(ds: &Vec<EstreeValue>, constant: bool, bindings: &mut Vec<(Vec<char>, bool)>)
    ensures
        bindings_view(final(bindings)@) == bindings_view(old(bindings)@) + declared(declarator_name_seq(ds@, 0), constant),
        final(bindings)@.len() >= old(bindings)@.len(),
{
    let ghost start = bindings_view(bindings@);
    let mut i: usize = 0;
    while i < ds.len()
        invariant
            i <= ds@.len(),
            bindings_view(bindings@) + declared(declarator_name_seq(ds@, i as int), constant) == start + declared(
                declarator_name_seq(ds@, 0),
                constant,
            ),
        decreases ds.len() - i,
    {
        let ghost before = bindings_view(bindings@);
        let ghost k = i as int;
        if let EstreeValue::Object(d) = &ds[i] {
            if let Some(id) = field_object(d, RawField::Id) {
                declare_pattern(id, constant, bindings);
            }
        }
        i += 1;
        proof {
            let item = match ds@[k] {
                EstreeValue::Object(d) => match spec_field(d, RawField::Id.spec_key()@) {
                    Some(EstreeValue::Object(id)) => pattern_name_seq(id),
                    _ => Seq::empty(),
                },
                _ => Seq::empty(),
            };
            assert(declarator_name_seq(ds@, k) == item + declarator_name_seq(ds@, k + 1));
            lemma_declared_concat(item, declarator_name_seq(ds@, k + 1), constant);
            assert(bindings_view(bindings@) =~= before + declared(item, constant));
            assert(bindings_view(bindings@) + declared(declarator_name_seq(ds@, k + 1), constant) =~= before + declared(
                declarator_name_seq(ds@, k),
                constant,
            ));
        }
    }
    proof {
        assert(declared(declarator_name_seq(ds@, ds@.len() as int), constant) =~= Seq::<BindingView>::empty());
        assert(bindings_view(bindings@) =~= start + declared(declarator_name_seq(ds@, 0), constant));
    }
}

/// Binds, as constants, the names of the `local` patterns of import specifiers.
fn declare_locals(sp: &Vec<EstreeValue>, bindings: &mut Vec<(Vec<char>, bool)>)
    ensures
        bindings_view(final(bindings)@) == bindings_view(old(bindings)@) + declared(local_name_seq(sp@, 0), true),
        final(bindings)@.len() >= old(bindings)@.len(),
{
    let ghost start = bindings_view(bindings@);
    let mut i: usize = 0;
    while i < sp.len()
        invariant
            i <= sp@.len(),
            bindings_view(bindings@) + declared(local_name_seq(sp@, i as int), true) == start + declared(
                local_name_seq(sp@, 0),
                true,
            ),
        decreases sp.len() - i,
    {
        let ghost before = bindings_view(bindings@);
        let ghost k = i as int;
        if let EstreeValue::Object(specifier) = &sp[i] {
            if let Some(local) = field_object(specifier, RawField::Local) {
                declare_pattern(local, true, bindings);
            }
        }
        i += 1;
        proof {
            let item = match sp@[k] {
                EstreeValue::Object(s) => match spec_field(s, RawField::Local.spec_key()@) {
                    Some(EstreeValue::Object(local)) => pattern_name_seq(local),
                    _ => Seq::empty(),
                },
                _ => Seq::empty(),
            };
            assert(local_name_seq(sp@, k) == item + local_name_seq(sp@, k + 1));
            lemma_declared_concat(item, local_name_seq(sp@, k + 1), true);
            assert(bindings_view(bindings@) =~= before + declared(item, true));
            assert(bindings_view(bindings@) + declared(local_name_seq(sp@, k + 1), true) =~= before + declared(
                local_name_seq(sp@, k),
                true,
            ));
        }
    }
    proof {
        assert(declared(local_name_seq(sp@, sp@.len() as int), true) =~= Seq::<BindingView>::empty());
        assert(bindings_view(bindings@) =~= start + declared(local_name_seq(sp@, 0), true));
    }
}

/// Binds, not as constants, the names of parameter patterns.
fn declare_params(ps: &Vec<EstreeValue>, bindings: &mut Vec<(Vec<char>, bool)>)
    ensures
        bindings_view(final(bindings)@) == bindings_view(old(bindings)@) + declared(param_name_seq(ps@, 0), false),
        final(bindings)@.len() >= old(bindings)@.len(),
{
    let ghost start = bindings_view(bindings@);
    let mut i: usize = 0;
    while i < ps.len()
        invariant
            i <= ps@.len(),
            bindings_view(bindings@) + declared(param_name_seq(ps@, i as int), false) == start + declared(
                param_name_seq(ps@, 0),
                false,
            ),
        decreases ps.len() - i,
    {
        let ghost before = bindings_view(bindings@);
        let ghost k = i as int;
        if let EstreeValue::Object(p) = &ps[i] {
            declare_pattern(p, false, bindings);
        }
        i += 1;
        proof {
            let item = match ps@[k] {
                EstreeValue::Object(p) => pattern_name_seq(p),
                _ => Seq::empty(),
            };
            assert(param_name_seq(ps@, k) == item + param_name_seq(ps@, k + 1));
            lemma_declared_concat(item, param_name_seq(ps@, k + 1), false);
            assert(bindings_view(bindings@) =~= before + declared(item, false));
            assert(bindings_view(bindings@) + declared(param_name_seq(ps@, k + 1), false) =~= before + declared(
                param_name_seq(ps@, k),
                false,
            ));
        }
    }
    proof {
        assert(declared(param_name_seq(ps@, ps@.len() as int), false) =~= Seq::<BindingView>::empty());
        assert(bindings_view(bindings@) =~= start + declared(param_name_seq(ps@, 0), false));
    }
}

/// Binds, not as a constant, the name of the `id` of a function or class.
fn declare_id(node: &EstreeNode, bindings: &mut Vec<(Vec<char>, bool)>)
    ensures
        bindings_view(final(bindings)@) == bindings_view(old(bindings)@) + declared(id_name_seq(*node), false),
        final(bindings)@.len() >= old(bindings)@.len(),
{
    let ghost start = bindings_view(bindings@);
    if let Some(id) = field_object(node, RawField::Id) {
        if let Some(name) = identifier_name(id) {
            declare_name(name.as_slice(), false, bindings);
            proof {
                assert(declared(id_name_seq(*node), false) =~= seq![(name@, false)]);
                assert(bindings_view(bindings@) =~= start + declared(id_name_seq(*node), false));
            }
            return;
        }
    }
    proof {
        assert(declared(id_name_seq(*node), false) =~= Seq::<BindingView>::empty());
        assert(bindings_view(bindings@) =~= start + declared(id_name_seq(*node), false));
    }
}

/// Drops the bindings made after the first `mark`.
fn pop_scope(bindings: &mut Vec<(Vec<char>, bool)>, mark: usize)
    requires
        mark <= old(bindings)@.len(),
    ensures
        bindings_view(final(bindings)@) == bindings_view(old(bindings)@).subrange(0, mark as int),
        final(bindings)@.len() == mark,
{
    let ghost before = bindings_view(bindings@);
    bindings.truncate(mark);
    proof {
        assert(bindings_view(bindings@) =~= before.subrange(0, mark as int));
    }
}

/// The walk of a node.
fn visit_node(node: &EstreeNode, bindings: &mut Vec<(Vec<char>, bool)>, outer: &Vec<Vec<char>>) -> (r: Option<(usize, usize)>)
    ensures
        (span_view(r), bindings_view(final(bindings)@)) == walk_node(*node, bindings_view(old(bindings)@), names_set(outer@)),
        final(bindings)@.len() >= old(bindings)@.len(),
    decreases node, 4nat,
{
    if type_is(node, "Program") {
        visit_body(node, bindings, outer)
    } else if type_is(node, "BlockStatement") {
        let mark = bindings.len();
        let r = visit_body(node, bindings, outer);
        pop_scope(bindings, mark);
        r
    } else if type_is(node, "VariableDeclaration") {
        let constant = match field_str(node, RawField::Kind) {
            Some(k) => text_is(k.as_slice(), "const"),
            None => false,
        };
        match field_array(node, RawField::Declarations) {
            Some(declarations) => {
                declare_declarators(declarations, constant, bindings);
                visit_inits(node, declarations, bindings, outer)
            },
            None => None,
        }
    } else if type_is(node, "ImportDeclaration") {
        if let Some(specifiers) = field_array(node, RawField::Specifiers) {
            declare_locals(specifiers, bindings);
        }
        None
    } else if type_is(node, "ExportNamedDeclaration") {
        match field_object(node, RawField::Declaration) {
            Some(declaration) => {
                proof {
                    lemma_field_object_decreases(node, RawField::Declaration.key()@, *declaration);
                }
                visit_node(declaration, bindings, outer)
            },
            None => visit_fields(node, bindings, outer),
        }
    } else if type_is(node, "FunctionDeclaration") {
        declare_id(node, bindings);
        visit_function(node, bindings, outer, false)
    } else if type_is(node, "FunctionExpression") {
        visit_function(node, bindings, outer, true)
    } else if type_is(node, "ArrowFunctionExpression") {
        visit_function(node, bindings, outer, false)
    } else if type_is(node, "ClassDeclaration") {
        declare_id(node, bindings);
        visit_fields(node, bindings, outer)
    } else if type_is(node, "CatchClause") {
        let mark = bindings.len();
        if let Some(param) = crate::estree::field_object_named(node, "param") {
            declare_pattern(param, false, bindings);
        }
        let r = match field_object(node, RawField::Body) {
            Some(body) => {
                proof {
                    lemma_field_object_decreases(node, RawField::Body.key()@, *body);
                }
                visit_node(body, bindings, outer)
            },
            None => visit_fields(node, bindings, outer),
        };
        pop_scope(bindings, mark);
        r
    } else if type_is(node, "AssignmentExpression") || type_is(node, "UpdateExpression") {
        let key = if type_is(node, "AssignmentExpression") {
            RawField::Left
        } else {
            RawField::Argument
        };
        if let Some(target) = field_object(node, key) {
            if target_has_constant(target, bindings, outer) {
                if let Some(span) = node_span(node) {
                    return Some(span);
                }
            }
        }
        visit_fields(node, bindings, outer)
    } else {
        visit_fields(node, bindings, outer)
    }
}

/// The walk of a program or block.
fn visit_body(node: &EstreeNode, bindings: &mut Vec<(Vec<char>, bool)>, outer: &Vec<Vec<char>>) -> (r: Option<(usize, usize)>)
    ensures
        (span_view(r), bindings_view(final(bindings)@)) == walk_body(*node, bindings_view(old(bindings)@), names_set(outer@)),
        final(bindings)@.len() >= old(bindings)@.len(),
    decreases node, 3nat,
{
    let body = match field_array(node, RawField::Body) {
        Some(body) => body,
        None => return visit_fields(node, bindings, outer),
    };
    let mut i: usize = 0;
    while i < body.len()
        invariant
            i <= body@.len(),
            spec_field(*node, RawField::Body.key()@) == Some(EstreeValue::Array(*body)),
            walk_statements(*node, *body, 0, bindings_view(old(bindings)@), names_set(outer@)) == walk_statements(
                *node,
                *body,
                i as int,
                bindings_view(bindings@),
                names_set(outer@),
            ),
            bindings@.len() >= old(bindings)@.len(),
        decreases body.len() - i,
    {
        if let EstreeValue::Object(statement) = &body[i] {
            proof {
                lemma_field_array_item_decreases(node, RawField::Body.key()@, *body, i as int);
            }
            let r = visit_node(statement, bindings, outer);
            if r.is_some() {
                return r;
            }
        }
        i += 1;
    }
    None
}

/// The walk of the initializers of the declarators `ds` of `node`.
fn visit_inits(
    node: &EstreeNode,
    ds: &Vec<EstreeValue>,
    bindings: &mut Vec<(Vec<char>, bool)>,
    outer: &Vec<Vec<char>>,
) -> (r: Option<(usize, usize)>)
    requires
        spec_field(*node, RawField::Declarations.spec_key()@) == Some(EstreeValue::Array(*ds)),
    ensures
        (span_view(r), bindings_view(final(bindings)@)) == walk_inits(*node, *ds, 0, bindings_view(old(bindings)@), names_set(outer@)),
        final(bindings)@.len() >= old(bindings)@.len(),
    decreases node, 3nat,
{
    let mut i: usize = 0;
    while i < ds.len()
        invariant
            i <= ds@.len(),
            spec_field(*node, RawField::Declarations.spec_key()@) == Some(EstreeValue::Array(*ds)),
            walk_inits(*node, *ds, 0, bindings_view(old(bindings)@), names_set(outer@)) == walk_inits(
                *node,
                *ds,
                i as int,
                bindings_view(bindings@),
                names_set(outer@),
            ),
            bindings@.len() >= old(bindings)@.len(),
        decreases ds.len() - i,
    {
        if let EstreeValue::Object(d) = &ds[i] {
            proof {
                lemma_field_array_item_decreases(node, RawField::Declarations.spec_key()@, *ds, i as int);
            }
            if let Some(init) = field_object(d, RawField::Init) {
                proof {
                    lemma_field_object_decreases(d, RawField::Init.key()@, *init);
                }
                let r = visit_node(init, bindings, outer);
                if r.is_some() {
                    return r;
                }
            }
        }
        i += 1;
    }
    None
}

/// The walk of a function: its name (for a function expression), its
/// parameters and its body, in a scope of its own.
fn visit_function(
    node: &EstreeNode,
    bindings: &mut Vec<(Vec<char>, bool)>,
    outer: &Vec<Vec<char>>,
    inner_name: bool,
) -> (r: Option<(usize, usize)>)
    ensures
        (span_view(r), bindings_view(final(bindings)@)) == walk_function(
            *node,
            bindings_view(old(bindings)@),
            names_set(outer@),
            inner_name,
        ),
        final(bindings)@.len() >= old(bindings)@.len(),
    decreases node, 3nat,
{
    let mark = bindings.len();
    if inner_name {
        declare_id(node, bindings);
    }
    if let Some(params) = field_array(node, RawField::Params) {
        declare_params(params, bindings);
    }
    let r = match field_object(node, RawField::Body) {
        Some(body) => {
            proof {
                lemma_field_object_decreases(node, RawField::Body.key()@, *body);
            }
            visit_node(body, bindings, outer)
        },
        None => None,
    };
    pop_scope(bindings, mark);
    r
}

/// The walk of the members of a node.
fn visit_fields(node: &EstreeNode, bindings: &mut Vec<(Vec<char>, bool)>, outer: &Vec<Vec<char>>) -> (r: Option<(usize, usize)>)
    ensures
        (span_view(r), bindings_view(final(bindings)@)) == walk_fields(*node, 0, bindings_view(old(bindings)@), names_set(outer@)),
        final(bindings)@.len() >= old(bindings)@.len(),
    decreases node, 2nat,
{
    let mut i: usize = 0;
    while i < node.fields.len()
        invariant
            i <= node.fields@.len(),
            walk_fields(*node, 0, bindings_view(old(bindings)@), names_set(outer@)) == walk_fields(
                *node,
                i as int,
                bindings_view(bindings@),
                names_set(outer@),
            ),
            bindings@.len() >= old(bindings)@.len(),
        decreases node.fields.len() - i,
    {
        proof {
            assert(decreases_to!(*node => node.fields));
            assert(decreases_to!(node.fields => node.fields@));
            assert(decreases_to!(node.fields@ => node.fields@[i as int]));
            assert(decreases_to!(node.fields@[i as int] => node.fields@[i as int].value));
        }
        let r = visit_value(&node.fields[i].value, bindings, outer);
        if r.is_some() {
            return r;
        }
        i += 1;
    }
    None
}

/// The walk of a member value.
fn visit_value(value: &EstreeValue, bindings: &mut Vec<(Vec<char>, bool)>, outer: &Vec<Vec<char>>) -> (r: Option<(usize, usize)>)
    ensures
        (span_view(r), bindings_view(final(bindings)@)) == walk_value(*value, bindings_view(old(bindings)@), names_set(outer@)),
        final(bindings)@.len() >= old(bindings)@.len(),
    decreases value, 4nat,
{
    match value {
        EstreeValue::Object(node) => visit_node(node, bindings, outer),
        EstreeValue::Array(items) => {
            let mut i: usize = 0;
            while i < items.len()
                invariant
                    i <= items@.len(),
                    *value == EstreeValue::Array(*items),
                    walk_items(*value, 0, bindings_view(old(bindings)@), names_set(outer@)) == walk_items(
                        *value,
                        i as int,
                        bindings_view(bindings@),
                        names_set(outer@),
                    ),
                    bindings@.len() >= old(bindings)@.len(),
                decreases items.len() - i,
            {
                proof {
                    assert(decreases_to!(*value => value->Array_0));
                    assert(decreases_to!(*items => items@));
                    assert(decreases_to!(items@ => items@[i as int]));
                }
                let r = visit_value(&items[i], bindings, outer);
                if r.is_some() {
                    return r;
                }
                i += 1;
            }
            None
        },
        _ => None,
    }
}

/// The range of the first assignment or update, in the walk's order, whose
/// target binds a constant: one declared `const` or imported in the tree
/// and not shadowed where the assignment stands, or one of `outer` that
/// the tree does not bind.
pub fn find_constant_assignment_in_node(node: &EstreeNode, outer: &Vec<Vec<char>>) -> (r: Option<(usize, usize)>)
    ensures
        span_view(r) == walk_node(*node, Seq::empty(), names_set(outer@)).0,
{
    let mut bindings: Vec<(Vec<char>, bool)> = Vec::new();
    proof {
        assert(bindings_view(bindings@) =~= Seq::<BindingView>::empty());
    }
    visit_node(node, &mut bindings, outer)
}

/// The first assignment to a constant of an expression, where `outer` are
/// constants from around it.
pub fn find_constant_assignment_in_expression(expression: &Expression, outer: &Vec<Vec<char>>) -> (r: Option<(usize, usize)>)
    ensures
        span_view(r) == walk_node(expression.0, Seq::empty(), names_set(outer@)).0,
{
    find_constant_assignment_in_node(&expression.0, outer)
}

/// The error for an assignment to a constant of a program, if any.
pub open spec fn constant_assignment_view(program: EstreeNode) -> Option<ErrorView> {
    match walk_node(program, Seq::empty(), Set::empty()).0 {
        Some((s, e)) => Some(kind_error_view(CompilerDiagnosticKind::ConstantAssignment, s, e)),
        None => None,
    }
}

/// The error for the first assignment to a constant of a program.
pub fn detect_constant_assignment(program: &EstreeNode) -> (r: Option<CompileError>)
    ensures
        option_error_view(r) == constant_assignment_view(*program),
{
    let none: Vec<Vec<char>> = Vec::new();
    proof {
        assert(names_set(none@) =~= Set::<Seq<char>>::empty());
    }
    match find_constant_assignment_in_node(program, &none) {
        Some((s, e)) => Some(compile_error_with_range(CompilerDiagnosticKind::ConstantAssignment, s, e)),
        None => None,
    }
}

/// The first assignment to a constant in the module script, then in the instance script.
pub fn detect_constant_assignment_component(root: &Root) -> (r: Option<CompileError>)
    ensures
        option_error_view(r) == crate::diagnostics::first_error(
            match root.module {
                Some(sc) => constant_assignment_view(sc.content),
                None => None,
            },
            match root.instance {
                Some(sc) => constant_assignment_view(sc.content),
                None => None,
            },
        ),
{
    if let Some(script) = &root.module {
        if let Some(e) = detect_constant_assignment(&script.content) {
            return Some(e);
        }
    }
    if let Some(script) = &root.instance {
        return detect_constant_assignment(&script.content);
    }
    None
}

} // verus!
