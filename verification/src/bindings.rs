//! Names in JavaScript trees: the names a pattern binds, the names an
//! expression mentions, and assignments to given names.
use vstd::prelude::*;

use crate::estree::{
    field_array, field_object, field_str, identifier_name, lemma_field_array_item_decreases,
    lemma_field_object_decreases, node_span, spec_estree_span, spec_field, spec_type_is, type_is, EstreeNode, EstreeValue, RawField,
};
use crate::text::{chars_eq, copy_chars};

verus! {

/// Whether `names` holds `name`.
pub open spec fn has_name(names: Seq<Vec<char>>, name: Seq<char>) -> bool {
    exists|i: int| 0 <= i < names.len() && (#[trigger] names[i])@ == name
}

/// Names as plain values.
pub open spec fn names_view(v: Seq<Vec<char>>) -> Seq<Seq<char>> {
    v.map_values(|n: Vec<char>| n@)
}

/// The index of the first of `vs[i..]` equal to `x`.
pub open spec fn first_index_from(vs: Seq<Seq<char>>, i: int, x: Seq<char>) -> Option<int>
    decreases vs.len() - i,
{
    if 0 <= i < vs.len() {
        if vs[i] == x {
            Some(i)
        } else {
            first_index_from(vs, i + 1, x)
        }
    } else {
        None
    }
}

/// A list holds a name exactly when its plain values do.
pub proof fn lemma_has_name_view(v: Seq<Vec<char>>, x: Seq<char>)
    ensures
        has_name(v, x) == names_view(v).contains(x),
{
    if has_name(v, x) {
        let i = choose|i: int| 0 <= i < v.len() && (#[trigger] v[i])@ == x;
        assert(names_view(v)[i] == x);
    }
    if names_view(v).contains(x) {
        let i = choose|i: int| 0 <= i < names_view(v).len() && names_view(v)[i] == x;
        assert(v[i]@ == x);
    }
}

/// The set of names a list holds.
pub open spec fn names_set(names: Seq<Vec<char>>) -> Set<Seq<char>> {
    Set::new(|n: Seq<char>| has_name(names, n))
}

/// Whether `names` holds `name`.
pub fn contains_name(names: &Vec<Vec<char>>, name: &[char]) -> (r: bool)
    ensures
        r == has_name(names@, name@),
{
    let mut i: usize = 0;
    while i < names.len()
        invariant
            i <= names@.len(),
            forall|j: int| 0 <= j < i ==> (#[trigger] names@[j])@ != name@,
        decreases names.len() - i,
    {
        if chars_eq(names[i].as_slice(), name) {
            return true;
        }
        i += 1;
    }
    false
}

/// Adds `name` to `names` unless it is there already.
pub fn push_unique(names: &mut Vec<Vec<char>>, name: &[char])
    ensures
        forall|n: Seq<char>| has_name(final(names)@, n) <==> (has_name(old(names)@, n) || n == name@),
        final(names)@.len() <= old(names)@.len() + 1,
        final(names)@.len() >= old(names)@.len(),
        final(names)@.subrange(0, old(names)@.len() as int) == old(names)@,
        names_view(final(names)@) == if has_name(old(names)@, name@) {
            names_view(old(names)@)
        } else {
            names_view(old(names)@).push(name@)
        },
{
    if contains_name(names, name) {
        return;
    }
    let ghost before = names@;
    names.push(copy_chars(name));
    proof {
        assert(names@[before.len() as int]@ == name@);
        assert forall|n: Seq<char>| has_name(names@, n) <==> (has_name(before, n) || n == name@) by {
            if has_name(names@, n) {
                let i = choose|i: int| 0 <= i < names@.len() && (#[trigger] names@[i])@ == n;
                if i < before.len() {
                    assert(before[i] == names@[i]);
                }
            }
            if has_name(before, n) {
                let i = choose|i: int| 0 <= i < before.len() && (#[trigger] before[i])@ == n;
                assert(names@[i] == before[i]);
            }
        }
        assert(names@.subrange(0, before.len() as int) =~= before);
        assert(names_view(names@) =~= names_view(before).push(name@));
    }
}

/// The name of the identifier at the base of a chain of member accesses:
/// `a` for `a`, `a.b` or `a[b].c`.
pub open spec fn spec_base_identifier(node: EstreeNode) -> Option<Seq<char>>
    decreases node,
{
    if spec_type_is(node, "Identifier"@) {
        match spec_field(node, RawField::Name.spec_key()@) {
            Some(EstreeValue::String(s)) => Some(s@),
            _ => None,
        }
    } else if spec_type_is(node, "MemberExpression"@) {
        match spec_field(node, RawField::Object.spec_key()@) {
            Some(EstreeValue::Object(object)) => {
                proof {
                    lemma_field_object_decreases(&node, RawField::Object.spec_key()@, object);
                }
                spec_base_identifier(object)
            },
            _ => None,
        }
    } else {
        None
    }
}

/// The name of the identifier at the base of a chain of member accesses:
/// `a` for `a`, `a.b` or `a[b].c`.
pub fn base_identifier_name(node: &EstreeNode) -> (r: Option<&Vec<char>>)
    ensures
        match r {
            Some(n) => spec_base_identifier(*node) == Some(n@),
            None => spec_base_identifier(*node) is None,
        },
    decreases node,
{
    if type_is(node, "Identifier") {
        return field_str(node, RawField::Name);
    }
    if type_is(node, "MemberExpression") {
        return match field_object(node, RawField::Object) {
            Some(object) => {
                proof {
                    lemma_field_object_decreases(node, RawField::Object.key()@, *object);
                }
                base_identifier_name(object)
            },
            None => None,
        };
    }
    None
}

/// Whether the binding pattern at `p` binds the name `n`: an identifier
/// binds its name; rest elements, defaults, array and object patterns bind
/// what the patterns inside them bind.
pub open spec fn pattern_binds(p: EstreeNode, n: Seq<char>) -> bool
    decreases p, 1int, 0int,
{
    if spec_type_is(p, "Identifier"@) {
        spec_field(p, RawField::Name.spec_key()@) matches Some(EstreeValue::String(s)) && s@ == n
    } else if spec_type_is(p, "RestElement"@) {
        member_binds(p, RawField::Argument, n)
    } else if spec_type_is(p, "AssignmentPattern"@) {
        member_binds(p, RawField::Left, n)
    } else if spec_type_is(p, "ArrayPattern"@) {
        match spec_field(p, RawField::Elements.spec_key()@) {
            Some(EstreeValue::Array(items)) => elements_bind(p, items, 0, n),
            _ => false,
        }
    } else if spec_type_is(p, "ObjectPattern"@) {
        match spec_field(p, RawField::Properties.spec_key()@) {
            Some(EstreeValue::Array(items)) => properties_bind(p, items, 0, n),
            _ => false,
        }
    } else {
        false
    }
}

/// Whether the pattern held by the member `key` of `p` binds `n`.
pub open spec fn member_binds(p: EstreeNode, key: RawField, n: Seq<char>) -> bool
    decreases p, 0int, 0int,
{
    match spec_field(p, key.spec_key()@) {
        Some(EstreeValue::Object(child)) => {
            proof {
                lemma_field_object_decreases(&p, key.spec_key()@, child);
            }
            pattern_binds(child, n)
        },
        _ => false,
    }
}

/// Whether one of the element patterns `items[i..]` of the array pattern
/// `p` binds `n`.
pub open spec fn elements_bind(p: EstreeNode, items: Vec<EstreeValue>, i: int, n: Seq<char>) -> bool
    decreases p, 0int, items@.len() - i,
{
    if spec_field(p, RawField::Elements.spec_key()@) == Some(EstreeValue::Array(items)) && 0 <= i < items@.len() {
        (match items@[i] {
            EstreeValue::Object(e) => {
                proof {
                    lemma_field_array_item_decreases(&p, RawField::Elements.spec_key()@, items, i);
                }
                pattern_binds(e, n)
            },
            _ => false,
        }) || elements_bind(p, items, i + 1, n)
    } else {
        false
    }
}

/// Whether one of the properties `items[i..]` of the object pattern `p`
/// binds `n`: the value of a property, or a rest element.
pub open spec fn properties_bind(p: EstreeNode, items: Vec<EstreeValue>, i: int, n: Seq<char>) -> bool
    decreases p, 0int, items@.len() - i,
{
    if spec_field(p, RawField::Properties.spec_key()@) == Some(EstreeValue::Array(items)) && 0 <= i
        < items@.len() {
        (match items@[i] {
            EstreeValue::Object(prop) => {
                proof {
                    lemma_field_array_item_decreases(&p, RawField::Properties.spec_key()@, items, i);
                }
                if spec_type_is(prop, "Property"@) {
                    member_binds(prop, RawField::Value, n)
                } else if spec_type_is(prop, "RestElement"@) {
                    member_binds(prop, RawField::Argument, n)
                } else {
                    false
                }
            },
            _ => false,
        }) || properties_bind(p, items, i + 1, n)
    } else {
        false
    }
}

/// Adds to `out` the names that a binding pattern binds that it does not
/// hold yet, after what it holds.
#[verifier::spinoff_prover]
pub fn collect_binding_names(pattern: &EstreeNode, out: &mut Vec<Vec<char>>)
    ensures
        forall|n: Seq<char>| has_name(final(out)@, n) <==> (has_name(old(out)@, n) || pattern_binds(*pattern, n)),
        final(out)@.len() >= old(out)@.len(),
        final(out)@.subrange(0, old(out)@.len() as int) == old(out)@,
    decreases pattern,
{
    let ghost start = out@;
    if type_is(pattern, "Identifier") {
        if let Some(name) = field_str(pattern, RawField::Name) {
            push_unique(out, name.as_slice());
        }
    } else if type_is(pattern, "RestElement") {
        if let Some(argument) = field_object(pattern, RawField::Argument) {
            proof {
                lemma_field_object_decreases(pattern, RawField::Argument.key()@, *argument);
            }
            collect_binding_names(argument, out);
            proof {
                assert forall|n: Seq<char>| has_name(out@, n) <==> (has_name(start, n) || pattern_binds(*pattern, n)) by {
                    assert(pattern_binds(*pattern, n) == member_binds(*pattern, RawField::Argument, n));
                    assert(member_binds(*pattern, RawField::Argument, n) == pattern_binds(*argument, n));
                    assert(has_name(out@, n) <==> (has_name(start, n) || pattern_binds(*argument, n)));
                }
            }
        }
    } else if type_is(pattern, "AssignmentPattern") {
        if let Some(left) = field_object(pattern, RawField::Left) {
            proof {
                lemma_field_object_decreases(pattern, RawField::Left.key()@, *left);
            }
            collect_binding_names(left, out);
            proof {
                assert forall|n: Seq<char>| has_name(out@, n) <==> (has_name(start, n) || pattern_binds(*pattern, n)) by {
                    assert(pattern_binds(*pattern, n) == member_binds(*pattern, RawField::Left, n));
                    assert(member_binds(*pattern, RawField::Left, n) == pattern_binds(*left, n));
                    assert(has_name(out@, n) <==> (has_name(start, n) || pattern_binds(*left, n)));
                }
            }
        }
    } else if type_is(pattern, "ArrayPattern") {
        if let Some(elements) = field_array(pattern, RawField::Elements) {
            let mut i: usize = 0;
            while i < elements.len()
                invariant
                    i <= elements@.len(),
                    spec_field(*pattern, RawField::Elements.key()@) == Some(EstreeValue::Array(*elements)),
                    forall|n: Seq<char>|
                        (has_name(start, n) || elements_bind(*pattern, *elements, 0, n)) <==> (has_name(out@, n)
                            || elements_bind(*pattern, *elements, i as int, n)),
                    out@.len() >= start.len(),
                    out@.subrange(0, start.len() as int) == start,
                decreases elements.len() - i,
            {
                let ghost before = out@;
                let ghost k = i as int;
                if let EstreeValue::Object(element) = &elements[i] {
                    proof {
                        lemma_field_array_item_decreases(pattern, RawField::Elements.key()@, *elements, i as int);
                    }
                    collect_binding_names(element, out);
                }
                i += 1;
                proof {
                    assert forall|n: Seq<char>|
                        (has_name(start, n) || elements_bind(*pattern, *elements, 0, n)) <==> (has_name(out@, n)
                            || elements_bind(*pattern, *elements, i as int, n)) by {
                        assert(has_name(out@, n) <==> (has_name(before, n) || (match elements@[k] {
                            EstreeValue::Object(e) => pattern_binds(e, n),
                            _ => false,
                        })));
                        assert((has_name(start, n) || elements_bind(*pattern, *elements, 0, n)) <==> (has_name(before, n)
                            || elements_bind(*pattern, *elements, k, n)));
                        assert(elements_bind(*pattern, *elements, k, n) == ((match elements@[k] {
                            EstreeValue::Object(e) => pattern_binds(e, n),
                            _ => false,
                        }) || elements_bind(*pattern, *elements, i as int, n)));
                    }
                    assert(out@.subrange(0, start.len() as int) =~= out@.subrange(0, before.len() as int).subrange(
                        0,
                        start.len() as int,
                    ));
                }
            }
            proof {
                assert forall|n: Seq<char>| has_name(out@, n) <==> (has_name(start, n) || pattern_binds(*pattern, n)) by {
                    assert(!elements_bind(*pattern, *elements, elements@.len() as int, n));
                    assert((has_name(start, n) || elements_bind(*pattern, *elements, 0, n)) <==> (has_name(out@, n)
                        || elements_bind(*pattern, *elements, elements@.len() as int, n)));
                    assert(pattern_binds(*pattern, n) == elements_bind(*pattern, *elements, 0, n));
                }
            }
        }
    } else if type_is(pattern, "ObjectPattern") {
        if let Some(properties) = field_array(pattern, RawField::Properties) {
            let mut i: usize = 0;
            while i < properties.len()
                invariant
                    i <= properties@.len(),
                    spec_field(*pattern, RawField::Properties.key()@) == Some(EstreeValue::Array(*properties)),
                    forall|n: Seq<char>|
                        (has_name(start, n) || properties_bind(*pattern, *properties, 0, n)) <==> (has_name(out@, n)
                            || properties_bind(*pattern, *properties, i as int, n)),
                    out@.len() >= start.len(),
                    out@.subrange(0, start.len() as int) == start,
                decreases properties.len() - i,
            {
                let ghost before = out@;
                let ghost k = i as int;
                if let EstreeValue::Object(property) = &properties[i] {
                    proof {
                        lemma_field_array_item_decreases(pattern, RawField::Properties.key()@, *properties, i as int);
                    }
                    if type_is(property, "Property") {
                        if let Some(value) = field_object(property, RawField::Value) {
                            proof {
                                lemma_field_object_decreases(property, RawField::Value.key()@, *value);
                            }
                            collect_binding_names(value, out);
                        }
                    } else if type_is(property, "RestElement") {
                        if let Some(argument) = field_object(property, RawField::Argument) {
                            proof {
                                lemma_field_object_decreases(property, RawField::Argument.key()@, *argument);
                            }
                            collect_binding_names(argument, out);
                        }
                    }
                    proof {
                        assert forall|n: Seq<char>|
                            has_name(out@, n) <==> (has_name(before, n) || (if spec_type_is(*property, "Property"@) {
                                member_binds(*property, RawField::Value, n)
                            } else if spec_type_is(*property, "RestElement"@) {
                                member_binds(*property, RawField::Argument, n)
                            } else {
                                false
                            })) by {
                            if spec_type_is(*property, "Property"@) {
                                assert(member_binds(*property, RawField::Value, n) == match spec_field(
                                    *property,
                                    RawField::Value.spec_key()@,
                                ) {
                                    Some(EstreeValue::Object(child)) => pattern_binds(child, n),
                                    _ => false,
                                });
                            } else if spec_type_is(*property, "RestElement"@) {
                                assert(member_binds(*property, RawField::Argument, n) == match spec_field(
                                    *property,
                                    RawField::Argument.spec_key()@,
                                ) {
                                    Some(EstreeValue::Object(child)) => pattern_binds(child, n),
                                    _ => false,
                                });
                            }
                        }
                    }
                }
                i += 1;
                proof {
                    assert forall|n: Seq<char>|
                        (has_name(start, n) || properties_bind(*pattern, *properties, 0, n)) <==> (has_name(out@, n)
                            || properties_bind(*pattern, *properties, i as int, n)) by {
                        assert((has_name(start, n) || properties_bind(*pattern, *properties, 0, n)) <==> (has_name(
                            before,
                            n,
                        ) || properties_bind(*pattern, *properties, k, n)));
                        assert(has_name(out@, n) <==> (has_name(before, n) || (match properties@[k] {
                            EstreeValue::Object(prop) => if spec_type_is(prop, "Property"@) {
                                member_binds(prop, RawField::Value, n)
                            } else if spec_type_is(prop, "RestElement"@) {
                                member_binds(prop, RawField::Argument, n)
                            } else {
                                false
                            },
                            _ => false,
                        })));
                        assert(properties_bind(*pattern, *properties, k, n) == ((match properties@[k] {
                            EstreeValue::Object(prop) => if spec_type_is(prop, "Property"@) {
                                member_binds(prop, RawField::Value, n)
                            } else if spec_type_is(prop, "RestElement"@) {
                                member_binds(prop, RawField::Argument, n)
                            } else {
                                false
                            },
                            _ => false,
                        }) || properties_bind(*pattern, *properties, i as int, n)));
                    }
                    assert(out@.subrange(0, start.len() as int) =~= out@.subrange(0, before.len() as int).subrange(
                        0,
                        start.len() as int,
                    ));
                }
            }
            proof {
                assert forall|n: Seq<char>| has_name(out@, n) <==> (has_name(start, n) || pattern_binds(*pattern, n)) by {
                    assert(!properties_bind(*pattern, *properties, properties@.len() as int, n));
                    assert((has_name(start, n) || properties_bind(*pattern, *properties, 0, n)) <==> (has_name(out@, n)
                        || properties_bind(*pattern, *properties, properties@.len() as int, n)));
                    assert(pattern_binds(*pattern, n) == properties_bind(*pattern, *properties, 0, n));
                }
            }
        }
    }
}

/// The name of an identifier node.
pub open spec fn spec_identifier(node: EstreeNode) -> Option<Seq<char>> {
    if spec_type_is(node, "Identifier"@) {
        match spec_field(node, "name"@) {
            Some(EstreeValue::String(s)) => Some(s@),
            _ => None,
        }
    } else {
        None
    }
}

/// Whether the tree at `node` holds an identifier named by one of `names`
/// (never, when `names` is empty).
pub open spec fn mentions_node(node: EstreeNode, names: Seq<Vec<char>>) -> bool
    decreases node, 1int, 0int,
{
    names.len() > 0 && ((spec_identifier(node) matches Some(n) && has_name(names, n)) || mentions_fields(
        node,
        0,
        names,
    ))
}

/// Whether the members `node.fields[i..]` hold an identifier named by one of `names`.
pub open spec fn mentions_fields(node: EstreeNode, i: int, names: Seq<Vec<char>>) -> bool
    decreases node, 0int, node.fields@.len() - i,
{
    if 0 <= i < node.fields@.len() {
        proof {
            assert(decreases_to!(node => node.fields));
            assert(decreases_to!(node.fields => node.fields@));
            assert(decreases_to!(node.fields@ => node.fields@[i]));
            assert(decreases_to!(node.fields@[i] => node.fields@[i].value));
        }
        mentions_value(node.fields@[i].value, names) || mentions_fields(node, i + 1, names)
    } else {
        false
    }
}

/// Whether a member value holds an identifier named by one of `names`.
pub open spec fn mentions_value(v: EstreeValue, names: Seq<Vec<char>>) -> bool
    decreases v, 1int, 0int,
{
    match v {
        EstreeValue::Object(o) => mentions_node(o, names),
        EstreeValue::Array(_) => mentions_items(v, 0, names),
        _ => false,
    }
}

/// Whether the items `[i..]` of an array value hold such an identifier.
pub open spec fn mentions_items(v: EstreeValue, i: int, names: Seq<Vec<char>>) -> bool
    decreases v, 0int, (match v {
        EstreeValue::Array(items) => items@.len() as int,
        _ => 0int,
    }) - i,
{
    match v {
        EstreeValue::Array(items) => if 0 <= i < items@.len() {
            proof {
                assert(decreases_to!(v => v->Array_0));
                assert(decreases_to!(items => items@));
                assert(decreases_to!(items@ => items@[i]));
            }
            mentions_value(items@[i], names) || mentions_items(v, i + 1, names)
        } else {
            false
        },
        _ => false,
    }
}

/// Whether the tree at `node` holds an identifier named by one of `names`.
pub fn mentions_any_name(node: &EstreeNode, names: &Vec<Vec<char>>) -> (r: bool)
    ensures
        names@.len() == 0 ==> !r,
        r == mentions_node(*node, names@),
    decreases node, 1nat,
{
    if names.len() == 0 {
        return false;
    }
    if let Some(name) = identifier_name(node) {
        if contains_name(names, name.as_slice()) {
            return true;
        }
    }
    let mut i: usize = 0;
    while i < node.fields.len()
        invariant
            i <= node.fields@.len(),
            names@.len() > 0,
            !(spec_identifier(*node) matches Some(n) && has_name(names@, n)),
            mentions_fields(*node, 0, names@) == mentions_fields(*node, i as int, names@),
        decreases node.fields.len() - i,
    {
        proof {
            assert(decreases_to!(*node => node.fields));
            assert(decreases_to!(node.fields => node.fields@));
            assert(decreases_to!(node.fields@ => node.fields@[i as int]));
            assert(decreases_to!(node.fields@[i as int] => node.fields@[i as int].value));
        }
        if value_mentions_any_name(&node.fields[i].value, names) {
            return true;
        }
        i += 1;
    }
    false
}

/// Whether a member value holds an identifier named by one of `names`.
fn value_mentions_any_name(value: &EstreeValue, names: &Vec<Vec<char>>) -> (r: bool)
    ensures
        r == mentions_value(*value, names@),
    decreases value, 0nat,
{
    match value {
        EstreeValue::Object(node) => mentions_any_name(node, names),
        EstreeValue::Array(items) => {
            let mut i: usize = 0;
            while i < items.len()
                invariant
                    i <= items@.len(),
                    *value == EstreeValue::Array(*items),
                    mentions_items(*value, 0, names@) == mentions_items(*value, i as int, names@),
                decreases items.len() - i,
            {
                proof {
                    assert(decreases_to!(*value => value->Array_0));
                    assert(decreases_to!(*items => items@));
                    assert(decreases_to!(items@ => items@[i as int]));
                }
                if value_mentions_any_name(&items[i], names) {
                    return true;
                }
                i += 1;
            }
            false
        },
        _ => false,
    }
}

/// A range as whole numbers.
pub open spec fn int_span(r: Option<(usize, usize)>) -> Option<(int, int)> {
    match r {
        Some((s, e)) => Some((s as int, e as int)),
        None => None,
    }
}

/// The first of two optional values that is there.
pub open spec fn first_of<T>(a: Option<T>, b: Option<T>) -> Option<T> {
    if a is Some {
        a
    } else {
        b
    }
}

/// The range of `target` if it is an identifier named by one of `names`
/// (else of `node`, if `target` has no range).
pub open spec fn spec_assigned_span(node: EstreeNode, target: EstreeNode, names: Seq<Vec<char>>) -> Option<(int, int)> {
    match spec_identifier(target) {
        Some(n) => if has_name(names, n) {
            match spec_estree_span(target) {
                Some(x) => Some(x),
                None => spec_estree_span(node),
            }
        } else {
            None
        },
        None => None,
    }
}

/// The range of `target` if it is an identifier named by one of `names`
/// (else of `node`, if `target` has no range).
fn assigned_name_span(node: &EstreeNode, target: &EstreeNode, names: &Vec<Vec<char>>) -> (r: Option<(usize, usize)>)
    ensures
        int_span(r) == spec_assigned_span(*node, *target, names@),
{
    match identifier_name(target) {
        Some(name) => {
            if !contains_name(names, name.as_slice()) {
                return None;
            }
            match node_span(target) {
                Some(span) => Some(span),
                None => node_span(node),
            }
        },
        None => None,
    }
}

/// The assignment at a node itself: its target, if an identifier named by one of `names`.
pub open spec fn own_assignment(node: EstreeNode, names: Seq<Vec<char>>) -> Option<(int, int)> {
    if spec_type_is(node, "AssignmentExpression"@) {
        match spec_field(node, RawField::Left.spec_key()@) {
            Some(EstreeValue::Object(l)) => spec_assigned_span(node, l, names),
            _ => None,
        }
    } else if spec_type_is(node, "UpdateExpression"@) {
        match spec_field(node, RawField::Argument.spec_key()@) {
            Some(EstreeValue::Object(a)) => spec_assigned_span(node, a, names),
            _ => None,
        }
    } else {
        None
    }
}

/// The range of the first assignment or update, in pre-order, of the tree
/// at `node` whose target is an identifier named by one of `names`.
pub open spec fn assign_in_node(node: EstreeNode, names: Seq<Vec<char>>) -> Option<(int, int)>
    decreases node, 1int, 0int,
{
    first_of(own_assignment(node, names), assign_in_fields(node, 0, names))
}

/// The first such assignment inside the members `node.fields[i..]`.
pub open spec fn assign_in_fields(node: EstreeNode, i: int, names: Seq<Vec<char>>) -> Option<(int, int)>
    decreases node, 0int, node.fields@.len() - i,
{
    if 0 <= i < node.fields@.len() {
        proof {
            assert(decreases_to!(node => node.fields));
            assert(decreases_to!(node.fields => node.fields@));
            assert(decreases_to!(node.fields@ => node.fields@[i]));
            assert(decreases_to!(node.fields@[i] => node.fields@[i].value));
        }
        first_of(assign_in_value(node.fields@[i].value, names), assign_in_fields(node, i + 1, names))
    } else {
        None
    }
}

/// The first such assignment inside a member value.
pub open spec fn assign_in_value(v: EstreeValue, names: Seq<Vec<char>>) -> Option<(int, int)>
    decreases v, 1int, 0int,
{
    match v {
        EstreeValue::Object(o) => assign_in_node(o, names),
        EstreeValue::Array(_) => assign_in_items(v, 0, names),
        _ => None,
    }
}

/// The first such assignment inside the items `[i..]` of an array value.
pub open spec fn assign_in_items(v: EstreeValue, i: int, names: Seq<Vec<char>>) -> Option<(int, int)>
    decreases v, 0int, (match v {
        EstreeValue::Array(items) => items@.len() as int,
        _ => 0int,
    }) - i,
{
    match v {
        EstreeValue::Array(items) => if 0 <= i < items@.len() {
            proof {
                assert(decreases_to!(v => v->Array_0));
                assert(decreases_to!(items => items@));
                assert(decreases_to!(items@ => items@[i]));
            }
            first_of(assign_in_value(items@[i], names), assign_in_items(v, i + 1, names))
        } else {
            None
        },
        _ => None,
    }
}

/// Whether two lists hold the same names.
pub open spec fn same_names(a: Seq<Vec<char>>, b: Seq<Vec<char>>) -> bool {
    forall|n: Seq<char>| #![trigger has_name(a, n)] #![trigger has_name(b, n)] has_name(a, n) <==> has_name(b, n)
}

/// The first assignment to one of the names of a list depends on the names
/// the list holds, not on their order or repetition.
pub proof fn lemma_assign_in_node_names(node: EstreeNode, a: Seq<Vec<char>>, b: Seq<Vec<char>>)
    requires
        same_names(a, b),
    ensures
        assign_in_node(node, a) == assign_in_node(node, b),
    decreases node, 1int, 0int,
{
    lemma_assign_in_fields_names(node, 0, a, b);
}

/// `assign_in_fields` depends on the names a list holds only.
pub proof fn lemma_assign_in_fields_names(node: EstreeNode, i: int, a: Seq<Vec<char>>, b: Seq<Vec<char>>)
    requires
        same_names(a, b),
    ensures
        assign_in_fields(node, i, a) == assign_in_fields(node, i, b),
    decreases node, 0int, node.fields@.len() - i,
{
    if 0 <= i < node.fields@.len() {
        assert(decreases_to!(node => node.fields));
        assert(decreases_to!(node.fields => node.fields@));
        assert(decreases_to!(node.fields@ => node.fields@[i]));
        assert(decreases_to!(node.fields@[i] => node.fields@[i].value));
        lemma_assign_in_value_names(node.fields@[i].value, a, b);
        lemma_assign_in_fields_names(node, i + 1, a, b);
    }
}

/// `assign_in_value` depends on the names a list holds only.
pub proof fn lemma_assign_in_value_names(v: EstreeValue, a: Seq<Vec<char>>, b: Seq<Vec<char>>)
    requires
        same_names(a, b),
    ensures
        assign_in_value(v, a) == assign_in_value(v, b),
    decreases v, 1int, 0int,
{
    match v {
        EstreeValue::Object(o) => {
            assert(decreases_to!(v => v->Object_0));
            lemma_assign_in_node_names(o, a, b);
        },
        EstreeValue::Array(_) => {
            lemma_assign_in_items_names(v, 0, a, b);
        },
        _ => {},
    }
}

/// `assign_in_items` depends on the names a list holds only.
pub proof fn lemma_assign_in_items_names(v: EstreeValue, i: int, a: Seq<Vec<char>>, b: Seq<Vec<char>>)
    requires
        same_names(a, b),
    ensures
        assign_in_items(v, i, a) == assign_in_items(v, i, b),
    decreases v, 0int, (match v {
        EstreeValue::Array(items) => items@.len() as int,
        _ => 0int,
    }) - i,
{
    match v {
        EstreeValue::Array(items) => if 0 <= i < items@.len() {
            assert(decreases_to!(v => v->Array_0));
            assert(decreases_to!(items => items@));
            assert(decreases_to!(items@ => items@[i]));
            lemma_assign_in_value_names(items@[i], a, b);
            lemma_assign_in_items_names(v, i + 1, a, b);
        },
        _ => {},
    }
}

/// The range of the first assignment or update, in pre-order, whose target
/// is an identifier named by one of `names`.
pub fn assignment_to_names(node: &EstreeNode, names: &Vec<Vec<char>>) -> (r: Option<(usize, usize)>)
    ensures
        int_span(r) == assign_in_node(*node, names@),
    decreases node, 1nat,
{
    if type_is(node, "AssignmentExpression") {
        if let Some(left) = field_object(node, RawField::Left) {
            if let Some(span) = assigned_name_span(node, left, names) {
                return Some(span);
            }
        }
    } else if type_is(node, "UpdateExpression") {
        if let Some(argument) = field_object(node, RawField::Argument) {
            if let Some(span) = assigned_name_span(node, argument, names) {
                return Some(span);
            }
        }
    }
    let mut i: usize = 0;
    while i < node.fields.len()
        invariant
            i <= node.fields@.len(),
            own_assignment(*node, names@) is None,
            assign_in_fields(*node, 0, names@) == assign_in_fields(*node, i as int, names@),
        decreases node.fields.len() - i,
    {
        proof {
            assert(decreases_to!(*node => node.fields));
            assert(decreases_to!(node.fields => node.fields@));
            assert(decreases_to!(node.fields@ => node.fields@[i as int]));
            assert(decreases_to!(node.fields@[i as int] => node.fields@[i as int].value));
        }
        if let Some(span) = value_assignment_to_names(&node.fields[i].value, names) {
            return Some(span);
        }
        i += 1;
    }
    None
}

/// The first assignment to one of `names` inside a member value.
fn value_assignment_to_names(value: &EstreeValue, names: &Vec<Vec<char>>) -> (r: Option<(usize, usize)>)
    ensures
        int_span(r) == assign_in_value(*value, names@),
    decreases value, 0nat,
{
    match value {
        EstreeValue::Object(node) => assignment_to_names(node, names),
        EstreeValue::Array(items) => {
            let mut i: usize = 0;
            while i < items.len()
                invariant
                    i <= items@.len(),
                    *value == EstreeValue::Array(*items),
                    assign_in_items(*value, 0, names@) == assign_in_items(*value, i as int, names@),
                decreases items.len() - i,
            {
                proof {
                    assert(decreases_to!(*value => value->Array_0));
                    assert(decreases_to!(*items => items@));
                    assert(decreases_to!(items@ => items@[i as int]));
                }
                if let Some(span) = value_assignment_to_names(&items[i], names) {
                    return Some(span);
                }
                i += 1;
            }
            None
        },
        _ => None,
    }
}

} // verus!
