//! Checks of `{@const}` tags: their placement, their expression, duplicate
//! and cyclic declarations, runes in their initializer, and references from
//! snippets that cannot see them.
use vstd::prelude::*;

use crate::ast::{
    Alternate, Attribute, AttributeValue, AttributeValueList, ConstTag, Expression, Fragment, Node, Root,
};
use crate::bindings::{collect_binding_names, contains_name, first_index_from, has_name, names_set, names_view, push_unique};
use crate::deps::{
    collect_reactive_dependencies, cycle_message, first_cycle, is_ignored_identifier_context,
    is_simple_assignment_target, is_type_identifier_context, path_has_function_scope, DependencyGraph,
};
use crate::diagnostics::{compile_error_custom, compile_error_with_range, option_error_view, CompileError, CompilerDiagnosticKind, ErrorView};
use crate::estree::{
    field_array, field_object, field_str, flat_of_node, flatten, lemma_field_array_item_decreases, lemma_field_object_decreases,
    node_span, parents_precede, spec_estree_span, spec_field, spec_type_is, type_is, EstreeNode, EstreeValue, RawField,
};
use crate::reactive::copy_names;
use crate::template::{is_blank, message3};
use crate::text::{chars_of, push_chars, push_str, text_is};

verus! {

/// Adds every name of `src` to `dst`.
pub fn extend_names(dst: &mut Vec<Vec<char>>, src: &Vec<Vec<char>>)
    ensures
        forall|n: Seq<char>| crate::bindings::has_name(old(dst)@, n) ==> crate::bindings::has_name(final(dst)@, n),
        names_set(final(dst)@) == names_set(old(dst)@).union(names_set(src@)),
{
    let mut i: usize = 0;
    while i < src.len()
        invariant
            i <= src@.len(),
            forall|n: Seq<char>| crate::bindings::has_name(old(dst)@, n) ==> crate::bindings::has_name(dst@, n),
            names_set(dst@) == names_set(old(dst)@).union(names_set(src@.subrange(0, i as int))),
        decreases src.len() - i,
    {
        let ghost before = dst@;
        push_unique(dst, src[i].as_slice());
        proof {
            let k = i as int;
            assert forall|n: Seq<char>|
                names_set(src@.subrange(0, k + 1)).contains(n) == names_set(src@.subrange(0, k)).insert(src@[k]@).contains(
                    n,
                ) by {
                let a = src@.subrange(0, k + 1);
                let b = src@.subrange(0, k);
                if has_name(a, n) {
                    let j = choose|j: int| 0 <= j < a.len() && (#[trigger] a[j])@ == n;
                    if j < k {
                        assert(b[j] == a[j]);
                    }
                }
                if has_name(b, n) {
                    let j = choose|j: int| 0 <= j < b.len() && (#[trigger] b[j])@ == n;
                    assert(a[j] == b[j]);
                }
                if n == src@[k]@ {
                    assert(a[k] == src@[k]);
                }
            }
            assert(names_set(dst@) =~= names_set(before).insert(src@[k]@));
            assert(names_set(src@.subrange(0, k + 1)) =~= names_set(src@.subrange(0, k)).insert(src@[k]@));
            assert(names_set(dst@) =~= names_set(old(dst)@).union(names_set(src@.subrange(0, k + 1))));
        }
        i += 1;
    }
    proof {
        assert(src@.subrange(0, src@.len() as int) =~= src@);
    }
}

/// A declared name and its range, as plain values.
pub type SpanView = (Seq<char>, usize, usize);

/// Declared names with their ranges, as plain values.
pub open spec fn spans_view(v: Seq<(Vec<char>, usize, usize)>) -> Seq<SpanView> {
    v.map_values(|e: (Vec<char>, usize, usize)| (e.0@, e.1, e.2))
}

/// The identifiers a binding pattern declares, with their ranges, in order
/// (an identifier without a name or a range declares none).
pub open spec fn pattern_spans(p: EstreeNode) -> Seq<SpanView>
    decreases p, 1int, 0int,
{
    if spec_type_is(p, "Identifier"@) {
        match (spec_field(p, RawField::Name.spec_key()@), spec_estree_span(p)) {
            (Some(EstreeValue::String(n)), Some((a, b))) => seq![(n@, a as usize, b as usize)],
            _ => Seq::empty(),
        }
    } else if spec_type_is(p, "RestElement"@) || spec_type_is(p, "AssignmentPattern"@) {
        member_spans(
            p,
            if spec_type_is(p, "RestElement"@) {
                RawField::Argument
            } else {
                RawField::Left
            },
        )
    } else if spec_type_is(p, "ArrayPattern"@) {
        match spec_field(p, RawField::Elements.spec_key()@) {
            Some(EstreeValue::Array(items)) => element_spans(p, items, 0),
            _ => Seq::empty(),
        }
    } else if spec_type_is(p, "ObjectPattern"@) {
        match spec_field(p, RawField::Properties.spec_key()@) {
            Some(EstreeValue::Array(items)) => property_spans(p, items, 0),
            _ => Seq::empty(),
        }
    } else {
        Seq::empty()
    }
}

/// The declared identifiers of the pattern the member `key` of `p` holds.
pub open spec fn member_spans(p: EstreeNode, key: RawField) -> Seq<SpanView>
    decreases p, 0int, 0int,
{
    match spec_field(p, key.spec_key()@) {
        Some(EstreeValue::Object(child)) => {
            proof {
                lemma_field_object_decreases(&p, key.spec_key()@, child);
            }
            pattern_spans(child)
        },
        _ => Seq::empty(),
    }
}

/// The declared identifiers of the element patterns `items[i..]` of `p`.
pub open spec fn element_spans(p: EstreeNode, items: Vec<EstreeValue>, i: int) -> Seq<SpanView>
    decreases p, 0int, items@.len() - i,
{
    if spec_field(p, RawField::Elements.spec_key()@) == Some(EstreeValue::Array(items)) && 0 <= i < items@.len() {
        (match items@[i] {
            EstreeValue::Object(e) => {
                proof {
                    lemma_field_array_item_decreases(&p, RawField::Elements.spec_key()@, items, i);
                }
                pattern_spans(e)
            },
            _ => Seq::empty(),
        }) + element_spans(p, items, i + 1)
    } else {
        Seq::empty()
    }
}

/// The declared identifiers of the properties `items[i..]` of `p`.
pub open spec fn property_spans(p: EstreeNode, items: Vec<EstreeValue>, i: int) -> Seq<SpanView>
    decreases p, 0int, items@.len() - i,
{
    if spec_field(p, RawField::Properties.spec_key()@) == Some(EstreeValue::Array(items)) && 0 <= i < items@.len() {
        (match items@[i] {
            EstreeValue::Object(prop) => {
                proof {
                    lemma_field_array_item_decreases(&p, RawField::Properties.spec_key()@, items, i);
                }
                if spec_type_is(prop, "Property"@) {
                    member_spans(prop, RawField::Value)
                } else if spec_type_is(prop, "RestElement"@) {
                    member_spans(prop, RawField::Argument)
                } else {
                    Seq::empty()
                }
            },
            _ => Seq::empty(),
        }) + property_spans(p, items, i + 1)
    } else {
        Seq::empty()
    }
}

/// Adds to `out` each identifier a binding pattern declares, with its range.
pub fn collect_binding_spans(pattern: &EstreeNode, out: &mut Vec<(Vec<char>, usize, usize)>)
    ensures
        spans_view(final(out)@) == spans_view(old(out)@) + pattern_spans(*pattern),
    decreases pattern,
{
    let ghost start = spans_view(out@);
    if type_is(pattern, "Identifier") {
        if let Some(name) = field_str(pattern, RawField::Name) {
            if let Some((s, e)) = node_span(pattern) {
                out.push((crate::text::copy_chars(name.as_slice()), s, e));
            }
        }
        proof {
            assert(spans_view(out@) =~= start + pattern_spans(*pattern));
        }
    } else if type_is(pattern, "RestElement") || type_is(pattern, "AssignmentPattern") {
        let key = if type_is(pattern, "RestElement") { RawField::Argument } else { RawField::Left };
        if let Some(inner) = field_object(pattern, key) {
            proof {
                lemma_field_object_decreases(pattern, key.key()@, *inner);
            }
            collect_binding_spans(inner, out);
        }
        proof {
            assert(spans_view(out@) =~= start + pattern_spans(*pattern));
        }
    } else if type_is(pattern, "ArrayPattern") {
        if let Some(elements) = field_array(pattern, RawField::Elements) {
            let mut i: usize = 0;
            while i < elements.len()
                invariant
                    i <= elements@.len(),
                    crate::estree::spec_field(*pattern, RawField::Elements.key()@) == Some(EstreeValue::Array(*elements)),
                    spans_view(out@) + element_spans(*pattern, *elements, i as int) == start + element_spans(
                        *pattern,
                        *elements,
                        0,
                    ),
                decreases elements.len() - i,
            {
                let ghost before = spans_view(out@);
                let ghost k = i as int;
                if let EstreeValue::Object(element) = &elements[i] {
                    proof {
                        lemma_field_array_item_decreases(pattern, RawField::Elements.key()@, *elements, i as int);
                    }
                    collect_binding_spans(element, out);
                }
                i += 1;
                proof {
                    let item = match elements@[k] {
                        EstreeValue::Object(e) => pattern_spans(e),
                        _ => Seq::empty(),
                    };
                    assert(element_spans(*pattern, *elements, k) == item + element_spans(*pattern, *elements, k + 1));
                    assert(spans_view(out@) =~= before + item);
                    assert(spans_view(out@) + element_spans(*pattern, *elements, k + 1) =~= before + element_spans(
                        *pattern,
                        *elements,
                        k,
                    ));
                }
            }
            proof {
                assert(element_spans(*pattern, *elements, elements@.len() as int) =~= Seq::<SpanView>::empty());
                assert(spans_view(out@) =~= start + pattern_spans(*pattern));
            }
        } else {
            proof {
                assert(spans_view(out@) =~= start + pattern_spans(*pattern));
            }
        }
    } else if type_is(pattern, "ObjectPattern") {
        if let Some(properties) = field_array(pattern, RawField::Properties) {
            let mut i: usize = 0;
            while i < properties.len()
                invariant
                    i <= properties@.len(),
                    crate::estree::spec_field(*pattern, RawField::Properties.key()@) == Some(
                        EstreeValue::Array(*properties),
                    ),
                    spans_view(out@) + property_spans(*pattern, *properties, i as int) == start + property_spans(
                        *pattern,
                        *properties,
                        0,
                    ),
                decreases properties.len() - i,
            {
                let ghost before = spans_view(out@);
                let ghost k = i as int;
                if let EstreeValue::Object(property) = &properties[i] {
                    proof {
                        lemma_field_array_item_decreases(pattern, RawField::Properties.key()@, *properties, i as int);
                    }
                    let key = if type_is(property, "Property") {
                        Some(RawField::Value)
                    } else if type_is(property, "RestElement") {
                        Some(RawField::Argument)
                    } else {
                        None
                    };
                    if let Some(kk) = key {
                        if let Some(inner) = field_object(property, kk) {
                            proof {
                                lemma_field_object_decreases(property, kk.key()@, *inner);
                            }
                            collect_binding_spans(inner, out);
                        }
                    }
                }
                i += 1;
                proof {
                    let item = match properties@[k] {
                        EstreeValue::Object(prop) => if spec_type_is(prop, "Property"@) {
                            member_spans(prop, RawField::Value)
                        } else if spec_type_is(prop, "RestElement"@) {
                            member_spans(prop, RawField::Argument)
                        } else {
                            Seq::empty()
                        },
                        _ => Seq::empty(),
                    };
                    assert(property_spans(*pattern, *properties, k) == item + property_spans(*pattern, *properties, k + 1));
                    assert(spans_view(out@) =~= before + item);
                    assert(spans_view(out@) + property_spans(*pattern, *properties, k + 1) =~= before + property_spans(
                        *pattern,
                        *properties,
                        k,
                    ));
                }
            }
            proof {
                assert(property_spans(*pattern, *properties, properties@.len() as int) =~= Seq::<SpanView>::empty());
                assert(spans_view(out@) =~= start + pattern_spans(*pattern));
            }
        } else {
            proof {
                assert(spans_view(out@) =~= start + pattern_spans(*pattern));
            }
        }
    } else {
        proof {
            assert(spans_view(out@) =~= start + pattern_spans(*pattern));
        }
    }
}

/// The declared identifiers of the declarators `ds[i..]`, by their `id` patterns.
pub open spec fn declarator_spans(ds: Seq<EstreeValue>, i: int) -> Seq<SpanView>
    decreases ds.len() - i,
{
    if 0 <= i < ds.len() {
        (match ds[i] {
            EstreeValue::Object(d) => match spec_object_field(d, RawField::Id.spec_key()@) {
                Some(id) => pattern_spans(id),
                None => Seq::empty(),
            },
            _ => Seq::empty(),
        }) + declarator_spans(ds, i + 1)
    } else {
        Seq::empty()
    }
}

/// The identifiers a `{@const}` tag declares, with their ranges.
pub open spec fn spec_declared_spans(tag: ConstTag) -> Seq<SpanView> {
    let raw = tag.declaration.0;
    if spec_type_is(raw, "AssignmentExpression"@) {
        match spec_object_field(raw, RawField::Left.spec_key()@) {
            Some(left) => pattern_spans(left),
            None => Seq::empty(),
        }
    } else if spec_type_is(raw, "VariableDeclaration"@) {
        match spec_field(raw, RawField::Declarations.spec_key()@) {
            Some(EstreeValue::Array(ds)) => declarator_spans(ds@, 0),
            _ => Seq::empty(),
        }
    } else {
        Seq::empty()
    }
}

/// The identifiers a `{@const}` tag declares, with their ranges.
pub fn const_tag_declared_bindings(tag: &ConstTag) -> (r: Vec<(Vec<char>, usize, usize)>)
    ensures
        spans_view(r@) == spec_declared_spans(*tag),
{
    let mut out: Vec<(Vec<char>, usize, usize)> = Vec::new();
    proof {
        assert(spans_view(out@) =~= Seq::<SpanView>::empty());
    }
    let raw = &tag.declaration.0;
    if type_is(raw, "AssignmentExpression") {
        if let Some(left) = field_object(raw, RawField::Left) {
            collect_binding_spans(left, &mut out);
            proof {
                assert(spans_view(out@) =~= pattern_spans(*left));
            }
        }
    } else if type_is(raw, "VariableDeclaration") {
        if let Some(declarations) = field_array(raw, RawField::Declarations) {
            let mut i: usize = 0;
            while i < declarations.len()
                invariant
                    i <= declarations@.len(),
                    spans_view(out@) + declarator_spans(declarations@, i as int) == declarator_spans(declarations@, 0),
                decreases declarations.len() - i,
            {
                let ghost before = spans_view(out@);
                let ghost k = i as int;
                if let EstreeValue::Object(declaration) = &declarations[i] {
                    if let Some(id) = field_object(declaration, RawField::Id) {
                        collect_binding_spans(id, &mut out);
                    }
                }
                i += 1;
                proof {
                    let item = match declarations@[k] {
                        EstreeValue::Object(d) => match spec_object_field(d, RawField::Id.spec_key()@) {
                            Some(id) => pattern_spans(id),
                            None => Seq::empty(),
                        },
                        _ => Seq::empty(),
                    };
                    assert(declarator_spans(declarations@, k) == item + declarator_spans(declarations@, k + 1));
                    assert(spans_view(out@) =~= before + item);
                    assert(spans_view(out@) + declarator_spans(declarations@, k + 1) =~= before + declarator_spans(
                        declarations@,
                        k,
                    ));
                }
            }
            proof {
                assert(declarator_spans(declarations@, declarations@.len() as int) =~= Seq::<SpanView>::empty());
                assert(spans_view(out@) =~= declarator_spans(declarations@, 0));
            }
        }
    }
    out
}

/// Whether one of `bindings[..i]` is named `n`.
pub open spec fn binding_named(bindings: Seq<(Vec<char>, usize, usize)>, i: int, n: Seq<char>) -> bool {
    exists|k: int| 0 <= k < i && (#[trigger] bindings[k]).0@ == n
}

/// The names of `bindings`.
fn binding_names(bindings: &Vec<(Vec<char>, usize, usize)>) -> (names: Vec<Vec<char>>)
    ensures
        forall|n: Seq<char>| has_name(names@, n) <==> binding_named(bindings@, bindings@.len() as int, n),
{
    let mut names: Vec<Vec<char>> = Vec::new();
    let mut i: usize = 0;
    while i < bindings.len()
        invariant
            i <= bindings@.len(),
            forall|n: Seq<char>| has_name(names@, n) <==> binding_named(bindings@, i as int, n),
        decreases bindings.len() - i,
    {
        let ghost k = i as int;
        push_unique(&mut names, bindings[i].0.as_slice());
        proof {
            assert forall|n: Seq<char>| has_name(names@, n) <==> binding_named(bindings@, k + 1, n) by {
                if binding_named(bindings@, k + 1, n) {
                    let j = choose|j: int| 0 <= j < k + 1 && (#[trigger] bindings@[j]).0@ == n;
                    if j < k {
                        assert(binding_named(bindings@, k, n));
                    }
                }
                if n == bindings@[k].0@ {
                    assert(bindings@[k].0@ == n);
                }
            }
        }
        i += 1;
    }
    names
}

/// The initializer of a `{@const}` tag: the right side of `a = ...`, or the
/// initializer of a declaration with a single declarator.
pub open spec fn spec_const_tag_init(tag: ConstTag) -> Option<EstreeNode> {
    let raw = tag.declaration.0;
    if spec_type_is(raw, "AssignmentExpression"@) {
        spec_object_field(raw, RawField::Right.spec_key()@)
    } else if spec_type_is(raw, "VariableDeclaration"@) {
        match spec_field(raw, RawField::Declarations.spec_key()@) {
            Some(EstreeValue::Array(ds)) => if ds@.len() == 1 {
                match ds@[0] {
                    EstreeValue::Object(d) => spec_object_field(d, RawField::Init.spec_key()@),
                    _ => None,
                }
            } else {
                None
            },
            _ => None,
        }
    } else {
        None
    }
}

/// The initializer of a `{@const}` tag: the right side of `a = ...`, or the
/// initializer of a declaration with a single declarator.
pub fn const_tag_init(tag: &ConstTag) -> (r: Option<&EstreeNode>)
    ensures
        crate::estree::deref_node(r) == spec_const_tag_init(*tag),
{
    let raw = &tag.declaration.0;
    if type_is(raw, "AssignmentExpression") {
        return field_object(raw, RawField::Right);
    }
    if type_is(raw, "VariableDeclaration") {
        return match field_array(raw, RawField::Declarations) {
            Some(declarations) => {
                if declarations.len() == 1 {
                    match &declarations[0] {
                        EstreeValue::Object(d) => field_object(d, RawField::Init),
                        _ => None,
                    }
                } else {
                    None
                }
            },
            None => None,
        };
    }
    None
}

/// `end - 1`, or 0.
fn before_end(end: usize) -> (r: usize)
    ensures
        r == if end > 0 { end - 1 } else { 0int },
{
    if end > 0 { end - 1 } else { 0 }
}

/// The range reported for a `{@const}` whose expression is not a single
/// declaration, such as `{@const a = 1, b = 2}`; a sequence written inside
/// parentheses, as in `{@const a = (1, 2)}`, is no such expression.
pub open spec fn spec_invalid_expression_span(tag: ConstTag) -> Option<(int, int)> {
    let raw = tag.declaration.0;
    let start_of = |n: EstreeNode|
        match spec_estree_span(n) {
            Some((s, _)) => Some(s),
            None => None,
        };
    if spec_type_is(raw, "SequenceExpression"@) {
        match spec_field(raw, RawField::Expressions.spec_key()@) {
            Some(EstreeValue::Array(ex)) => if ex@.len() == 0 {
                None
            } else {
                let end = if tag.end > 0 {
                    tag.end - 1
                } else {
                    0int
                };
                match ex@[0] {
                    EstreeValue::Object(first) => {
                        let start = if spec_type_is(first, "AssignmentExpression"@) {
                            match spec_object_field(first, RawField::Right.spec_key()@) {
                                Some(right) => start_of(right),
                                None => None,
                            }
                        } else {
                            start_of(first)
                        };
                        Some(
                            (
                                match start {
                                    Some(s) => s,
                                    None => tag.start as int,
                                },
                                end,
                            ),
                        )
                    },
                    _ => Some((tag.start as int, end)),
                }
            },
            _ => None,
        }
    } else if spec_type_is(raw, "AssignmentExpression"@) {
        match spec_object_field(raw, RawField::Right.spec_key()@) {
            Some(init) => if spec_type_is(init, "SequenceExpression"@) {
                spec_estree_span(init)
            } else {
                None
            },
            None => None,
        }
    } else if spec_type_is(raw, "VariableDeclaration"@) {
        match spec_field(raw, RawField::Declarations.spec_key()@) {
            Some(EstreeValue::Array(ds)) => if ds@.len() == 1 {
                match ds@[0] {
                    EstreeValue::Object(d) => match spec_object_field(d, RawField::Init.spec_key()@) {
                        Some(init) => if spec_type_is(init, "SequenceExpression"@) && tag.declaration.1.parens == 0 {
                            spec_estree_span(init)
                        } else {
                            None
                        },
                        None => None,
                    },
                    _ => spec_estree_span(raw),
                }
            } else if ds@.len() == 0 {
                None
            } else {
                match ds@[0] {
                    EstreeValue::Object(first) => {
                        let start = match spec_object_field(first, RawField::Init.spec_key()@) {
                            Some(init) => start_of(init),
                            None => None,
                        };
                        let start = match start {
                            Some(s) => Some(s),
                            None => start_of(raw),
                        };
                        match (start, spec_estree_span(raw)) {
                            (Some(s), Some((_, e))) => Some((s, e)),
                            _ => None,
                        }
                    },
                    _ => spec_estree_span(raw),
                }
            },
            _ => None,
        }
    } else {
        spec_estree_span(raw)
    }
}

/// The range reported for a `{@const}` whose expression is not a single
/// declaration.
pub fn const_tag_invalid_expression_span(tag: &ConstTag) -> (r: Option<(usize, usize)>)
    ensures
        crate::bindings::int_span(r) == spec_invalid_expression_span(*tag),
{
    let raw = &tag.declaration.0;
    if type_is(raw, "SequenceExpression") {
        let expressions = match field_array(raw, RawField::Expressions) {
            Some(e) => e,
            None => return None,
        };
        if expressions.len() == 0 {
            return None;
        }
        let end = before_end(tag.end);
        return match &expressions[0] {
            EstreeValue::Object(first) => {
                let start = if type_is(first, "AssignmentExpression") {
                    match field_object(first, RawField::Right) {
                        Some(right) => match node_span(right) {
                            Some((s, _)) => Some(s),
                            None => None,
                        },
                        None => None,
                    }
                } else {
                    match node_span(first) {
                        Some((s, _)) => Some(s),
                        None => None,
                    }
                };
                Some((match start { Some(s) => s, None => tag.start }, end))
            },
            _ => Some((tag.start, end)),
        };
    }
    if type_is(raw, "AssignmentExpression") {
        return match field_object(raw, RawField::Right) {
            Some(init) => if type_is(init, "SequenceExpression") {
                node_span(init)
            } else {
                None
            },
            None => None,
        };
    }
    if type_is(raw, "VariableDeclaration") {
        let declarations = match field_array(raw, RawField::Declarations) {
            Some(d) => d,
            None => return None,
        };
        if declarations.len() == 1 {
            return match &declarations[0] {
                EstreeValue::Object(declaration) => match field_object(declaration, RawField::Init) {
                    Some(init) => if type_is(init, "SequenceExpression") && tag.declaration.1.parens == 0 {
                        node_span(init)
                    } else {
                        None
                    },
                    None => None,
                },
                _ => {
                    if declarations.len() == 0 {
                        None
                    } else {
                        node_span(raw)
                    }
                },
            };
        }
        if declarations.len() == 0 {
            return None;
        }
        return match &declarations[0] {
            EstreeValue::Object(first) => {
                let start = match field_object(first, RawField::Init) {
                    Some(init) => match node_span(init) {
                        Some((s, _)) => Some(s),
                        None => None,
                    },
                    None => None,
                };
                let start = match start {
                    Some(s) => Some(s),
                    None => match node_span(raw) {
                        Some((s, _)) => Some(s),
                        None => None,
                    },
                };
                match (start, node_span(raw)) {
                    (Some(s), Some((_, e))) => Some((s, e)),
                    _ => None,
                }
            },
            _ => node_span(raw),
        };
    }
    node_span(raw)
}

/// The text held by a member of a node, if it holds text.
pub open spec fn spec_str_field(node: EstreeNode, key: Seq<char>) -> Option<Seq<char>> {
    match spec_field(node, key) {
        Some(EstreeValue::String(s)) => Some(s@),
        _ => None,
    }
}

/// The node held by a member of a node, if it holds one.
pub open spec fn spec_object_field(node: EstreeNode, key: Seq<char>) -> Option<EstreeNode> {
    match spec_field(node, key) {
        Some(EstreeValue::Object(o)) => Some(o),
        _ => None,
    }
}

/// The name a callee calls: `f` for an identifier, `a.b` for a member
/// expression whose object and property both carry names.
pub open spec fn spec_callee_name(callee: EstreeNode) -> Option<Seq<char>> {
    if spec_type_is(callee, "Identifier"@) {
        spec_str_field(callee, "name"@)
    } else if spec_type_is(callee, "MemberExpression"@) {
        match (spec_object_field(callee, "object"@), spec_object_field(callee, "property"@)) {
            (Some(o), Some(p)) => match (spec_str_field(o, "name"@), spec_str_field(p, "name"@)) {
                (Some(a), Some(b)) => Some(a + "."@ + b),
                _ => None,
            },
            _ => None,
        }
    } else {
        None
    }
}

/// The name a callee calls: `f` for `f(...)`, `a.b` for `a.b(...)`.
pub fn callee_name(callee: &EstreeNode) -> (r: Option<Vec<char>>)
    ensures
        match r {
            Some(n) => spec_callee_name(*callee) == Some(n@),
            None => spec_callee_name(*callee) is None,
        },
{
    if type_is(callee, "Identifier") {
        return match field_str(callee, RawField::Name) {
            Some(n) => Some(crate::text::copy_chars(n.as_slice())),
            None => None,
        };
    }
    if type_is(callee, "MemberExpression") {
        let object = match field_object(callee, RawField::Object) {
            Some(o) => o,
            None => return None,
        };
        let property = match field_object(callee, RawField::Property) {
            Some(p) => p,
            None => return None,
        };
        let (o, p) = match (field_str(object, RawField::Name), field_str(property, RawField::Name)) {
            (Some(o), Some(p)) => (o, p),
            _ => return None,
        };
        let mut name = crate::text::copy_chars(o.as_slice());
        push_str(&mut name, ".");
        push_chars(&mut name, p.as_slice());
        return Some(name);
    }
    None
}

/// Whether a node is a call of a function named `expected`.
pub open spec fn spec_call_named(n: EstreeNode, expected: Seq<char>) -> bool {
    spec_type_is(n, "CallExpression"@) && (spec_object_field(n, RawField::Callee.spec_key()@) matches Some(c)
        && spec_callee_name(c) == Some(expected))
}

/// Whether a node is a call of a function named `expected`.
fn is_call_named(n: &EstreeNode, expected: &str) -> (r: bool)
    ensures
        r == spec_call_named(*n, expected@),
{
    if !type_is(n, "CallExpression") {
        return false;
    }
    match field_object(n, RawField::Callee) {
        Some(callee) => match callee_name(callee) {
            Some(name) => text_is(name.as_slice(), expected),
            None => false,
        },
        None => false,
    }
}

/// The range of a call: its own, else its callee's.
pub open spec fn call_range(c: EstreeNode) -> Option<(int, int)> {
    match spec_estree_span(c) {
        Some(x) => Some(x),
        None => match spec_object_field(c, RawField::Callee.spec_key()@) {
            Some(callee) => spec_estree_span(callee),
            None => None,
        },
    }
}

/// The range of the first call, in pre-order, of a function named `expected`.
pub open spec fn first_call_named(node: EstreeNode, expected: Seq<char>) -> Option<(int, int)> {
    match crate::estree::first_match(node, |n: EstreeNode| spec_call_named(n, expected)) {
        Some(c) => call_range(c),
        None => None,
    }
}

/// The range of the first call, in pre-order, of a function named `expected`.
pub fn find_first_call_named(node: &EstreeNode, expected: &str) -> (r: Option<(usize, usize)>)
    ensures
        crate::bindings::int_span(r) == first_call_named(*node, expected@),
{
    let pred = |n: &EstreeNode| -> (b: bool)
        ensures
            b == spec_call_named(*n, expected@),
        { is_call_named(n, expected) };
    let found = crate::estree::find_first_node(node, &pred, Ghost(|n: EstreeNode| spec_call_named(n, expected@)));
    match found {
        Some(child) => {
            proof {
                crate::estree::lemma_first_match_holds(*node, |n: EstreeNode| spec_call_named(n, expected@));
            }
            match node_span(child) {
                Some(s) => Some(s),
                None => match field_object(child, RawField::Callee) {
                    Some(callee) => node_span(callee),
                    None => None,
                },
            }
        },
        None => None,
    }
}

/// A rune that cannot stand in a `{@const}` initializer: `$state` or
/// `$state.raw`, then `$derived` or `$derived.by`.
pub open spec fn spec_rune_init(tag: ConstTag) -> Option<EstreeNode> {
    let raw = tag.declaration.0;
    if spec_type_is(raw, "AssignmentExpression"@) {
        spec_object_field(raw, RawField::Right.spec_key()@)
    } else if spec_type_is(raw, "VariableDeclaration"@) {
        match spec_field(raw, RawField::Declarations.spec_key()@) {
            Some(EstreeValue::Array(ds)) => if ds@.len() > 0 {
                match ds@[0] {
                    EstreeValue::Object(d) => spec_object_field(d, RawField::Init.spec_key()@),
                    _ => None,
                }
            } else {
                None
            },
            _ => None,
        }
    } else {
        None
    }
}

/// A rune that cannot stand in a `{@const}` initializer, with its range.
pub open spec fn spec_const_rune_usage(tag: ConstTag) -> Option<(CompilerDiagnosticKind, int, int)> {
    match spec_rune_init(tag) {
        Some(init) => {
            let kind_at = |k: CompilerDiagnosticKind, r: Option<(int, int)>|
                match r {
                    Some((s, e)) => Some((k, s, e)),
                    None => None,
                };
            if first_call_named(init, "$state"@) is Some {
                kind_at(CompilerDiagnosticKind::StateInvalidPlacement, first_call_named(init, "$state"@))
            } else if first_call_named(init, "$state.raw"@) is Some {
                kind_at(CompilerDiagnosticKind::StateInvalidPlacement, first_call_named(init, "$state.raw"@))
            } else if first_call_named(init, "$derived"@) is Some {
                kind_at(CompilerDiagnosticKind::StateInvalidPlacementDerived, first_call_named(init, "$derived"@))
            } else {
                kind_at(CompilerDiagnosticKind::StateInvalidPlacementDerived, first_call_named(init, "$derived.by"@))
            }
        },
        None => None,
    }
}

/// A rune that cannot stand in a `{@const}` initializer: `$state` or
/// `$state.raw`, then `$derived` or `$derived.by`.
pub fn find_const_tag_invalid_rune_usage(tag: &ConstTag) -> (r: Option<(CompilerDiagnosticKind, usize, usize)>)
    ensures
        match r {
            Some((k, s, e)) => spec_const_rune_usage(*tag) == Some((k, s as int, e as int)),
            None => spec_const_rune_usage(*tag) is None,
        },
{
    let raw = &tag.declaration.0;
    let init = if type_is(raw, "AssignmentExpression") {
        field_object(raw, RawField::Right)
    } else if type_is(raw, "VariableDeclaration") {
        match field_array(raw, RawField::Declarations) {
            Some(declarations) => if declarations.len() > 0 {
                match &declarations[0] {
                    EstreeValue::Object(d) => field_object(d, RawField::Init),
                    _ => None,
                }
            } else {
                None
            },
            None => None,
        }
    } else {
        None
    };
    let init = match init {
        Some(i) => i,
        None => return None,
    };
    if let Some((s, e)) = find_first_call_named(init, "$state") {
        return Some((CompilerDiagnosticKind::StateInvalidPlacement, s, e));
    }
    if let Some((s, e)) = find_first_call_named(init, "$state.raw") {
        return Some((CompilerDiagnosticKind::StateInvalidPlacement, s, e));
    }
    if let Some((s, e)) = find_first_call_named(init, "$derived") {
        return Some((CompilerDiagnosticKind::StateInvalidPlacementDerived, s, e));
    }
    if let Some((s, e)) = find_first_call_named(init, "$derived.by") {
        return Some((CompilerDiagnosticKind::StateInvalidPlacementDerived, s, e));
    }
    None
}

/// The names that the value of a `{@const}` tag reads, in order.
pub open spec fn const_tag_deps(tag: ConstTag) -> Seq<Seq<char>> {
    match spec_const_tag_init(tag) {
        Some(init) => crate::deps::spec_reads(&init),
        None => Seq::empty(),
    }
}

/// One name a `{@const}` tag declares, with the tag's range and the names
/// its value reads.
pub type ConstEntry = (Seq<char>, (usize, usize), Seq<Seq<char>>);

/// The entries of the names declared by the `{@const}` tags among `f.nodes[..i]`, in order.
pub open spec fn const_entries(f: &Fragment, i: int) -> Seq<ConstEntry>
    decreases i,
{
    if 0 < i <= f.nodes@.len() {
        const_entries(f, i - 1) + match f.nodes@[i - 1] {
            Node::ConstTag(tag) => spec_declared_spans(tag).map_values(
                |b: SpanView| (b.0, (tag.start, tag.end), const_tag_deps(tag)),
            ),
            _ => Seq::empty(),
        }
    } else {
        Seq::empty()
    }
}

/// The names of `ds[..m]` that are among `names`, in order.
pub open spec fn kept_upto(ds: Seq<Seq<char>>, names: Seq<Seq<char>>, m: int) -> Seq<Seq<char>>
    decreases m,
{
    if 0 < m <= ds.len() {
        if names.contains(ds[m - 1]) {
            kept_upto(ds, names, m - 1).push(ds[m - 1])
        } else {
            kept_upto(ds, names, m - 1)
        }
    } else {
        Seq::empty()
    }
}

/// The dependency graph of a fragment's `{@const}` names: each name with
/// the other declared names its tag's value reads.
pub open spec fn const_graph(f: &Fragment) -> crate::deps::GraphView {
    let es = const_entries(f, f.nodes@.len() as int);
    let names = es.map_values(|e: ConstEntry| e.0);
    (names, es.map_values(|e: ConstEntry| kept_upto(e.2, names, e.2.len() as int)))
}

/// The first cycle the search finds among a fragment's `{@const}` names,
/// with the range of the tag that declares its first name; none with fewer
/// than two names.
pub open spec fn spec_const_cycle(f: &Fragment) -> Option<(Seq<Seq<char>>, usize, usize)> {
    let es = const_entries(f, f.nodes@.len() as int);
    if es.len() < 2 {
        None
    } else {
        match crate::deps::spec_first_cycle(const_graph(f)) {
            Some(c) => match first_index_from(const_graph(f).0, 0, c[0]) {
                Some(t) => Some((c, es[t].1.0, es[t].1.1)),
                None => None,
            },
            None => None,
        }
    }
}

/// A cycle with its range, as plain values.
pub open spec fn const_cycle_view(r: Option<(Vec<Vec<char>>, usize, usize)>) -> Option<(Seq<Seq<char>>, usize, usize)> {
    match r {
        Some((c, s, e)) => Some((names_view(c@), s, e)),
        None => None,
    }
}

/// A cycle among the `{@const}` tags directly in a fragment, with the tag
/// that declares the cycle's first name.
pub fn find_const_cycle(fragment: &Fragment) -> (r: Option<(Vec<Vec<char>>, usize, usize)>)
    ensures
        const_cycle_view(r) == spec_const_cycle(fragment),
{
    let mut names: Vec<Vec<char>> = Vec::new();
    let mut spans: Vec<(usize, usize)> = Vec::new();
    let mut raw_deps: Vec<Vec<Vec<char>>> = Vec::new();
    let mut i: usize = 0;
    while i < fragment.nodes.len()
        invariant
            i <= fragment.nodes@.len(),
            names@.len() == spans@.len(),
            names@.len() == raw_deps@.len(),
            names_view(names@) == const_entries(fragment, i as int).map_values(|e: ConstEntry| e.0),
            spans@ == const_entries(fragment, i as int).map_values(|e: ConstEntry| e.1),
            raw_deps@.map_values(|d: Vec<Vec<char>>| names_view(d@)) == const_entries(fragment, i as int).map_values(
                |e: ConstEntry| e.2,
            ),
        decreases fragment.nodes.len() - i,
    {
        let ghost es = const_entries(fragment, i as int);
        if let Node::ConstTag(tag) = &fragment.nodes[i] {
            let bindings = const_tag_declared_bindings(tag);
            let ghost add = spec_declared_spans(*tag).map_values(
                |b: SpanView| (b.0, (tag.start, tag.end), const_tag_deps(*tag)),
            );
            if bindings.len() > 0 {
                let deps = match const_tag_init(tag) {
                    Some(init) => collect_reactive_dependencies(init),
                    None => Vec::new(),
                };
                proof {
                    assert(names_view(deps@) =~= const_tag_deps(*tag));
                }
                let mut j: usize = 0;
                while j < bindings.len()
                    invariant
                        j <= bindings@.len(),
                        names@.len() == spans@.len(),
                        names@.len() == raw_deps@.len(),
                        spans_view(bindings@) == spec_declared_spans(*tag),
                        names_view(deps@) == const_tag_deps(*tag),
                        add == spec_declared_spans(*tag).map_values(
                            |b: SpanView| (b.0, (tag.start, tag.end), const_tag_deps(*tag)),
                        ),
                        names_view(names@) == (es + add.subrange(0, j as int)).map_values(|e: ConstEntry| e.0),
                        spans@ == (es + add.subrange(0, j as int)).map_values(|e: ConstEntry| e.1),
                        raw_deps@.map_values(|d: Vec<Vec<char>>| names_view(d@)) == (es + add.subrange(
                            0,
                            j as int,
                        )).map_values(|e: ConstEntry| e.2),
                    decreases bindings.len() - j,
                {
                    let ghost pre = es + add.subrange(0, j as int);
                    let ghost now = es + add.subrange(0, j + 1);
                    proof {
                        assert(now =~= pre.push(add[j as int]));
                        assert(spans_view(bindings@)[j as int].0 == bindings@[j as int].0@);
                        assert(add.len() == bindings@.len());
                        assert(add[j as int].0 == bindings@[j as int].0@);
                        assert(add[j as int].2 == const_tag_deps(*tag));
                    }
                    let ghost old_names = names@;
                    let ghost old_raw = raw_deps@;
                    let copied = copy_names(&deps);
                    names.push(crate::text::copy_chars(bindings[j].0.as_slice()));
                    spans.push((tag.start, tag.end));
                    raw_deps.push(copied);
                    proof {
                        assert(names_view(names@) =~= names_view(old_names).push(bindings@[j as int].0@));
                        assert(raw_deps@.map_values(|d: Vec<Vec<char>>| names_view(d@)) =~= old_raw.map_values(
                            |d: Vec<Vec<char>>| names_view(d@),
                        ).push(names_view(copied@)));
                        assert(names_view(copied@) =~= names_view(deps@));
                        assert(names_view(names@) =~= now.map_values(|e: ConstEntry| e.0));
                        assert(spans@ =~= now.map_values(|e: ConstEntry| e.1));
                        assert(raw_deps@.map_values(|d: Vec<Vec<char>>| names_view(d@)) =~= now.map_values(
                            |e: ConstEntry| e.2,
                        ));
                    }
                    j += 1;
                }
                proof {
                    assert(add.subrange(0, j as int) =~= add);
                }
            } else {
                proof {
                    assert(add =~= Seq::<ConstEntry>::empty());
                    assert(es + add =~= es);
                }
            }
            proof {
                assert(const_entries(fragment, i + 1) == es + add);
            }
        } else {
            proof {
                assert(const_entries(fragment, i + 1) =~= es);
            }
        }
        i += 1;
    }
    let ghost es = const_entries(fragment, fragment.nodes@.len() as int);
    let ghost nv = es.map_values(|e: ConstEntry| e.0);
    if names.len() < 2 {
        return None;
    }
    let mut edges: Vec<Vec<Vec<char>>> = Vec::new();
    let mut k: usize = 0;
    while k < raw_deps.len()
        invariant
            k <= raw_deps@.len(),
            edges@.len() == k,
            names@.len() == raw_deps@.len(),
            names_view(names@) == nv,
            raw_deps@.map_values(|d: Vec<Vec<char>>| names_view(d@)) == es.map_values(|e: ConstEntry| e.2),
            forall|q: int|
                0 <= q < k ==> names_view((#[trigger] edges@[q])@) == kept_upto(es[q].2, nv, es[q].2.len() as int),
        decreases raw_deps.len() - k,
    {
        let mut kept: Vec<Vec<char>> = Vec::new();
        let mut m: usize = 0;
        proof {
            assert(raw_deps@.map_values(|d: Vec<Vec<char>>| names_view(d@))[k as int] == names_view(raw_deps@[k as int]@));
            assert(es.map_values(|e: ConstEntry| e.2).len() == raw_deps@.len());
            assert(es.map_values(|e: ConstEntry| e.2)[k as int] == es[k as int].2);
            assert(names_view(kept@) =~= kept_upto(es[k as int].2, nv, 0));
        }
        while m < raw_deps[k].len()
            invariant
                m <= raw_deps@[k as int]@.len(),
                k < raw_deps@.len(),
                names_view(names@) == nv,
                names_view(raw_deps@[k as int]@) == es[k as int].2,
                names_view(kept@) == kept_upto(es[k as int].2, nv, m as int),
            decreases raw_deps@[k as int]@.len() - m,
        {
            proof {
                crate::bindings::lemma_has_name_view(names@, raw_deps@[k as int]@[m as int]@);
                assert(es[k as int].2[m as int] == raw_deps@[k as int]@[m as int]@);
            }
            if contains_name(&names, raw_deps[k][m].as_slice()) {
                kept.push(crate::text::copy_chars(raw_deps[k][m].as_slice()));
            }
            proof {
                assert(names_view(kept@) =~= kept_upto(es[k as int].2, nv, m + 1));
            }
            m += 1;
        }
        let ghost before = edges@;
        edges.push(kept);
        proof {
            assert forall|q: int|
                0 <= q < k + 1 implies names_view((#[trigger] edges@[q])@) == kept_upto(es[q].2, nv, es[q].2.len() as int) by {
                if q < k {
                    assert(edges@[q] == before[q]);
                }
            }
        }
        k += 1;
    }
    let graph = DependencyGraph { names, edges };
    proof {
        assert(crate::deps::graph_view(graph) =~= const_graph(fragment)) by {
            assert(crate::deps::graph_view(graph).0 == const_graph(fragment).0);
            assert(crate::deps::graph_view(graph).1 =~= const_graph(fragment).1);
        }
    }
    match first_cycle(&graph) {
        Some(cycle) => {
            let idx = graph.index_of(cycle[0].as_slice());
            proof {
                assert(names_view(cycle@)[0] == cycle@[0]@);
            }
            match idx {
                Some(t) => {
                    if t < spans.len() {
                        let (s, e) = spans[t];
                        Some((cycle, s, e))
                    } else {
                        None
                    }
                },
                None => None,
            }
        },
        None => None,
    }
}

/// What holds a fragment with `{@const}` tags in it.
#[derive(Clone, Copy)]
pub enum ConstOwner {
    Root,
    Element { slot_parent: bool },
    Component,
    Fragment,
    Boundary,
    If,
    Each,
    Await,
    Snippet,
    Key,
}

/// Whether `{@const}` may stand directly in a fragment held by `owner`.
pub fn const_owner_allows_declaration(owner: ConstOwner) -> (r: bool)
    ensures
        r == match owner {
            ConstOwner::Root => false,
            ConstOwner::Element { slot_parent } => slot_parent,
            _ => true,
        },
{
    match owner {
        ConstOwner::Root => false,
        ConstOwner::Element { slot_parent } => slot_parent,
        _ => true,
    }
}

/// Whether an element has a `slot` attribute.
pub fn element_has_slot_attribute(attributes: &Vec<Attribute>) -> (r: bool)
    ensures
        r == exists|i: int| 0 <= i < attributes@.len() && (#[trigger] attributes@[i] matches Attribute::Attribute(a) && a.name@ == "slot"@),
{
    let mut i: usize = 0;
    while i < attributes.len()
        invariant
            i <= attributes@.len(),
            forall|j: int| 0 <= j < i ==> !(#[trigger] attributes@[j] matches Attribute::Attribute(a) && a.name@ == "slot"@),
        decreases attributes.len() - i,
    {
        if let Attribute::Attribute(a) = &attributes[i] {
            if text_is(a.name.as_slice(), "slot") {
                return true;
            }
        }
        i += 1;
    }
    false
}

/// The owner a node gives the fragment it holds.
pub fn const_owner(node: &Node, attributes: &Vec<Attribute>) -> (r: ConstOwner)
    ensures
        r == match *node {
            Node::Component(_) | Node::SvelteComponent(_) | Node::SvelteSelf(_) => ConstOwner::Component,
            Node::SvelteFragment(_) => ConstOwner::Fragment,
            Node::SvelteBoundary(_) => ConstOwner::Boundary,
            _ => ConstOwner::Element {
                slot_parent: exists|i: int|
                    0 <= i < attributes@.len() && (#[trigger] attributes@[i] matches Attribute::Attribute(a) && a.name@
                        == "slot"@),
            },
        },
{
    match node {
        Node::Component(_) | Node::SvelteComponent(_) | Node::SvelteSelf(_) => ConstOwner::Component,
        Node::SvelteFragment(_) => ConstOwner::Fragment,
        Node::SvelteBoundary(_) => ConstOwner::Boundary,
        _ => ConstOwner::Element { slot_parent: element_has_slot_attribute(attributes) },
    }
}

/// The first identifier an expression reads that is among `unavailable`
/// and not among `visible`, with its range.
pub fn find_unavailable_const_reference(
    expression: &Expression,
    visible: &Vec<Vec<char>>,
    unavailable: &Vec<Vec<char>>,
) -> (r: Option<(Vec<char>, usize, usize)>)
    ensures
        named_span_view(r) == spec_expression_unavailable(*expression, names_set(visible@), names_set(unavailable@)),
{
    let root_key = chars_of("");
    proof {
        reveal_strlit("");
    }
    let flat = flatten(&expression.0, &root_key);
    let mut i: usize = 0;
    while i < flat.len()
        invariant
            i <= flat@.len(),
            parents_precede(flat@),
            root_key@.len() == 0,
            flat@ == flat_of_node(&expression.0, 0, &root_key, false, 0),
            unavailable_from(flat@, 0, names_set(visible@), names_set(unavailable@)) == unavailable_from(
                flat@,
                i as int,
                names_set(visible@),
                names_set(unavailable@),
            ),
        decreases flat.len() - i,
    {
        let n = flat[i].node;
        if type_is(n, "Identifier") && !path_has_function_scope(&flat, i) && !is_ignored_identifier_context(&flat, i)
            && !is_type_identifier_context(&flat, i) && !is_simple_assignment_target(&flat, i) {
            if let Some(name) = field_str(n, RawField::Name) {
                if !contains_name(visible, name.as_slice()) && contains_name(unavailable, name.as_slice()) {
                    if let Some((s, e)) = node_span(n) {
                        let found = Some((crate::text::copy_chars(name.as_slice()), s, e));
                        proof {
                            assert(crate::deps::reads_name_at(flat@, i as int, name@));
                            assert(!names_set(visible@).contains(name@));
                            assert(unavailable_from(flat@, 0, names_set(visible@), names_set(unavailable@)) == named_span_view(found));
                            lemma_expression_unavailable(expression, &root_key, names_set(visible@), names_set(unavailable@));
                        }
                        return found;
                    }
                }
            }
        }
        proof {
            assert(forall|x: Seq<char>| #[trigger] names_set(visible@).contains(x) == has_name(visible@, x));
            assert(unavailable_at(flat@, i as int, names_set(visible@), names_set(unavailable@)) is None);
        }
        i += 1;
    }
    proof {
        assert(unavailable_from(flat@, 0, names_set(visible@), names_set(unavailable@)) == named_span_view(None));
        lemma_expression_unavailable(expression, &root_key, names_set(visible@), names_set(unavailable@));
    }
    None
}

/// A name with a range, as plain values.
pub open spec fn named_span_view(r: Option<(Vec<char>, usize, usize)>) -> Option<(Seq<char>, int, int)> {
    match r {
        Some((n, s, e)) => Some((n@, s as int, e as int)),
        None => None,
    }
}

/// At entry `i` of a flattened expression, an identifier that reads a name
/// of `unavailable` that is not in `visible`, with the name and its range.
pub open spec fn unavailable_at(
    flat: Seq<crate::estree::FlatNode>,
    i: int,
    visible: Set<Seq<char>>,
    unavailable: Set<Seq<char>>,
) -> Option<(Seq<char>, int, int)> {
    match spec_field(*flat[i].node, RawField::Name.spec_key()@) {
        Some(EstreeValue::String(x)) => if crate::deps::reads_name_at(flat, i, x@) && !visible.contains(x@)
            && unavailable.contains(x@) && spec_estree_span(*flat[i].node) is Some {
            Some((x@, spec_estree_span(*flat[i].node).unwrap().0, spec_estree_span(*flat[i].node).unwrap().1))
        } else {
            None
        },
        _ => None,
    }
}

/// The first such reference among entries `[i..]`.
pub open spec fn unavailable_from(
    flat: Seq<crate::estree::FlatNode>,
    i: int,
    visible: Set<Seq<char>>,
    unavailable: Set<Seq<char>>,
) -> Option<(Seq<char>, int, int)>
    decreases flat.len() - i,
{
    if 0 <= i < flat.len() {
        if unavailable_at(flat, i, visible, unavailable) is Some {
            unavailable_at(flat, i, visible, unavailable)
        } else {
            unavailable_from(flat, i + 1, visible, unavailable)
        }
    } else {
        None
    }
}

/// The first reference of an expression to a name of `unavailable` that is
/// not in `visible`, in pre-order, with its range.
pub open spec fn spec_expression_unavailable(
    e: Expression,
    visible: Set<Seq<char>>,
    unavailable: Set<Seq<char>>,
) -> Option<(Seq<char>, int, int)> {
    let key = choose|k: &Vec<char>| #[trigger] crate::reactive::empty_key(k);
    unavailable_from(flat_of_node(&e.0, 0, key, false, 0), 0, visible, unavailable)
}

proof fn lemma_unavailable_agrees(
    f1: Seq<crate::estree::FlatNode>,
    f2: Seq<crate::estree::FlatNode>,
    i: int,
    visible: Set<Seq<char>>,
    unavailable: Set<Seq<char>>,
)
    requires
        crate::reactive::flats_agree(f1, f2),
        parents_precede(f1),
    ensures
        unavailable_from(f1, i, visible, unavailable) == unavailable_from(f2, i, visible, unavailable),
    decreases f1.len() - i,
{
    if 0 <= i < f1.len() {
        assert(f1[i].node == f2[i].node);
        assert forall|x: Seq<char>| #[trigger] crate::deps::reads_name_at(f1, i, x) == crate::deps::reads_name_at(f2, i, x) by {
            crate::deps::lemma_reads_name_agrees(f1, f2, i, x);
        }
        assert(unavailable_at(f1, i, visible, unavailable) == unavailable_at(f2, i, visible, unavailable));
        lemma_unavailable_agrees(f1, f2, i + 1, visible, unavailable);
    }
}

proof fn lemma_expression_unavailable<'a>(
    e: &'a Expression,
    key: &'a Vec<char>,
    visible: Set<Seq<char>>,
    unavailable: Set<Seq<char>>,
)
    requires
        parents_precede(flat_of_node(&e.0, 0, key, false, 0)),
    ensures
        unavailable_from(flat_of_node(&e.0, 0, key, false, 0), 0, visible, unavailable)
            == spec_expression_unavailable(*e, visible, unavailable),
{
    let k = choose|k: &Vec<char>| #[trigger] crate::reactive::empty_key(k);
    crate::reactive::lemma_root_key_free(&e.0, key, k);
    lemma_unavailable_agrees(
        flat_of_node(&e.0, 0, key, false, 0),
        flat_of_node(&e.0, 0, k, false, 0),
        0,
        visible,
        unavailable,
    );
}

/// The first of two outcomes that found something.
pub open spec fn first_named(a: Option<(Seq<char>, int, int)>, b: Option<(Seq<char>, int, int)>) -> Option<(Seq<char>, int, int)> {
    if a is Some {
        a
    } else {
        b
    }
}

/// The first unavailable reference in the expression tags among `values[i..]`.
pub open spec fn values_unavailable_from(
    values: Seq<AttributeValue>,
    i: int,
    visible: Set<Seq<char>>,
    unavailable: Set<Seq<char>>,
) -> Option<(Seq<char>, int, int)>
    decreases values.len() - i,
{
    if 0 <= i < values.len() {
        first_named(
            match values[i] {
                AttributeValue::ExpressionTag(tag) => spec_expression_unavailable(tag.expression, visible, unavailable),
                _ => None,
            },
            values_unavailable_from(values, i + 1, visible, unavailable),
        )
    } else {
        None
    }
}

/// The first unavailable reference in the expressions of an attribute value.
pub open spec fn spec_value_unavailable(
    value: AttributeValueList,
    visible: Set<Seq<char>>,
    unavailable: Set<Seq<char>>,
) -> Option<(Seq<char>, int, int)> {
    match value {
        AttributeValueList::Boolean(_) => None,
        AttributeValueList::ExpressionTag(tag) => spec_expression_unavailable(tag.expression, visible, unavailable),
        AttributeValueList::Values(values) => values_unavailable_from(values@, 0, visible, unavailable),
    }
}

/// The first unavailable reference in the expressions of an attribute.
pub open spec fn spec_attribute_unavailable(
    attribute: Attribute,
    visible: Set<Seq<char>>,
    unavailable: Set<Seq<char>>,
) -> Option<(Seq<char>, int, int)> {
    match attribute {
        Attribute::Attribute(a) => spec_value_unavailable(a.value, visible, unavailable),
        Attribute::StyleDirective(a) => spec_value_unavailable(a.value, visible, unavailable),
        Attribute::BindDirective(a) => spec_expression_unavailable(a.expression, visible, unavailable),
        Attribute::OnDirective(a) => spec_expression_unavailable(a.expression, visible, unavailable),
        Attribute::ClassDirective(a) => spec_expression_unavailable(a.expression, visible, unavailable),
        Attribute::LetDirective(a) => spec_expression_unavailable(a.expression, visible, unavailable),
        Attribute::AnimateDirective(a) => spec_expression_unavailable(a.expression, visible, unavailable),
        Attribute::UseDirective(a) => spec_expression_unavailable(a.expression, visible, unavailable),
        Attribute::TransitionDirective(a) => spec_expression_unavailable(a.expression, visible, unavailable),
        Attribute::SpreadAttribute(a) => spec_expression_unavailable(a.expression, visible, unavailable),
        Attribute::AttachTag(a) => spec_expression_unavailable(a.expression, visible, unavailable),
    }
}

/// The first unavailable reference among `attributes[i..]`.
pub open spec fn attributes_unavailable_from(
    attributes: Seq<Attribute>,
    i: int,
    visible: Set<Seq<char>>,
    unavailable: Set<Seq<char>>,
) -> Option<(Seq<char>, int, int)>
    decreases attributes.len() - i,
{
    if 0 <= i < attributes.len() {
        first_named(
            spec_attribute_unavailable(attributes[i], visible, unavailable),
            attributes_unavailable_from(attributes, i + 1, visible, unavailable),
        )
    } else {
        None
    }
}

/// The first unavailable reference among the expressions `args[i..]`.
pub open spec fn arguments_unavailable_from(
    args: Seq<Expression>,
    i: int,
    visible: Set<Seq<char>>,
    unavailable: Set<Seq<char>>,
) -> Option<(Seq<char>, int, int)>
    decreases args.len() - i,
{
    if 0 <= i < args.len() {
        first_named(
            spec_expression_unavailable(args[i], visible, unavailable),
            arguments_unavailable_from(args, i + 1, visible, unavailable),
        )
    } else {
        None
    }
}

/// The first unavailable reference in the expressions of a node itself:
/// those of the tag or block, then its attributes, then, for
/// `<svelte:component>` and `<svelte:element>`, its `this` expression.
pub open spec fn spec_node_unavailable(
    node: &Node,
    visible: Set<Seq<char>>,
    unavailable: Set<Seq<char>>,
) -> Option<(Seq<char>, int, int)> {
    first_named(
        match *node {
            Node::ExpressionTag(tag) => spec_expression_unavailable(tag.expression, visible, unavailable),
            Node::RenderTag(tag) => spec_expression_unavailable(tag.expression, visible, unavailable),
            Node::HtmlTag(tag) => spec_expression_unavailable(tag.expression, visible, unavailable),
            Node::ConstTag(tag) => spec_expression_unavailable(tag.declaration, visible, unavailable),
            Node::IfBlock(block) => spec_expression_unavailable(block.test, visible, unavailable),
            Node::EachBlock(block) => first_named(
                spec_expression_unavailable(block.expression, visible, unavailable),
                match block.key {
                    Some(k) => spec_expression_unavailable(k, visible, unavailable),
                    None => None,
                },
            ),
            Node::KeyBlock(block) => spec_expression_unavailable(block.expression, visible, unavailable),
            Node::AwaitBlock(block) => spec_expression_unavailable(block.expression, visible, unavailable),
            Node::DebugTag(tag) => arguments_unavailable_from(tag.arguments@, 0, visible, unavailable),
            _ => None,
        },
        match crate::ast::spec_element(node) {
            Some(el) => first_named(
                attributes_unavailable_from(el.attributes@, 0, visible, unavailable),
                match el.expression {
                    Some(x) => spec_expression_unavailable(*x, visible, unavailable),
                    None => None,
                },
            ),
            None => None,
        },
    )
}

/// The first unavailable reference in the expressions of an attribute value.
fn unavailable_in_value(value: &AttributeValueList, visible: &Vec<Vec<char>>, unavailable: &Vec<Vec<char>>) -> (r: Option<
    (Vec<char>, usize, usize),
>)
    ensures
        named_span_view(r) == spec_value_unavailable(*value, names_set(visible@), names_set(unavailable@)),
{
    match value {
        AttributeValueList::Boolean(_) => None,
        AttributeValueList::ExpressionTag(tag) => find_unavailable_const_reference(&tag.expression, visible, unavailable),
        AttributeValueList::Values(values) => {
            let mut i: usize = 0;
            while i < values.len()
                invariant
                    i <= values@.len(),
                    *value == AttributeValueList::Values(*values),
                    values_unavailable_from(values@, 0, names_set(visible@), names_set(unavailable@)) == values_unavailable_from(
                        values@,
                        i as int,
                        names_set(visible@),
                        names_set(unavailable@),
                    ),
                decreases values.len() - i,
            {
                if let AttributeValue::ExpressionTag(tag) = &values[i] {
                    let found = find_unavailable_const_reference(&tag.expression, visible, unavailable);
                    if found.is_some() {
                        return found;
                    }
                }
                i += 1;
            }
            None
        },
    }
}

/// The first unavailable reference among the attributes of an element.
fn unavailable_in_attributes(attributes: &Vec<Attribute>, visible: &Vec<Vec<char>>, unavailable: &Vec<Vec<char>>) -> (r:
    Option<(Vec<char>, usize, usize)>)
    ensures
        named_span_view(r) == attributes_unavailable_from(attributes@, 0, names_set(visible@), names_set(unavailable@)),
{
    let mut i: usize = 0;
    while i < attributes.len()
        invariant
            i <= attributes@.len(),
            attributes_unavailable_from(attributes@, 0, names_set(visible@), names_set(unavailable@)) == attributes_unavailable_from(
                attributes@,
                i as int,
                names_set(visible@),
                names_set(unavailable@),
            ),
        decreases attributes.len() - i,
    {
        let found = match &attributes[i] {
            Attribute::Attribute(a) => unavailable_in_value(&a.value, visible, unavailable),
            Attribute::StyleDirective(a) => unavailable_in_value(&a.value, visible, unavailable),
            Attribute::BindDirective(a) | Attribute::OnDirective(a) | Attribute::ClassDirective(a)
            | Attribute::LetDirective(a) | Attribute::AnimateDirective(a) | Attribute::UseDirective(a) => {
                find_unavailable_const_reference(&a.expression, visible, unavailable)
            },
            Attribute::TransitionDirective(a) => find_unavailable_const_reference(&a.expression, visible, unavailable),
            Attribute::SpreadAttribute(a) => find_unavailable_const_reference(&a.expression, visible, unavailable),
            Attribute::AttachTag(a) => find_unavailable_const_reference(&a.expression, visible, unavailable),
        };
        if found.is_some() {
            return found;
        }
        i += 1;
    }
    None
}

/// The first unavailable reference in the expressions of a node itself.
fn unavailable_in_node(node: &Node, unavailable: &Vec<Vec<char>>, visible: &Vec<Vec<char>>) -> (r: Option<
    (Vec<char>, usize, usize),
>)
    ensures
        named_span_view(r) == spec_node_unavailable(node, names_set(visible@), names_set(unavailable@)),
{
    let found = match node {
        Node::ExpressionTag(tag) => find_unavailable_const_reference(&tag.expression, visible, unavailable),
        Node::RenderTag(tag) => find_unavailable_const_reference(&tag.expression, visible, unavailable),
        Node::HtmlTag(tag) => find_unavailable_const_reference(&tag.expression, visible, unavailable),
        Node::ConstTag(tag) => find_unavailable_const_reference(&tag.declaration, visible, unavailable),
        Node::IfBlock(block) => find_unavailable_const_reference(&block.test, visible, unavailable),
        Node::EachBlock(block) => match find_unavailable_const_reference(&block.expression, visible, unavailable) {
            Some(f) => Some(f),
            None => match &block.key {
                Some(k) => find_unavailable_const_reference(k, visible, unavailable),
                None => None,
            },
        },
        Node::KeyBlock(block) => find_unavailable_const_reference(&block.expression, visible, unavailable),
        Node::AwaitBlock(block) => find_unavailable_const_reference(&block.expression, visible, unavailable),
        Node::DebugTag(tag) => {
            let mut hit: Option<(Vec<char>, usize, usize)> = None;
            let mut i: usize = 0;
            while i < tag.arguments.len()
                invariant
                    i <= tag.arguments@.len(),
                    first_named(named_span_view(hit), arguments_unavailable_from(
                        tag.arguments@,
                        i as int,
                        names_set(visible@),
                        names_set(unavailable@),
                    )) == arguments_unavailable_from(tag.arguments@, 0, names_set(visible@), names_set(unavailable@)),
                decreases tag.arguments.len() - i,
            {
                if hit.is_none() {
                    hit = find_unavailable_const_reference(&tag.arguments[i], visible, unavailable);
                }
                i += 1;
            }
            hit
        },
        _ => None,
    };
    if found.is_some() {
        return found;
    }
    match node.as_element() {
        Some(el) => match unavailable_in_attributes(el.attributes, visible, unavailable) {
            Some(f) => Some(f),
            None => match el.expression {
                Some(x) => find_unavailable_const_reference(x, visible, unavailable),
                None => None,
            },
        },
        None => None,
    }
}

/// The names a binding pattern binds.
pub open spec fn pattern_names(p: EstreeNode) -> Set<Seq<char>> {
    Set::new(|n: Seq<char>| crate::bindings::pattern_binds(p, n))
}

/// The names the patterns `ps[..k]` bind.
pub open spec fn parameters_names(ps: Seq<Expression>, k: int) -> Set<Seq<char>> {
    Set::new(|n: Seq<char>| exists|j: int| 0 <= j < k && crate::bindings::pattern_binds((#[trigger] ps[j]).0, n))
}

/// The names a `{@const}` tag declares.
pub open spec fn const_names(tag: ConstTag) -> Set<Seq<char>> {
    Set::new(|n: Seq<char>| exists|k: int| 0 <= k < spec_declared_spans(tag).len() && (#[trigger] spec_declared_spans(tag)[k]).0 == n)
}

/// What an `{#each}` block makes visible in its body: the names of its
/// context and its index.
pub open spec fn each_scope(b: crate::ast::EachBlock, visible: Set<Seq<char>>) -> Set<Seq<char>> {
    let with_context = match b.context {
        Some(c) => visible.union(pattern_names(c.0)),
        None => visible,
    };
    match b.index {
        Some(index) => with_context.insert(index@),
        None => with_context,
    }
}

/// A fragment's first reference to a name of `unavailable` that is not
/// visible there, among `f.nodes[i..]` and their descendants; a `{@const}`
/// tag makes its names visible to the nodes after it.
pub open spec fn fragment_unavailable_from(
    f: &Fragment,
    i: int,
    unavailable: Set<Seq<char>>,
    visible: Set<Seq<char>>,
) -> Option<(Seq<char>, int, int)>
    decreases f, 2int, f.nodes@.len() - i,
{
    if 0 <= i < f.nodes@.len() {
        proof {
            assert(decreases_to!(f => f.nodes));
            assert(decreases_to!(f.nodes => f.nodes@));
            assert(decreases_to!(f.nodes@ => f.nodes@[i]));
        }
        match spec_node_unavailable(&f.nodes@[i], visible, unavailable) {
            Some(x) => Some(x),
            None => match f.nodes@[i] {
                Node::ConstTag(tag) => fragment_unavailable_from(f, i + 1, unavailable, visible.union(const_names(tag))),
                _ => first_named(
                    children_unavailable(&f.nodes@[i], unavailable, visible),
                    fragment_unavailable_from(f, i + 1, unavailable, visible),
                ),
            },
        }
    } else {
        None
    }
}

/// An optional fragment's first unavailable reference.
pub open spec fn optional_unavailable(
    f: &Option<Fragment>,
    unavailable: Set<Seq<char>>,
    visible: Set<Seq<char>>,
) -> Option<(Seq<char>, int, int)>
    decreases f, 3int, 0int,
{
    match f {
        Some(fr) => fragment_unavailable_from(fr, 0, unavailable, visible),
        None => None,
    }
}

/// The first unavailable reference inside the fragments a node holds, with
/// the names each block makes visible in them.
pub open spec fn children_unavailable(
    node: &Node,
    unavailable: Set<Seq<char>>,
    visible: Set<Seq<char>>,
) -> Option<(Seq<char>, int, int)>
    decreases node, 1int, 0int,
{
    match node {
        Node::IfBlock(b) => first_named(
            fragment_unavailable_from(&b.consequent, 0, unavailable, visible),
            match &b.alternate {
                Some(alternate) => {
                    proof {
                        assert(decreases_to!(b => b.alternate));
                    }
                    match &**alternate {
                        Alternate::Fragment(f) => fragment_unavailable_from(f, 0, unavailable, visible),
                        Alternate::IfBlock(inner) => fragment_unavailable_from(&inner.consequent, 0, unavailable, visible),
                    }
                },
                None => None,
            },
        ),
        Node::EachBlock(b) => first_named(
            fragment_unavailable_from(&b.body, 0, unavailable, each_scope(*b, visible)),
            optional_unavailable(&b.fallback, unavailable, visible),
        ),
        Node::AwaitBlock(b) => first_named(
            optional_unavailable(&b.pending, unavailable, visible),
            first_named(
                optional_unavailable(
                    &b.then_branch,
                    unavailable,
                    match b.value {
                        Some(v) => visible.union(pattern_names(v.0)),
                        None => visible,
                    },
                ),
                optional_unavailable(
                    &b.catch,
                    unavailable,
                    match b.error {
                        Some(e) => visible.union(pattern_names(e.0)),
                        None => visible,
                    },
                ),
            ),
        ),
        Node::SnippetBlock(b) => fragment_unavailable_from(
            &b.body,
            0,
            unavailable,
            visible.union(parameters_names(b.parameters@, b.parameters@.len() as int)),
        ),
        Node::KeyBlock(b) => fragment_unavailable_from(&b.fragment, 0, unavailable, visible),
        Node::RegularElement(e) => fragment_unavailable_from(&e.fragment, 0, unavailable, visible),
        Node::Component(e) => fragment_unavailable_from(&e.fragment, 0, unavailable, visible),
        Node::SlotElement(e) => fragment_unavailable_from(&e.fragment, 0, unavailable, visible),
        Node::SvelteHead(e) => fragment_unavailable_from(&e.fragment, 0, unavailable, visible),
        Node::SvelteBody(e) => fragment_unavailable_from(&e.fragment, 0, unavailable, visible),
        Node::SvelteWindow(e) => fragment_unavailable_from(&e.fragment, 0, unavailable, visible),
        Node::SvelteDocument(e) => fragment_unavailable_from(&e.fragment, 0, unavailable, visible),
        Node::SvelteComponent(e) => fragment_unavailable_from(&e.fragment, 0, unavailable, visible),
        Node::SvelteElement(e) => fragment_unavailable_from(&e.fragment, 0, unavailable, visible),
        Node::SvelteSelf(e) => fragment_unavailable_from(&e.fragment, 0, unavailable, visible),
        Node::SvelteFragment(e) => fragment_unavailable_from(&e.fragment, 0, unavailable, visible),
        Node::SvelteBoundary(e) => fragment_unavailable_from(&e.fragment, 0, unavailable, visible),
        Node::TitleElement(e) => fragment_unavailable_from(&e.fragment, 0, unavailable, visible),
        _ => None,
    }
}

/// The first unavailable reference in a fragment and its descendants, with
/// the names each block or tag makes visible along the way.
pub fn find_unavailable_const_reference_in_fragment(
    fragment: &Fragment,
    unavailable: &Vec<Vec<char>>,
    inherited: &Vec<Vec<char>>,
) -> (r: Option<(Vec<char>, usize, usize)>)
    ensures
        named_span_view(r) == fragment_unavailable_from(fragment, 0, names_set(unavailable@), names_set(inherited@)),
    decreases fragment, 2nat,
{
    let mut visible = copy_names(inherited);
    let mut i: usize = 0;
    while i < fragment.nodes.len()
        invariant
            i <= fragment.nodes@.len(),
            fragment_unavailable_from(fragment, 0, names_set(unavailable@), names_set(inherited@)) == fragment_unavailable_from(
                fragment,
                i as int,
                names_set(unavailable@),
                names_set(visible@),
            ),
        decreases fragment.nodes.len() - i,
    {
        proof {
            assert(decreases_to!(fragment => fragment.nodes));
            assert(decreases_to!(fragment.nodes => fragment.nodes@));
            assert(decreases_to!(fragment.nodes@ => fragment.nodes@[i as int]));
        }
        let node = &fragment.nodes[i];
        if let Some(found) = unavailable_in_node(node, unavailable, &visible) {
            return Some(found);
        }
        if let Node::ConstTag(tag) = node {
            let bindings = const_tag_declared_bindings(tag);
            let b = binding_names(&bindings);
            let ghost before = names_set(visible@);
            extend_names(&mut visible, &b);
            proof {
                assert forall|n: Seq<char>| #[trigger] names_set(b@).contains(n) == const_names(*tag).contains(n) by {
                    assert(has_name(b@, n) == binding_named(bindings@, bindings@.len() as int, n));
                    if binding_named(bindings@, bindings@.len() as int, n) {
                        let k = choose|k: int| 0 <= k < bindings@.len() && (#[trigger] bindings@[k]).0@ == n;
                        assert(spans_view(bindings@)[k].0 == n);
                    }
                    if const_names(*tag).contains(n) {
                        let k = choose|k: int| 0 <= k < spec_declared_spans(*tag).len() && (#[trigger] spec_declared_spans(*tag)[k]).0 == n;
                        assert(spans_view(bindings@)[k].0 == bindings@[k].0@);
                        assert(binding_named(bindings@, bindings@.len() as int, n));
                    }
                }
                assert(names_set(b@) =~= const_names(*tag));
                assert(names_set(visible@) == before.union(const_names(*tag)));
            }
        } else if let Some(found) = unavailable_in_children(node, unavailable, &visible) {
            return Some(found);
        }
        i += 1;
    }
    None
}

/// The first unavailable reference inside the fragments a node holds.
#[verifier::spinoff_prover]
fn unavailable_in_children(node: &Node, unavailable: &Vec<Vec<char>>, visible: &Vec<Vec<char>>) -> (r: Option<
    (Vec<char>, usize, usize),
>)
    ensures
        named_span_view(r) == children_unavailable(node, names_set(unavailable@), names_set(visible@)),
    decreases node, 1nat,
{
    let ghost vis = names_set(visible@);
    match node {
        Node::IfBlock(block) => {
            if let Some(f) = find_unavailable_const_reference_in_fragment(&block.consequent, unavailable, visible) {
                return Some(f);
            }
            match &block.alternate {
                Some(alternate) => {
                    proof {
                        assert(decreases_to!(block => block.alternate));
                    }
                    match &**alternate {
                        Alternate::Fragment(f) => find_unavailable_const_reference_in_fragment(f, unavailable, visible),
                        Alternate::IfBlock(b) => find_unavailable_const_reference_in_fragment(&b.consequent, unavailable, visible),
                    }
                },
                None => None,
            }
        },
        Node::EachBlock(block) => {
            let mut child = copy_names(visible);
            if let Some(c) = &block.context {
                collect_binding_names(&c.0, &mut child);
                proof {
                    assert(names_set(child@) =~= vis.union(pattern_names(c.0)));
                }
            }
            let ghost with_context = names_set(child@);
            if let Some(index) = &block.index {
                push_unique(&mut child, index.as_slice());
                proof {
                    assert(names_set(child@) =~= with_context.insert(index@));
                }
            }
            proof {
                assert(names_set(child@) == each_scope(*block, vis));
            }
            if let Some(f) = find_unavailable_const_reference_in_fragment(&block.body, unavailable, &child) {
                return Some(f);
            }
            match &block.fallback {
                Some(fb) => find_unavailable_const_reference_in_fragment(fb, unavailable, visible),
                None => None,
            }
        },
        Node::AwaitBlock(block) => {
            if let Some(p) = &block.pending {
                if let Some(f) = find_unavailable_const_reference_in_fragment(p, unavailable, visible) {
                    return Some(f);
                }
            }
            if let Some(t) = &block.then_branch {
                let mut child = copy_names(visible);
                if let Some(v) = &block.value {
                    collect_binding_names(&v.0, &mut child);
                    proof {
                        assert(names_set(child@) =~= vis.union(pattern_names(v.0)));
                    }
                }
                if let Some(f) = find_unavailable_const_reference_in_fragment(t, unavailable, &child) {
                    return Some(f);
                }
            }
            if let Some(c) = &block.catch {
                let mut child = copy_names(visible);
                if let Some(e) = &block.error {
                    collect_binding_names(&e.0, &mut child);
                    proof {
                        assert(names_set(child@) =~= vis.union(pattern_names(e.0)));
                    }
                }
                if let Some(f) = find_unavailable_const_reference_in_fragment(c, unavailable, &child) {
                    return Some(f);
                }
            }
            None
        },
        Node::SnippetBlock(block) => {
            let mut child = copy_names(visible);
            let mut k: usize = 0;
            while k < block.parameters.len()
                invariant
                    k <= block.parameters@.len(),
                    names_set(child@) == vis.union(parameters_names(block.parameters@, k as int)),
                decreases block.parameters.len() - k,
            {
                let ghost before = names_set(child@);
                let ghost before_vec = child@;
                collect_binding_names(&block.parameters[k].0, &mut child);
                proof {
                    assert forall|n: Seq<char>| #[trigger] names_set(child@).contains(n) == (before.contains(n)
                        || crate::bindings::pattern_binds(block.parameters@[k as int].0, n)) by {
                        assert(names_set(child@).contains(n) == has_name(child@, n));
                        assert(before.contains(n) == has_name(before_vec, n));
                    }
                    assert forall|n: Seq<char>|
                        #[trigger] parameters_names(block.parameters@, k + 1).contains(n) == (parameters_names(
                            block.parameters@,
                            k as int,
                        ).contains(n) || crate::bindings::pattern_binds(block.parameters@[k as int].0, n)) by {
                        if parameters_names(block.parameters@, k + 1).contains(n) {
                            let j = choose|j: int|
                                0 <= j < k + 1 && crate::bindings::pattern_binds((#[trigger] block.parameters@[j]).0, n);
                            if j < k {
                                assert(0 <= j < k && crate::bindings::pattern_binds(block.parameters@[j].0, n));
                            }
                        }
                        if crate::bindings::pattern_binds(block.parameters@[k as int].0, n) {
                            assert(0 <= k < k + 1 && crate::bindings::pattern_binds(block.parameters@[k as int].0, n));
                        }
                        if parameters_names(block.parameters@, k as int).contains(n) {
                            let j = choose|j: int|
                                0 <= j < k && crate::bindings::pattern_binds((#[trigger] block.parameters@[j]).0, n);
                            assert(0 <= j < k + 1 && crate::bindings::pattern_binds(block.parameters@[j].0, n));
                        }
                    }
                    assert(names_set(child@) =~= vis.union(parameters_names(block.parameters@, k + 1)));
                }
                k += 1;
            }
            find_unavailable_const_reference_in_fragment(&block.body, unavailable, &child)
        },
        Node::KeyBlock(block) => find_unavailable_const_reference_in_fragment(&block.fragment, unavailable, visible),
        _ => match crate::template::element_fragment(node) {
            Some(f) => find_unavailable_const_reference_in_fragment(f, unavailable, visible),
            None => None,
        },
    }
}

/// The name of the first unavailable reference in the expressions of a
/// node itself, with nothing visible, as a set of at most one name.
pub open spec fn node_reference(node: &Node, names: Set<Seq<char>>) -> Set<Seq<char>> {
    match spec_node_unavailable(node, Set::empty(), names) {
        Some((x, _, _)) => set![x],
        None => Set::empty(),
    }
}

/// The names of `names` that the nodes `f.nodes[i..]` read (see `node_references`).
pub open spec fn fragment_references(f: &Fragment, i: int, names: Set<Seq<char>>) -> Set<Seq<char>>
    decreases f, 2int, f.nodes@.len() - i,
{
    if 0 <= i < f.nodes@.len() {
        proof {
            assert(decreases_to!(f => f.nodes));
            assert(decreases_to!(f.nodes => f.nodes@));
            assert(decreases_to!(f.nodes@ => f.nodes@[i]));
        }
        node_references(&f.nodes@[i], names).union(fragment_references(f, i + 1, names))
    } else {
        Set::empty()
    }
}

/// The names of `names` that an optional fragment reads.
pub open spec fn optional_references(f: &Option<Fragment>, names: Set<Seq<char>>) -> Set<Seq<char>>
    decreases f, 3int, 0int,
{
    match f {
        Some(fr) => fragment_references(fr, 0, names),
        None => Set::empty(),
    }
}

/// The names of `names` that a node reads: the first such reference of its
/// own expressions, then those of the blocks' and elements' fragments.
pub open spec fn node_references(node: &Node, names: Set<Seq<char>>) -> Set<Seq<char>>
    decreases node, 1int, 0int,
{
    node_reference(node, names).union(
        match node {
            Node::IfBlock(b) => fragment_references(&b.consequent, 0, names).union(
                match &b.alternate {
                    Some(alternate) => {
                        proof {
                            assert(decreases_to!(b => b.alternate));
                        }
                        match &**alternate {
                            Alternate::Fragment(f) => fragment_references(f, 0, names),
                            Alternate::IfBlock(inner) => fragment_references(&inner.consequent, 0, names),
                        }
                    },
                    None => Set::empty(),
                },
            ),
            Node::EachBlock(b) => fragment_references(&b.body, 0, names).union(optional_references(&b.fallback, names)),
            Node::AwaitBlock(b) => optional_references(&b.pending, names).union(
                optional_references(&b.then_branch, names),
            ).union(optional_references(&b.catch, names)),
            Node::KeyBlock(b) => fragment_references(&b.fragment, 0, names),
            Node::RegularElement(e) => fragment_references(&e.fragment, 0, names),
            Node::Component(e) => fragment_references(&e.fragment, 0, names),
            Node::SlotElement(e) => fragment_references(&e.fragment, 0, names),
            Node::SvelteHead(e) => fragment_references(&e.fragment, 0, names),
            Node::SvelteBody(e) => fragment_references(&e.fragment, 0, names),
            Node::SvelteWindow(e) => fragment_references(&e.fragment, 0, names),
            Node::SvelteDocument(e) => fragment_references(&e.fragment, 0, names),
            Node::SvelteComponent(e) => fragment_references(&e.fragment, 0, names),
            Node::SvelteElement(e) => fragment_references(&e.fragment, 0, names),
            Node::SvelteSelf(e) => fragment_references(&e.fragment, 0, names),
            Node::SvelteFragment(e) => fragment_references(&e.fragment, 0, names),
            Node::SvelteBoundary(e) => fragment_references(&e.fragment, 0, names),
            Node::TitleElement(e) => fragment_references(&e.fragment, 0, names),
            _ => Set::empty(),
        },
    )
}

/// The names that the `{@const}` tags among `f.nodes[..i]` declare.
pub open spec fn local_const_names(f: &Fragment, i: int) -> Set<Seq<char>>
    decreases i,
{
    if 0 < i <= f.nodes@.len() {
        match f.nodes@[i - 1] {
            Node::ConstTag(tag) => local_const_names(f, i - 1).union(const_names(tag)),
            _ => local_const_names(f, i - 1),
        }
    } else {
        Set::empty()
    }
}

/// The names of `names` that the nodes among `f.nodes[..i]` other than
/// snippets read.
pub open spec fn references_outside_snippets(f: &Fragment, i: int, names: Set<Seq<char>>) -> Set<Seq<char>>
    decreases i,
{
    if 0 < i <= f.nodes@.len() {
        match f.nodes@[i - 1] {
            Node::SnippetBlock(_) => references_outside_snippets(f, i - 1, names),
            _ => references_outside_snippets(f, i - 1, names).union(node_references(&f.nodes@[i - 1], names)),
        }
    } else {
        Set::empty()
    }
}

proof fn lemma_binding_names_are_const_names(
    tag: ConstTag,
    bindings: Seq<(Vec<char>, usize, usize)>,
    names: Seq<Vec<char>>,
)
    requires
        spans_view(bindings) == spec_declared_spans(tag),
        forall|n: Seq<char>| has_name(names, n) <==> binding_named(bindings, bindings.len() as int, n),
    ensures
        names_set(names) == const_names(tag),
{
    assert forall|n: Seq<char>| #[trigger] names_set(names).contains(n) == const_names(tag).contains(n) by {
        assert(has_name(names, n) == binding_named(bindings, bindings.len() as int, n));
        if binding_named(bindings, bindings.len() as int, n) {
            let k = choose|k: int| 0 <= k < bindings.len() && (#[trigger] bindings[k]).0@ == n;
            assert(spans_view(bindings)[k].0 == n);
        }
        if const_names(tag).contains(n) {
            let k = choose|k: int| 0 <= k < spec_declared_spans(tag).len() && (#[trigger] spec_declared_spans(tag)[k]).0 == n;
            assert(spans_view(bindings)[k].0 == bindings[k].0@);
            assert(binding_named(bindings, bindings.len() as int, n));
        }
    }
    assert(names_set(names) =~= const_names(tag));
}

/// Adds to `used` the names of `names` that a node or its descendants read,
/// snippets included.
#[verifier::spinoff_prover]
fn collect_const_references_in_node(node: &Node, names: &Vec<Vec<char>>, used: &mut Vec<Vec<char>>)
    ensures
        names_set(final(used)@) == names_set(old(used)@).union(node_references(node, names_set(names@))),
    decreases node, 1nat,
{
    let ghost start = names_set(used@);
    let none: Vec<Vec<char>> = Vec::new();
    proof {
        assert(names_set(none@) =~= Set::<Seq<char>>::empty());
    }
    if let Some((name, _, _)) = unavailable_in_node(node, names, &none) {
        push_unique(used, name.as_slice());
        proof {
            assert(names_set(used@) =~= start.union(set![name@]));
        }
    }
    proof {
        assert(names_set(used@) =~= start.union(node_reference(node, names_set(names@))));
    }
    match node {
        Node::IfBlock(block) => {
            collect_const_references_in_fragment(&block.consequent, names, used);
            if let Some(alternate) = &block.alternate {
                proof {
                    assert(decreases_to!(block => block.alternate));
                }
                match &**alternate {
                    Alternate::Fragment(f) => collect_const_references_in_fragment(f, names, used),
                    Alternate::IfBlock(b) => collect_const_references_in_fragment(&b.consequent, names, used),
                }
            }
        },
        Node::EachBlock(block) => {
            collect_const_references_in_fragment(&block.body, names, used);
            if let Some(fb) = &block.fallback {
                collect_const_references_in_fragment(fb, names, used);
            }
        },
        Node::AwaitBlock(block) => {
            if let Some(f) = &block.pending {
                collect_const_references_in_fragment(f, names, used);
            }
            if let Some(f) = &block.then_branch {
                collect_const_references_in_fragment(f, names, used);
            }
            if let Some(f) = &block.catch {
                collect_const_references_in_fragment(f, names, used);
            }
        },
        Node::KeyBlock(block) => collect_const_references_in_fragment(&block.fragment, names, used),
        _ => {
            if let Some(f) = crate::template::element_fragment(node) {
                collect_const_references_in_fragment(f, names, used);
            }
        },
    }
}

/// Adds to `used` the names of `names` that the nodes of a fragment read.
fn collect_const_references_in_fragment(fragment: &Fragment, names: &Vec<Vec<char>>, used: &mut Vec<Vec<char>>)
    ensures
        names_set(final(used)@) == names_set(old(used)@).union(fragment_references(fragment, 0, names_set(names@))),
    decreases fragment, 2nat,
{
    let ghost start = names_set(used@);
    let mut i: usize = 0;
    while i < fragment.nodes.len()
        invariant
            i <= fragment.nodes@.len(),
            names_set(used@).union(fragment_references(fragment, i as int, names_set(names@))) == start.union(
                fragment_references(fragment, 0, names_set(names@)),
            ),
        decreases fragment.nodes.len() - i,
    {
        proof {
            assert(decreases_to!(fragment => fragment.nodes));
            assert(decreases_to!(fragment.nodes => fragment.nodes@));
            assert(decreases_to!(fragment.nodes@ => fragment.nodes@[i as int]));
        }
        let ghost before = names_set(used@);
        collect_const_references_in_node(&fragment.nodes[i], names, used);
        proof {
            assert(names_set(used@).union(fragment_references(fragment, i + 1, names_set(names@))) =~= before.union(
                fragment_references(fragment, i as int, names_set(names@)),
            ));
        }
        i += 1;
    }
    proof {
        assert(names_set(used@) =~= names_set(used@).union(fragment_references(fragment, i as int, names_set(names@))));
    }
}

/// The `{@const}` names declared directly in a fragment that nothing outside
/// its snippets reads: a snippet cannot see them.
pub fn unavailable_const_names(fragment: &Fragment) -> (r: Vec<Vec<char>>)
    ensures
        names_set(r@) == local_const_names(fragment, fragment.nodes@.len() as int).difference(
            references_outside_snippets(
                fragment,
                fragment.nodes@.len() as int,
                local_const_names(fragment, fragment.nodes@.len() as int),
            ),
        ),
{
    let mut local: Vec<Vec<char>> = Vec::new();
    let mut i: usize = 0;
    proof {
        assert(names_set(local@) =~= Set::<Seq<char>>::empty());
    }
    while i < fragment.nodes.len()
        invariant
            i <= fragment.nodes@.len(),
            names_set(local@) == local_const_names(fragment, i as int),
        decreases fragment.nodes.len() - i,
    {
        if let Node::ConstTag(tag) = &fragment.nodes[i] {
            let bindings = const_tag_declared_bindings(tag);
            let b = binding_names(&bindings);
            proof {
                lemma_binding_names_are_const_names(*tag, bindings@, b@);
            }
            extend_names(&mut local, &b);
        }
        i += 1;
    }
    let ghost all = local_const_names(fragment, fragment.nodes@.len() as int);
    if local.len() == 0 {
        proof {
            assert(names_set(local@) =~= Set::<Seq<char>>::empty());
            assert(names_set(local@) =~= all.difference(
                references_outside_snippets(fragment, fragment.nodes@.len() as int, all),
            ));
        }
        return local;
    }
    let mut used: Vec<Vec<char>> = Vec::new();
    let mut i: usize = 0;
    proof {
        assert(names_set(used@) =~= Set::<Seq<char>>::empty());
    }
    while i < fragment.nodes.len()
        invariant
            i <= fragment.nodes@.len(),
            names_set(local@) == all,
            names_set(used@) == references_outside_snippets(fragment, i as int, all),
        decreases fragment.nodes.len() - i,
    {
        if let Node::SnippetBlock(_) = &fragment.nodes[i] {
        } else {
            collect_const_references_in_node(&fragment.nodes[i], &local, &mut used);
        }
        i += 1;
    }
    let mut out: Vec<Vec<char>> = Vec::new();
    let mut k: usize = 0;
    while k < local.len()
        invariant
            k <= local@.len(),
            forall|x: Seq<char>|
                #![trigger has_name(out@, x)]
                has_name(out@, x) <==> (exists|j: int| 0 <= j < k && (#[trigger] local@[j])@ == x) && !has_name(used@, x),
        decreases local.len() - k,
    {
        let ghost before = out@;
        if !contains_name(&used, local[k].as_slice()) {
            out.push(crate::text::copy_chars(local[k].as_slice()));
        }
        proof {
            assert forall|x: Seq<char>| #[trigger] has_name(out@, x) <==> (exists|j: int|
                0 <= j < k + 1 && (#[trigger] local@[j])@ == x) && !has_name(used@, x) by {
                if has_name(out@, x) && !has_name(before, x) {
                    let m = choose|m: int| 0 <= m < out@.len() && (#[trigger] out@[m])@ == x;
                    assert(m == before.len());
                    assert(local@[k as int]@ == x);
                }
                if has_name(before, x) {
                    let m = choose|m: int| 0 <= m < before.len() && (#[trigger] before[m])@ == x;
                    assert(out@[m] == before[m]);
                }
                if (exists|j: int| 0 <= j < k + 1 && (#[trigger] local@[j])@ == x) && !has_name(used@, x) {
                    let j = choose|j: int| 0 <= j < k + 1 && (#[trigger] local@[j])@ == x;
                    if j < k {
                        assert(0 <= j < k && local@[j]@ == x);
                    } else {
                        assert(out@[out@.len() - 1]@ == x);
                    }
                }
            }
        }
        k += 1;
    }
    proof {
        assert forall|x: Seq<char>| #[trigger] names_set(out@).contains(x) == all.difference(
            references_outside_snippets(fragment, fragment.nodes@.len() as int, all),
        ).contains(x) by {
            assert(names_set(out@).contains(x) == has_name(out@, x));
            assert(names_set(local@).contains(x) == has_name(local@, x));
            assert(names_set(used@).contains(x) == has_name(used@, x));
        }
        assert(names_set(out@) =~= all.difference(
            references_outside_snippets(fragment, fragment.nodes@.len() as int, all),
        ));
    }
    out
}

/// Whether a snippet is named `failed` or `pending`.
pub open spec fn boundary_snippet_name(b: crate::ast::SnippetBlock) -> bool {
    crate::bindings::spec_identifier(b.expression.0) == Some("failed"@) || crate::bindings::spec_identifier(
        b.expression.0,
    ) == Some("pending"@)
}

/// The message for a snippet that reads the `{@const}` name `name` it cannot see.
pub open spec fn invalid_reference_message(name: Seq<char>) -> Seq<char> {
    "The `{@const "@ + name + " = ...}` declaration is not available in this snippet"@
}

/// The error for the first snippet among `f.nodes[i..]` that reads a name
/// of `unavailable` that its parameters do not bind; in a boundary outside
/// asynchronous mode, the `failed` and `pending` snippets are not checked.
pub open spec fn snippet_reference_from(
    f: &Fragment,
    i: int,
    unavailable: Set<Seq<char>>,
    boundary: bool,
    async_mode: bool,
) -> Option<ErrorView>
    decreases f.nodes@.len() - i,
{
    if 0 <= i < f.nodes@.len() {
        match f.nodes@[i] {
            Node::SnippetBlock(b) => if !(!async_mode && boundary && boundary_snippet_name(b)) {
                match fragment_unavailable_from(
                    &b.body,
                    0,
                    unavailable,
                    parameters_names(b.parameters@, b.parameters@.len() as int),
                ) {
                    Some((name, s, e)) => Some(("const_tag_invalid_reference"@, invalid_reference_message(name), s, e)),
                    None => snippet_reference_from(f, i + 1, unavailable, boundary, async_mode),
                }
            } else {
                snippet_reference_from(f, i + 1, unavailable, boundary, async_mode)
            },
            _ => snippet_reference_from(f, i + 1, unavailable, boundary, async_mode),
        }
    } else {
        None
    }
}

/// The `{@const}` names of a fragment that its snippets cannot see.
pub open spec fn snippet_unavailable_names(f: &Fragment) -> Set<Seq<char>> {
    let local = local_const_names(f, f.nodes@.len() as int);
    local.difference(references_outside_snippets(f, f.nodes@.len() as int, local))
}

/// The error for a snippet, directly in a component or boundary, that reads
/// a `{@const}` of that component or boundary which it cannot see.
pub open spec fn spec_const_invalid_reference(f: &Fragment, owner: ConstOwner, async_mode: bool) -> Option<ErrorView> {
    let boundary = match owner {
        ConstOwner::Boundary => true,
        _ => false,
    };
    if (owner is Component || owner is Boundary) && snippet_unavailable_names(f) != Set::<Seq<char>>::empty() {
        snippet_reference_from(f, 0, snippet_unavailable_names(f), boundary, async_mode)
    } else {
        None
    }
}

/// The error for a snippet, directly in a component or boundary, that reads
/// a `{@const}` of that component or boundary which it cannot see. The
/// `failed` and `pending` snippets of a boundary may read them.
pub fn detect_const_tag_invalid_reference(fragment: &Fragment, owner: ConstOwner, async_mode: bool) -> (r: Option<
    CompileError,
>)
    ensures
        r matches Some(e) ==> e.code == "const_tag_invalid_reference",
        option_error_view(r) == spec_const_invalid_reference(fragment, owner, async_mode),
{
    let boundary = match owner {
        ConstOwner::Component => false,
        ConstOwner::Boundary => true,
        _ => return None,
    };
    let unavailable = unavailable_const_names(fragment);
    if unavailable.len() == 0 {
        proof {
            assert(names_set(unavailable@) =~= Set::<Seq<char>>::empty());
        }
        return None;
    }
    proof {
        assert(names_set(unavailable@).contains(unavailable@[0]@));
    }
    let mut i: usize = 0;
    while i < fragment.nodes.len()
        invariant
            i <= fragment.nodes@.len(),
            names_set(unavailable@) == snippet_unavailable_names(fragment),
            snippet_unavailable_names(fragment) != Set::<Seq<char>>::empty(),
            boundary == (owner is Boundary),
            owner is Component || owner is Boundary,
            spec_const_invalid_reference(fragment, owner, async_mode) == snippet_reference_from(
                fragment,
                i as int,
                snippet_unavailable_names(fragment),
                boundary,
                async_mode,
            ),
        decreases fragment.nodes.len() - i,
    {
        if let Node::SnippetBlock(block) = &fragment.nodes[i] {
            let special = match crate::estree::identifier_name(&block.expression.0) {
                Some(n) => text_is(n.as_slice(), "failed") || text_is(n.as_slice(), "pending"),
                None => false,
            };
            if !(!async_mode && boundary && special) {
                let mut available: Vec<Vec<char>> = Vec::new();
                let mut k: usize = 0;
                proof {
                    assert(names_set(available@) =~= parameters_names(block.parameters@, 0));
                }
                while k < block.parameters.len()
                    invariant
                        k <= block.parameters@.len(),
                        names_set(available@) == parameters_names(block.parameters@, k as int),
                    decreases block.parameters.len() - k,
                {
                    let ghost before_vec = available@;
                    collect_binding_names(&block.parameters[k].0, &mut available);
                    proof {
                        assert forall|n: Seq<char>| #[trigger] names_set(available@).contains(n) == parameters_names(
                            block.parameters@,
                            k + 1,
                        ).contains(n) by {
                            assert(names_set(available@).contains(n) == has_name(available@, n));
                            assert(names_set(before_vec).contains(n) == has_name(before_vec, n));
                            if parameters_names(block.parameters@, k + 1).contains(n) {
                                let j = choose|j: int|
                                    0 <= j < k + 1 && crate::bindings::pattern_binds((#[trigger] block.parameters@[j]).0, n);
                                if j < k {
                                    assert(0 <= j < k && crate::bindings::pattern_binds(block.parameters@[j].0, n));
                                }
                            }
                            if crate::bindings::pattern_binds(block.parameters@[k as int].0, n) {
                                assert(0 <= k < k + 1 && crate::bindings::pattern_binds(block.parameters@[k as int].0, n));
                            }
                            if parameters_names(block.parameters@, k as int).contains(n) {
                                let j = choose|j: int|
                                    0 <= j < k && crate::bindings::pattern_binds((#[trigger] block.parameters@[j]).0, n);
                                assert(0 <= j < k + 1 && crate::bindings::pattern_binds(block.parameters@[j].0, n));
                            }
                        }
                        assert(names_set(available@) =~= parameters_names(block.parameters@, k + 1));
                    }
                    k += 1;
                }
                if let Some((name, s, e)) = find_unavailable_const_reference_in_fragment(&block.body, &unavailable, &available) {
                    return Some(
                        compile_error_custom(
                            "const_tag_invalid_reference",
                            message3("The `{@const ", name.as_slice(), " = ...}` declaration is not available in this snippet"),
                            s,
                            e,
                        ),
                    );
                }
            }
        }
        i += 1;
    }
    None
}

/// The names a fragment sees: those inherited from outside and those of
/// the fragment's own parent level.
pub struct ConstScope {
    pub inherited: Vec<Vec<char>>,
    pub current: Vec<Vec<char>>,
}

impl ConstScope {
    /// The scope of a child fragment: everything visible here is inherited.
    pub fn child(&self, local: &Vec<Vec<char>>) -> (s: ConstScope)
        ensures
            names_set(s.inherited@) == names_set(self.inherited@).union(names_set(self.current@)).union(
                names_set(local@),
            ),
            names_set(s.current@) == Set::<Seq<char>>::empty(),
    {
        let mut inherited = copy_names(&self.inherited);
        extend_names(&mut inherited, &self.current);
        extend_names(&mut inherited, local);
        let current: Vec<Vec<char>> = Vec::new();
        proof {
            assert(names_set(current@) =~= Set::<Seq<char>>::empty());
        }
        ConstScope { inherited, current }
    }

    /// The names that a declaration here may not repeat.
    pub fn current_visible(&self, local: &Vec<Vec<char>>) -> (v: Vec<Vec<char>>)
        ensures
            names_set(v@) == names_set(self.current@).union(names_set(local@)),
    {
        let mut v = copy_names(&self.current);
        extend_names(&mut v, local);
        v
    }

    /// The scope of a snippet's body: what the snippet sees, plus its
    /// parameters as the current level. A snippet directly in a component or
    /// boundary does not see that level's names.
    pub fn snippet(&self, local: &Vec<Vec<char>>, parameters: &Vec<Expression>, owner: ConstOwner) -> (s: ConstScope)
        ensures
            names_set(s.inherited@) == (if owner is Component || owner is Boundary {
                names_set(self.inherited@)
            } else {
                names_set(self.inherited@).union(names_set(self.current@)).union(names_set(local@))
            }),
            forall|n: Seq<char>|
                #![trigger crate::bindings::has_name(s.current@, n)]
                crate::bindings::has_name(s.current@, n) <==> exists|k: int|
                    0 <= k < parameters@.len() && crate::bindings::pattern_binds((#[trigger] parameters@[k]).0, n),
            names_set(s.current@) == parameters_names(parameters@, parameters@.len() as int),
    {
        let mut inherited = copy_names(&self.inherited);
        assert(names_set(inherited@) =~= names_set(self.inherited@)) by {
            assert forall|n: Seq<char>| names_set(self.inherited@).contains(n) implies names_set(inherited@).contains(n) by {
                let i = choose|i: int| 0 <= i < self.inherited@.len() && (#[trigger] self.inherited@[i])@ == n;
                assert(inherited@[i]@ == n);
            }
        }
        let hides = match owner {
            ConstOwner::Component | ConstOwner::Boundary => true,
            _ => false,
        };
        if !hides {
            extend_names(&mut inherited, &self.current);
            extend_names(&mut inherited, local);
        }
        let mut current: Vec<Vec<char>> = Vec::new();
        let mut k: usize = 0;
        while k < parameters.len()
            invariant
                k <= parameters@.len(),
                forall|n: Seq<char>|
                    #![trigger crate::bindings::has_name(current@, n)]
                    crate::bindings::has_name(current@, n) <==> exists|m: int|
                        0 <= m < k && crate::bindings::pattern_binds((#[trigger] parameters@[m]).0, n),
            decreases parameters.len() - k,
        {
            let ghost before = current@;
            let ghost kk = k as int;
            collect_binding_names(&parameters[k].0, &mut current);
            proof {
                assert forall|n: Seq<char>|
                    #![trigger crate::bindings::has_name(current@, n)]
                    crate::bindings::has_name(current@, n) <==> exists|m: int|
                        0 <= m < kk + 1 && crate::bindings::pattern_binds((#[trigger] parameters@[m]).0, n) by {
                    assert(crate::bindings::has_name(before, n) <==> exists|m: int|
                        0 <= m < kk && crate::bindings::pattern_binds((#[trigger] parameters@[m]).0, n));
                    if exists|m: int| 0 <= m < kk + 1 && crate::bindings::pattern_binds((#[trigger] parameters@[m]).0, n) {
                        let m = choose|m: int| 0 <= m < kk + 1 && crate::bindings::pattern_binds((#[trigger] parameters@[m]).0, n);
                        if m < kk {
                            assert(0 <= m < kk && crate::bindings::pattern_binds(parameters@[m].0, n));
                        }
                    }
                }
            }
            k += 1;
        }
        ConstScope { inherited, current }
    }
}

/// The first of the identifiers `ds[k..]` that `visible` holds already.
pub open spec fn first_duplicate_binding(ds: Seq<SpanView>, k: int, visible: Set<Seq<char>>) -> Option<SpanView>
    decreases ds.len() - k,
{
    if 0 <= k < ds.len() {
        if visible.contains(ds[k].0) {
            Some(ds[k])
        } else {
            first_duplicate_binding(ds, k + 1, visible)
        }
    } else {
        None
    }
}

/// Whether `{@const}` may stand directly in a fragment held by `owner`.
pub open spec fn spec_owner_allows(owner: ConstOwner) -> bool {
    match owner {
        ConstOwner::Root => false,
        ConstOwner::Element { slot_parent } => slot_parent,
        _ => true,
    }
}

/// The error of a `{@const}` tag itself, with `visible` the names that a
/// declaration there may not repeat: its placement, a sequence expression,
/// a name declared already, a rune.
pub open spec fn const_tag_error(tag: ConstTag, owner: ConstOwner, visible: Set<Seq<char>>) -> Option<ErrorView> {
    if !spec_owner_allows(owner) {
        Some(("const_tag_invalid_placement"@, "`{@const}` must be the immediate child of `{#snippet}`, `{#if}`, `{:else if}`, `{:else}`, `{#each}`, `{:then}`, `{:catch}`, `<svelte:fragment>`, `<svelte:boundary>` or `<Component>`"@, tag.start as int, tag.end as int))
    } else {
        match spec_invalid_expression_span(tag) {
            Some((s, e)) => Some(crate::diagnostics::kind_error_view(CompilerDiagnosticKind::ConstTagInvalidExpression, s, e)),
            None => match first_duplicate_binding(spec_declared_spans(tag), 0, visible) {
                Some(b) => Some(
                    ("declaration_duplicate"@, "`"@ + b.0 + "` has already been declared"@, b.1 as int, b.2 as int),
                ),
                None => match spec_const_rune_usage(tag) {
                    Some((kind, s, e)) => Some(crate::diagnostics::kind_error_view(kind, s, e)),
                    None => None,
                },
            },
        }
    }
}

/// A `{@const}` directly at the top of the template, or directly inside a
/// plain element without a `slot` attribute, is reported as misplaced over
/// its own range, before anything else about it; inside blocks, snippets,
/// components, `<svelte:fragment>`, `<svelte:boundary>` and slotted
/// elements it may stand, and what is reported does not depend on which.
pub proof fn lemma_const_placement(tag: ConstTag, owner: ConstOwner, visible: Set<Seq<char>>)
    ensures
        (owner is Root || owner == (ConstOwner::Element { slot_parent: false })) ==> (const_tag_error(tag, owner, visible) matches Some(
            e,
        ) && e.0 == "const_tag_invalid_placement"@ && e.2 == tag.start as int && e.3 == tag.end as int),
        (owner is If || owner is Each || owner is Await || owner is Snippet || owner is Key || owner is Component
            || owner is Fragment || owner is Boundary || owner == (ConstOwner::Element { slot_parent: true }))
            ==> const_tag_error(tag, owner, visible) == const_tag_error(tag, ConstOwner::If, visible),
{
    reveal_strlit("const_tag_invalid_placement");
    reveal_strlit("declaration_duplicate");
    reveal_strlit("const_tag_invalid_expression");
}

/// The `{@const}` errors of a fragment held by `owner`, with `inherited` and
/// `current` the names seen from outside and at the parent level: a cycle,
/// then a reference from a snippet, then the tags and descendants in order.
pub open spec fn spec_const_errors(
    f: &Fragment,
    owner: ConstOwner,
    inherited: Set<Seq<char>>,
    current: Set<Seq<char>>,
    async_mode: bool,
) -> Option<ErrorView>
    decreases f, 3int, 0int,
{
    match spec_const_cycle(f) {
        Some((c, s, e)) => Some(("const_tag_cycle"@, crate::deps::cycle_error_message(c), s as int, e as int)),
        None => match spec_const_invalid_reference(f, owner, async_mode) {
            Some(x) => Some(x),
            None => const_errors_from(f, 0, owner, inherited, current, Set::empty(), async_mode),
        },
    }
}

/// The errors among `f.nodes[i..]`, with `local` the names that the
/// `{@const}` tags before them declared.
pub open spec fn const_errors_from(
    f: &Fragment,
    i: int,
    owner: ConstOwner,
    inherited: Set<Seq<char>>,
    current: Set<Seq<char>>,
    local: Set<Seq<char>>,
    async_mode: bool,
) -> Option<ErrorView>
    decreases f, 2int, f.nodes@.len() - i,
{
    if 0 <= i < f.nodes@.len() {
        proof {
            assert(decreases_to!(f => f.nodes));
            assert(decreases_to!(f.nodes => f.nodes@));
            assert(decreases_to!(f.nodes@ => f.nodes@[i]));
        }
        match f.nodes@[i] {
            Node::ConstTag(tag) => match const_tag_error(tag, owner, current.union(local)) {
                Some(x) => Some(x),
                None => const_errors_from(f, i + 1, owner, inherited, current, local.union(const_names(tag)), async_mode),
            },
            _ => match children_const_errors(&f.nodes@[i], owner, inherited, current, local, async_mode) {
                Some(x) => Some(x),
                None => const_errors_from(f, i + 1, owner, inherited, current, local, async_mode),
            },
        }
    } else {
        None
    }
}

/// The errors of an optional fragment.
pub open spec fn optional_const_errors(
    f: &Option<Fragment>,
    owner: ConstOwner,
    inherited: Set<Seq<char>>,
    current: Set<Seq<char>>,
    async_mode: bool,
) -> Option<ErrorView>
    decreases f, 4int, 0int,
{
    match f {
        Some(fr) => spec_const_errors(fr, owner, inherited, current, async_mode),
        None => None,
    }
}

/// The names that an optional binding pattern binds.
pub open spec fn optional_pattern_names(p: Option<Expression>) -> Set<Seq<char>> {
    match p {
        Some(x) => pattern_names(x.0),
        None => Set::empty(),
    }
}

/// The errors inside the fragments a node holds. A child fragment inherits
/// everything visible here; an `{#each}` body, a `{:then}` and a `{:catch}`
/// see their bindings at their own level, a snippet body its parameters; a
/// snippet directly in a component or boundary does not see that level.
pub open spec fn children_const_errors(
    node: &Node,
    owner: ConstOwner,
    inherited: Set<Seq<char>>,
    current: Set<Seq<char>>,
    local: Set<Seq<char>>,
    async_mode: bool,
) -> Option<ErrorView>
    decreases node, 1int, 0int,
{
    let inh = inherited.union(current).union(local);
    let none = Set::<Seq<char>>::empty();
    match node {
        Node::IfBlock(b) => if_const_errors(b, inh, async_mode),
        Node::EachBlock(b) => each_const_errors(b, inh, async_mode),
        Node::AwaitBlock(b) => await_const_errors(b, inh, async_mode),
        Node::SnippetBlock(b) => spec_const_errors(
            &b.body,
            ConstOwner::Snippet,
            if owner is Component || owner is Boundary {
                inherited
            } else {
                inh
            },
            parameters_names(b.parameters@, b.parameters@.len() as int),
            async_mode,
        ),
        Node::KeyBlock(b) => spec_const_errors(&b.fragment, ConstOwner::Key, inh, none, async_mode),
        Node::RegularElement(e) => spec_const_errors(&e.fragment, element_owner(e.attributes@), inh, none, async_mode),
        Node::SlotElement(e) => spec_const_errors(&e.fragment, element_owner(e.attributes@), inh, none, async_mode),
        Node::SvelteHead(e) => spec_const_errors(&e.fragment, element_owner(e.attributes@), inh, none, async_mode),
        Node::SvelteBody(e) => spec_const_errors(&e.fragment, element_owner(e.attributes@), inh, none, async_mode),
        Node::SvelteWindow(e) => spec_const_errors(&e.fragment, element_owner(e.attributes@), inh, none, async_mode),
        Node::SvelteDocument(e) => spec_const_errors(&e.fragment, element_owner(e.attributes@), inh, none, async_mode),
        Node::SvelteElement(e) => spec_const_errors(&e.fragment, element_owner(e.attributes@), inh, none, async_mode),
        Node::TitleElement(e) => spec_const_errors(&e.fragment, element_owner(e.attributes@), inh, none, async_mode),
        Node::Component(e) => spec_const_errors(&e.fragment, ConstOwner::Component, inh, none, async_mode),
        Node::SvelteComponent(e) => spec_const_errors(&e.fragment, ConstOwner::Component, inh, none, async_mode),
        Node::SvelteSelf(e) => spec_const_errors(&e.fragment, ConstOwner::Component, inh, none, async_mode),
        Node::SvelteFragment(e) => spec_const_errors(&e.fragment, ConstOwner::Fragment, inh, none, async_mode),
        Node::SvelteBoundary(e) => spec_const_errors(&e.fragment, ConstOwner::Boundary, inh, none, async_mode),
        _ => None,
    }
}

/// The errors of an `{#if}` block's branches, which inherit `inh`.
pub open spec fn if_const_errors(b: &crate::ast::IfBlock, inh: Set<Seq<char>>, async_mode: bool) -> Option<ErrorView>
    decreases b, 0int, 0int,
{
    let none = Set::<Seq<char>>::empty();
    match spec_const_errors(&b.consequent, ConstOwner::If, inh, none, async_mode) {
        Some(x) => Some(x),
        None => match &b.alternate {
            Some(alternate) => {
                proof {
                    assert(decreases_to!(b => b.alternate));
                }
                match &**alternate {
                    Alternate::Fragment(f) => spec_const_errors(f, ConstOwner::If, inh, none, async_mode),
                    Alternate::IfBlock(inner) => spec_const_errors(&inner.consequent, ConstOwner::If, inh, none, async_mode),
                }
            },
            None => None,
        },
    }
}

/// The names an `{#each}` block's body sees at its own level: its context's
/// and its index.
pub open spec fn each_current(b: crate::ast::EachBlock) -> Set<Seq<char>> {
    match b.index {
        Some(index) => optional_pattern_names(b.context).insert(index@),
        None => optional_pattern_names(b.context),
    }
}

/// The errors of an `{#each}` block's body, then its fallback.
pub open spec fn each_const_errors(b: &crate::ast::EachBlock, inh: Set<Seq<char>>, async_mode: bool) -> Option<ErrorView>
    decreases b, 0int, 0int,
{
    match spec_const_errors(&b.body, ConstOwner::Each, inh, each_current(*b), async_mode) {
        Some(x) => Some(x),
        None => optional_const_errors(&b.fallback, ConstOwner::Each, inh, Set::empty(), async_mode),
    }
}

/// The errors of an `{#await}` block's pending, `{:then}` and `{:catch}` branches.
pub open spec fn await_const_errors(b: &crate::ast::AwaitBlock, inh: Set<Seq<char>>, async_mode: bool) -> Option<ErrorView>
    decreases b, 0int, 0int,
{
    match optional_const_errors(&b.pending, ConstOwner::Await, inh, Set::empty(), async_mode) {
        Some(x) => Some(x),
        None => match optional_const_errors(&b.then_branch, ConstOwner::Await, inh, optional_pattern_names(b.value), async_mode) {
            Some(x) => Some(x),
            None => optional_const_errors(&b.catch, ConstOwner::Await, inh, optional_pattern_names(b.error), async_mode),
        },
    }
}

/// What holds the fragment of a plain element: it may hold `{@const}` when
/// it has a `slot` attribute.
pub open spec fn element_owner(attributes: Seq<Attribute>) -> ConstOwner {
    ConstOwner::Element {
        slot_parent: exists|i: int| 0 <= i < attributes.len() && (#[trigger] attributes[i] matches Attribute::Attribute(a) && a.name@ == "slot"@),
    }
}

/// The `{@const}` errors of a fragment held by `owner`, then of its
/// descendants, in document order: cycles, references from snippets,
/// placement, sequence expressions, duplicate names and runes.
pub fn detect_const_tag_errors_in_fragment(fragment: &Fragment, owner: ConstOwner, scope: &ConstScope, async_mode: bool) -> (r:
    Option<CompileError>)
    ensures
        option_error_view(r) == spec_const_errors(
            fragment,
            owner,
            names_set(scope.inherited@),
            names_set(scope.current@),
            async_mode,
        ),
    decreases fragment, 2nat,
{
    let found_cycle = find_const_cycle(fragment);
    if let Some((cycle, s, e)) = found_cycle {
        return Some(compile_error_custom("const_tag_cycle", cycle_message(&cycle), s, e));
    }
    if let Some(e) = detect_const_tag_invalid_reference(fragment, owner, async_mode) {
        return Some(e);
    }
    let ghost inh = names_set(scope.inherited@);
    let ghost cur = names_set(scope.current@);
    let mut local: Vec<Vec<char>> = Vec::new();
    proof {
        assert(names_set(local@) =~= Set::<Seq<char>>::empty());
    }
    let mut i: usize = 0;
    while i < fragment.nodes.len()
        invariant
            i <= fragment.nodes@.len(),
            inh == names_set(scope.inherited@),
            cur == names_set(scope.current@),
            spec_const_errors(fragment, owner, inh, cur, async_mode) == const_errors_from(
                fragment,
                i as int,
                owner,
                inh,
                cur,
                names_set(local@),
                async_mode,
            ),
        decreases fragment.nodes.len() - i,
    {
        proof {
            assert(decreases_to!(fragment => fragment.nodes));
            assert(decreases_to!(fragment.nodes => fragment.nodes@));
            assert(decreases_to!(fragment.nodes@ => fragment.nodes@[i as int]));
        }
        let node = &fragment.nodes[i];
        if let Node::ConstTag(tag) = node {
            let visible = scope.current_visible(&local);
            if !const_owner_allows_declaration(owner) {
                return Some(
                    compile_error_custom(
                        "const_tag_invalid_placement",
                        chars_of(
                            "`{@const}` must be the immediate child of `{#snippet}`, `{#if}`, `{:else if}`, `{:else}`, `{#each}`, `{:then}`, `{:catch}`, `<svelte:fragment>`, `<svelte:boundary>` or `<Component>`",
                        ),
                        tag.start,
                        tag.end,
                    ),
                );
            }
            if let Some((s, e)) = const_tag_invalid_expression_span(tag) {
                return Some(compile_error_with_range(CompilerDiagnosticKind::ConstTagInvalidExpression, s, e));
            }
            let bindings = const_tag_declared_bindings(tag);
            let mut k: usize = 0;
            while k < bindings.len()
                invariant
                    k <= bindings@.len(),
                    spans_view(bindings@) == spec_declared_spans(*tag),
                    names_set(visible@) == cur.union(names_set(local@)),
                    cur == names_set(scope.current@),
                    inh == names_set(scope.inherited@),
                    spec_owner_allows(owner),
                    spec_invalid_expression_span(*tag) is None,
                    fragment.nodes@[i as int] == Node::ConstTag(*tag),
                    i < fragment.nodes@.len(),
                    spec_const_errors(fragment, owner, inh, cur, async_mode) == const_errors_from(
                        fragment,
                        i as int,
                        owner,
                        inh,
                        cur,
                        names_set(local@),
                        async_mode,
                    ),
                    first_duplicate_binding(spec_declared_spans(*tag), 0, names_set(visible@)) == first_duplicate_binding(
                        spec_declared_spans(*tag),
                        k as int,
                        names_set(visible@),
                    ),
                decreases bindings.len() - k,
            {
                proof {
                    crate::bindings::lemma_has_name_view(visible@, bindings@[k as int].0@);
                    assert(names_set(visible@).contains(bindings@[k as int].0@) == has_name(visible@, bindings@[k as int].0@));
                    assert(spans_view(bindings@)[k as int] == (bindings@[k as int].0@, bindings@[k as int].1, bindings@[k as int].2));
                }
                if contains_name(&visible, bindings[k].0.as_slice()) {
                    proof {
                        assert(first_duplicate_binding(spec_declared_spans(*tag), k as int, names_set(visible@)) == Some(
                            spec_declared_spans(*tag)[k as int],
                        ));
                    }
                    return Some(
                        compile_error_custom(
                            "declaration_duplicate",
                            message3("`", bindings[k].0.as_slice(), "` has already been declared"),
                            bindings[k].1,
                            bindings[k].2,
                        ),
                    );
                }
                k += 1;
            }
            if let Some((kind, s, e)) = find_const_tag_invalid_rune_usage(tag) {
                return Some(compile_error_with_range(kind, s, e));
            }
            let b = binding_names(&bindings);
            proof {
                lemma_binding_names_are_const_names(*tag, bindings@, b@);
            }
            extend_names(&mut local, &b);
        } else if let Some(e) = detect_const_tag_errors_in_children(node, owner, scope, &local, async_mode) {
            return Some(e);
        }
        i += 1;
    }
    None
}

/// The `{@const}` errors of an `{#if}` block's branches, in the scope `child`.
fn const_errors_in_if(block: &crate::ast::IfBlock, child: &ConstScope, async_mode: bool) -> (r: Option<CompileError>)
    requires
        names_set(child.current@) == Set::<Seq<char>>::empty(),
    ensures
        option_error_view(r) == if_const_errors(block, names_set(child.inherited@), async_mode),
    decreases block, 0nat,
{
    if let Some(e) = detect_const_tag_errors_in_fragment(&block.consequent, ConstOwner::If, child, async_mode) {
        return Some(e);
    }
    match &block.alternate {
        Some(alternate) => {
            proof {
                assert(decreases_to!(block => block.alternate));
            }
            match &**alternate {
                Alternate::Fragment(f) => detect_const_tag_errors_in_fragment(f, ConstOwner::If, child, async_mode),
                Alternate::IfBlock(b) => detect_const_tag_errors_in_fragment(&b.consequent, ConstOwner::If, child, async_mode),
            }
        },
        None => None,
    }
}

/// The scope of a child fragment in which a binding pattern, if any, binds
/// names at the child's own level.
fn scope_with_pattern(scope: &ConstScope, local: &Vec<Vec<char>>, pattern: &Option<Expression>) -> (child: ConstScope)
    ensures
        names_set(child.inherited@) == names_set(scope.inherited@).union(names_set(scope.current@)).union(
            names_set(local@),
        ),
        names_set(child.current@) == optional_pattern_names(*pattern),
{
    let mut child = scope.child(local);
    if let Some(c) = pattern {
        let ghost before = child.current@;
        proof {
            assert forall|n: Seq<char>| !has_name(before, n) by {
                assert(!names_set(before).contains(n));
            }
        }
        collect_binding_names(&c.0, &mut child.current);
        proof {
            assert forall|n: Seq<char>| #[trigger] names_set(child.current@).contains(n) == pattern_names(c.0).contains(n) by {
                assert(names_set(child.current@).contains(n) == has_name(child.current@, n));
            }
            assert(names_set(child.current@) =~= pattern_names(c.0));
        }
    }
    child
}

/// The scope of an `{#each}` block's body.
fn each_body_scope(block: &crate::ast::EachBlock, scope: &ConstScope, local: &Vec<Vec<char>>) -> (child: ConstScope)
    ensures
        names_set(child.inherited@) == names_set(scope.inherited@).union(names_set(scope.current@)).union(
            names_set(local@),
        ),
        names_set(child.current@) == each_current(*block),
{
    let mut child = scope_with_pattern(scope, local, &block.context);
    let ghost with_context = names_set(child.current@);
    if let Some(index) = &block.index {
        push_unique(&mut child.current, index.as_slice());
        proof {
            assert(names_set(child.current@) =~= with_context.insert(index@));
        }
    }
    child
}

/// The `{@const}` errors of an optional fragment.
fn const_errors_in_optional(
    f: &Option<Fragment>,
    owner: ConstOwner,
    scope: &ConstScope,
    async_mode: bool,
) -> (r: Option<CompileError>)
    ensures
        option_error_view(r) == optional_const_errors(
            f,
            owner,
            names_set(scope.inherited@),
            names_set(scope.current@),
            async_mode,
        ),
    decreases f, 3nat,
{
    match f {
        Some(fr) => detect_const_tag_errors_in_fragment(fr, owner, scope, async_mode),
        None => None,
    }
}

/// The `{@const}` errors of an `{#each}` block's body and fallback.
fn const_errors_in_each(block: &crate::ast::EachBlock, scope: &ConstScope, local: &Vec<Vec<char>>, async_mode: bool) -> (r:
    Option<CompileError>)
    ensures
        option_error_view(r) == each_const_errors(
            block,
            names_set(scope.inherited@).union(names_set(scope.current@)).union(names_set(local@)),
            async_mode,
        ),
    decreases block, 0nat,
{
    let child = each_body_scope(block, scope, local);
    let body = detect_const_tag_errors_in_fragment(&block.body, ConstOwner::Each, &child, async_mode);
    if body.is_some() {
        return body;
    }
    const_errors_in_optional(&block.fallback, ConstOwner::Each, &scope.child(local), async_mode)
}

/// The `{@const}` errors of an `{#await}` block's branches.
fn const_errors_in_await(block: &crate::ast::AwaitBlock, scope: &ConstScope, local: &Vec<Vec<char>>, async_mode: bool) -> (r:
    Option<CompileError>)
    ensures
        option_error_view(r) == await_const_errors(
            block,
            names_set(scope.inherited@).union(names_set(scope.current@)).union(names_set(local@)),
            async_mode,
        ),
    decreases block, 0nat,
{
    let pending = const_errors_in_optional(&block.pending, ConstOwner::Await, &scope.child(local), async_mode);
    if pending.is_some() {
        return pending;
    }
    let then_errors = const_errors_in_optional(
        &block.then_branch,
        ConstOwner::Await,
        &scope_with_pattern(scope, local, &block.value),
        async_mode,
    );
    if then_errors.is_some() {
        return then_errors;
    }
    const_errors_in_optional(&block.catch, ConstOwner::Await, &scope_with_pattern(scope, local, &block.error), async_mode)
}

/// The `{@const}` errors inside the fragments a node holds.
#[verifier::spinoff_prover]
fn detect_const_tag_errors_in_children(
    node: &Node,
    owner: ConstOwner,
    scope: &ConstScope,
    local: &Vec<Vec<char>>,
    async_mode: bool,
) -> (r: Option<CompileError>)
    ensures
        option_error_view(r) == children_const_errors(
            node,
            owner,
            names_set(scope.inherited@),
            names_set(scope.current@),
            names_set(local@),
            async_mode,
        ),
    decreases node, 1nat,
{
    match node {
        Node::IfBlock(block) => const_errors_in_if(block, &scope.child(local), async_mode),
        Node::EachBlock(block) => const_errors_in_each(block, scope, local, async_mode),
        Node::AwaitBlock(block) => const_errors_in_await(block, scope, local, async_mode),
        Node::SnippetBlock(block) => {
            let child = scope.snippet(local, &block.parameters, owner);
            detect_const_tag_errors_in_fragment(&block.body, ConstOwner::Snippet, &child, async_mode)
        },
        Node::KeyBlock(block) => detect_const_tag_errors_in_fragment(&block.fragment, ConstOwner::Key, &scope.child(local), async_mode),
        Node::RegularElement(e) => detect_const_tag_errors_in_fragment(&e.fragment, const_owner(node, &e.attributes), &scope.child(local), async_mode),
        Node::SlotElement(e) => detect_const_tag_errors_in_fragment(&e.fragment, const_owner(node, &e.attributes), &scope.child(local), async_mode),
        Node::SvelteHead(e) => detect_const_tag_errors_in_fragment(&e.fragment, const_owner(node, &e.attributes), &scope.child(local), async_mode),
        Node::SvelteBody(e) => detect_const_tag_errors_in_fragment(&e.fragment, const_owner(node, &e.attributes), &scope.child(local), async_mode),
        Node::SvelteWindow(e) => detect_const_tag_errors_in_fragment(&e.fragment, const_owner(node, &e.attributes), &scope.child(local), async_mode),
        Node::SvelteDocument(e) => detect_const_tag_errors_in_fragment(&e.fragment, const_owner(node, &e.attributes), &scope.child(local), async_mode),
        Node::SvelteElement(e) => detect_const_tag_errors_in_fragment(&e.fragment, const_owner(node, &e.attributes), &scope.child(local), async_mode),
        Node::TitleElement(e) => detect_const_tag_errors_in_fragment(&e.fragment, const_owner(node, &e.attributes), &scope.child(local), async_mode),
        Node::Component(e) => detect_const_tag_errors_in_fragment(&e.fragment, const_owner(node, &e.attributes), &scope.child(local), async_mode),
        Node::SvelteComponent(e) => detect_const_tag_errors_in_fragment(&e.fragment, const_owner(node, &e.attributes), &scope.child(local), async_mode),
        Node::SvelteSelf(e) => detect_const_tag_errors_in_fragment(&e.fragment, const_owner(node, &e.attributes), &scope.child(local), async_mode),
        Node::SvelteFragment(e) => detect_const_tag_errors_in_fragment(&e.fragment, const_owner(node, &e.attributes), &scope.child(local), async_mode),
        Node::SvelteBoundary(e) => detect_const_tag_errors_in_fragment(&e.fragment, const_owner(node, &e.attributes), &scope.child(local), async_mode),
        _ => None,
    }
}

/// The `{@const}` errors of the template, in document order.
pub open spec fn spec_detect_const_tag_errors(root: &Root, async_mode: bool) -> Option<ErrorView> {
    spec_const_errors(&root.fragment, ConstOwner::Root, Set::empty(), Set::empty(), async_mode)
}

/// The `{@const}` errors of the template, in document order.
pub fn detect_const_tag_errors(root: &Root, async_mode: bool) -> (r: Option<CompileError>)
    ensures
        option_error_view(r) == spec_detect_const_tag_errors(root, async_mode),
{
    let scope = ConstScope { inherited: Vec::new(), current: Vec::new() };
    proof {
        assert(names_set(scope.inherited@) =~= Set::<Seq<char>>::empty());
        assert(names_set(scope.current@) =~= Set::<Seq<char>>::empty());
    }
    detect_const_tag_errors_in_fragment(&root.fragment, ConstOwner::Root, &scope, async_mode)
}

} // verus!
