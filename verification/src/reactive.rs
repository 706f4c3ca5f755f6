//! Cycles among the `$:` reactive statements of a legacy component.
use vstd::prelude::*;

use crate::estree::{spec_field, spec_type_is};

use crate::ast::Root;
use crate::bindings::{collect_binding_names, contains_name, has_name, names_view, push_unique};
use crate::deps::{
    collect_reactive_dependencies, cycle_message, first_cycle, path_has_function_scope, DependencyGraph,
};
use crate::diagnostics::{compile_error_custom, CompileError};
use crate::estree::{field_array, field_object, field_str, flatten, node_span, parents_precede, type_is, EstreeNode, EstreeValue, RawField};
use crate::text::{chars_of, text_is};

verus! {

/// A `$:` statement: the names it assigns, the names it reads, and its range.
pub struct ReactiveStatement {
    pub assignments: Vec<Vec<char>>,
    pub dependencies: Vec<Vec<char>>,
    pub start: usize,
    pub end: usize,
}

/// Whether a statement is labelled `$`.
pub open spec fn spec_reactive_label(node: EstreeNode) -> bool {
    spec_type_is(node, "LabeledStatement"@) && match spec_field(node, RawField::Label.spec_key()@) {
        Some(EstreeValue::Object(label)) => spec_type_is(label, "Identifier"@) && (spec_field(
            label,
            RawField::Name.spec_key()@,
        ) matches Some(EstreeValue::String(n)) && n@ == "$"@),
        _ => false,
    }
}

/// Whether a statement is labelled `$`.
pub fn is_reactive_labeled_statement(node: &EstreeNode) -> (r: bool)
    ensures
        r == spec_reactive_label(*node),
{
    if !type_is(node, "LabeledStatement") {
        return false;
    }
    match field_object(node, RawField::Label) {
        Some(label) => type_is(label, "Identifier") && match field_str(label, RawField::Name) {
            Some(n) => text_is(n.as_slice(), "$"),
            None => false,
        },
        None => false,
    }
}

/// The names an assignment target assigns: its base identifier, or the
/// names its pattern binds.
pub open spec fn target_assigns(pattern: EstreeNode, x: Seq<char>) -> bool {
    match crate::bindings::spec_base_identifier(pattern) {
        Some(n) => n == x,
        None => crate::bindings::pattern_binds(pattern, x),
    }
}

/// Adds to `out` the names an assignment target assigns: its base
/// identifier, or the names its pattern binds.
fn reactive_assignment_target_names(pattern: &EstreeNode, out: &mut Vec<Vec<char>>)
    ensures
        forall|n: Seq<char>| #[trigger] has_name(final(out)@, n) <==> (has_name(old(out)@, n) || target_assigns(*pattern, n)),
{
    match crate::bindings::base_identifier_name(pattern) {
        Some(name) => push_unique(out, name.as_slice()),
        None => collect_binding_names(pattern, out),
    }
}

/// Whether entry `i` of a flattened statement, outside any function,
/// assigns `x`: by an `=`-like assignment to a target that assigns it, or
/// by `++`/`--` on it.
pub open spec fn assigns_at(flat: Seq<crate::estree::FlatNode>, i: int, x: Seq<char>) -> bool {
    &&& 0 <= i < flat.len()
    &&& !crate::deps::function_ancestor(flat, i)
    &&& if spec_type_is(*flat[i].node, "AssignmentExpression"@) {
        spec_field(*flat[i].node, RawField::Left.spec_key()@) matches Some(EstreeValue::Object(left)) && target_assigns(
            left,
            x,
        )
    } else if spec_type_is(*flat[i].node, "UpdateExpression"@) {
        spec_field(*flat[i].node, RawField::Argument.spec_key()@) matches Some(EstreeValue::Object(argument))
            && crate::bindings::spec_base_identifier(argument) == Some(x)
    } else {
        false
    }
}

/// The names a statement assigns outside functions, by `=`-like
/// assignments and by `++`/`--`.
pub fn collect_reactive_assignment_names(statement: &EstreeNode) -> (names: Vec<Vec<char>>)
    ensures
        exists|key: &Vec<char>|
            key@.len() == 0 && forall|x: Seq<char>|
                #![trigger has_name(names@, x)]
                has_name(names@, x) <==> exists|i: int|
                    #[trigger] assigns_at(crate::estree::flat_of_node(statement, 0, key, false, 0), i, x),
{
    let root_key = chars_of("");
    proof {
        reveal_strlit("");
    }
    let flat = flatten(statement, &root_key);
    let mut names: Vec<Vec<char>> = Vec::new();
    let mut i: usize = 0;
    while i < flat.len()
        invariant
            i <= flat@.len(),
            parents_precede(flat@),
            forall|x: Seq<char>|
                #![trigger has_name(names@, x)]
                has_name(names@, x) <==> exists|k: int| 0 <= k < i && #[trigger] assigns_at(flat@, k, x),
        decreases flat.len() - i,
    {
        let n = flat[i].node;
        if !path_has_function_scope(&flat, i) {
            if type_is(n, "AssignmentExpression") {
                if let Some(left) = field_object(n, RawField::Left) {
                    reactive_assignment_target_names(left, &mut names);
                }
            } else if type_is(n, "UpdateExpression") {
                if let Some(argument) = field_object(n, RawField::Argument) {
                    if let Some(name) = crate::bindings::base_identifier_name(argument) {
                        push_unique(&mut names, name.as_slice());
                    }
                }
            }
        }
        proof {
            assert forall|x: Seq<char>| #[trigger] has_name(names@, x) <==> exists|k: int|
                0 <= k < i + 1 && #[trigger] assigns_at(flat@, k, x) by {
                if assigns_at(flat@, i as int, x) {
                    assert(0 <= i < i + 1 && assigns_at(flat@, i as int, x));
                }
                if exists|k: int| 0 <= k < i + 1 && #[trigger] assigns_at(flat@, k, x) {
                    let k = choose|k: int| 0 <= k < i + 1 && #[trigger] assigns_at(flat@, k, x);
                    if k < i {
                        assert(0 <= k < i && assigns_at(flat@, k, x));
                    }
                }
            }
        }
        i += 1;
    }
    proof {
        assert(root_key@.len() == 0);
        assert(forall|x: Seq<char>|
            #![trigger has_name(names@, x)]
            has_name(names@, x) <==> exists|k: int| #[trigger] assigns_at(crate::estree::flat_of_node(statement, 0, &root_key, false, 0), k, x));
    }
    names
}

/// Two flattened trees that agree on every entry's node and parent link,
/// and on the member name of every entry that has a parent.
pub open spec fn flats_agree(f1: Seq<crate::estree::FlatNode>, f2: Seq<crate::estree::FlatNode>) -> bool {
    &&& f1.len() == f2.len()
    &&& forall|j: int|
        0 <= j < f1.len() ==> (#[trigger] f1[j]).node == f2[j].node && f1[j].parent == f2[j].parent && f1[j].has_parent
            == f2[j].has_parent && (f1[j].has_parent ==> f1[j].via_key@ == f2[j].via_key@)
}

pub(crate) proof fn lemma_function_ancestor_agrees(f1: Seq<crate::estree::FlatNode>, f2: Seq<crate::estree::FlatNode>, i: int)
    requires
        flats_agree(f1, f2),
    ensures
        crate::deps::function_ancestor(f1, i) == crate::deps::function_ancestor(f2, i),
    decreases i,
{
    if 0 <= i < f1.len() && f1[i].has_parent && f1[i].parent < i {
        assert(f1[i].node == f2[i].node);
        lemma_function_ancestor_agrees(f1, f2, f1[i].parent as int);
    }
}

/// The member name given to the root of a flattened tree does not matter:
/// it is read only for entries that have a parent.
pub(crate) proof fn lemma_root_key_free<'a>(n: &'a EstreeNode, k1: &'a Vec<char>, k2: &'a Vec<char>)
    ensures
        flats_agree(crate::estree::flat_of_node(n, 0, k1, false, 0), crate::estree::flat_of_node(n, 0, k2, false, 0)),
{
    let tail = crate::estree::flat_of_fields(n, 0, 0, 1);
    let f1 = crate::estree::flat_of_node(n, 0, k1, false, 0);
    let f2 = crate::estree::flat_of_node(n, 0, k2, false, 0);
    assert forall|j: int| 0 <= j < f1.len() implies (#[trigger] f1[j]).node == f2[j].node && f1[j].parent == f2[j].parent
        && f1[j].has_parent == f2[j].has_parent && (f1[j].has_parent ==> f1[j].via_key@ == f2[j].via_key@) by {
        if j > 0 {
            assert(f1[j] == tail[j - 1]);
            assert(f2[j] == tail[j - 1]);
        }
    }
}

/// Whether a member name is empty, as the root of a flattened tree has it.
pub open spec fn empty_key(k: &Vec<char>) -> bool {
    k@.len() == 0
}

/// Whether a statement assigns some name outside functions.
pub open spec fn assigns_something<'a>(inner: &'a EstreeNode) -> bool {
    let key = choose|k: &'a Vec<char>| #[trigger] empty_key(k);
    exists|x: Seq<char>, i: int| #[trigger] assigns_at(crate::estree::flat_of_node(inner, 0, key, false, 0), i, x)
}

/// A body entry that is a `$:` statement with a statement under its label
/// that assigns something: the labelled statement and the one under it.
pub open spec fn reactive_source(v: &EstreeValue) -> Option<(&EstreeNode, &EstreeNode)> {
    match v {
        EstreeValue::Object(statement) => if spec_reactive_label(*statement) {
            match spec_field(*statement, RawField::Body.spec_key()@) {
                Some(EstreeValue::Object(inner)) => if assigns_something(&inner) && (
                crate::estree::spec_estree_span(*statement) is Some || crate::estree::spec_estree_span(inner) is Some) {
                    Some((statement, &inner))
                } else {
                    None
                },
                _ => None,
            }
        } else {
            None
        },
        _ => None,
    }
}

/// The range a reactive statement is reported over: its own, else that of
/// the statement under its label.
pub open spec fn reactive_range(statement: EstreeNode, inner: EstreeNode) -> (int, int) {
    match crate::estree::spec_estree_span(statement) {
        Some(r) => r,
        None => crate::estree::spec_estree_span(inner).unwrap(),
    }
}

/// The statements under the labels of the reactive statements among `body[..i]`, in order.
pub open spec fn reactive_sources_before(body: Seq<EstreeValue>, i: int) -> Seq<(EstreeNode, EstreeNode)>
    decreases i,
{
    if i <= 0 || i > body.len() {
        Seq::empty()
    } else {
        match reactive_source(&body[i - 1]) {
            Some((statement, inner)) => reactive_sources_before(body, i - 1).push((*statement, *inner)),
            None => reactive_sources_before(body, i - 1),
        }
    }
}

/// The reactive statements of a program's body, in order.
pub open spec fn spec_reactive_sources(program: EstreeNode) -> Seq<(EstreeNode, EstreeNode)> {
    match spec_field(program, RawField::Body.spec_key()@) {
        Some(EstreeValue::Array(body)) => reactive_sources_before(body@, body@.len() as int),
        _ => Seq::empty(),
    }
}

/// Whether `st` is what is collected of the reactive statement `source`:
/// its range, the names it assigns and the names it reads.
pub open spec fn collected_as(st: ReactiveStatement, source: (EstreeNode, EstreeNode)) -> bool {
    &&& (st.start as int, st.end as int) == reactive_range(source.0, source.1)
    &&& exists|key: &Vec<char>|
        key@.len() == 0 && forall|x: Seq<char>|
            #![trigger has_name(st.assignments@, x)]
            has_name(st.assignments@, x) <==> exists|i: int|
                #[trigger] assigns_at(crate::estree::flat_of_node(&source.1, 0, key, false, 0), i, x)
    &&& exists|key: &Vec<char>|
        key@.len() == 0 && forall|x: Seq<char>|
            #![trigger has_name(st.dependencies@, x)]
            has_name(st.dependencies@, x) <==> crate::deps::reads_name_in(
                crate::estree::flat_of_node(&source.1, 0, key, false, 0),
                x,
            )
}

/// The `$:` statements of a program that assign something, in order.
pub fn collect_reactive_statements(program: &EstreeNode) -> (statements: Vec<ReactiveStatement>)
    ensures
        statements@.len() == spec_reactive_sources(*program).len(),
        forall|k: int|
            0 <= k < statements@.len() ==> collected_as(#[trigger] statements@[k], spec_reactive_sources(*program)[k]),
{
    let mut statements: Vec<ReactiveStatement> = Vec::new();
    let body = match field_array(program, RawField::Body) {
        Some(b) => b,
        None => return statements,
    };
    let mut i: usize = 0;
    while i < body.len()
        invariant
            i <= body@.len(),
            statements@.len() == reactive_sources_before(body@, i as int).len(),
            forall|k: int|
                0 <= k < statements@.len() ==> collected_as(
                    #[trigger] statements@[k],
                    reactive_sources_before(body@, i as int)[k],
                ),
        decreases body.len() - i,
    {
        let ghost before = statements@;
        if let EstreeValue::Object(statement) = &body[i] {
            if is_reactive_labeled_statement(statement) {
                if let Some(inner) = field_object(statement, RawField::Body) {
                    let assignments = collect_reactive_assignment_names(inner);
                    proof {
                        let key = choose|k: &Vec<char>| #[trigger] empty_key(k);
                        let k1 = choose|k1: &Vec<char>|
                            k1@.len() == 0 && forall|x: Seq<char>|
                                #![trigger has_name(assignments@, x)]
                                has_name(assignments@, x) <==> exists|j: int|
                                    #[trigger] assigns_at(crate::estree::flat_of_node(inner, 0, k1, false, 0), j, x);
                        lemma_root_key_free(inner, k1, key);
                        let f1 = crate::estree::flat_of_node(inner, 0, k1, false, 0);
                        let f2 = crate::estree::flat_of_node(inner, 0, key, false, 0);
                        assert forall|x: Seq<char>, j: int|
                            #![trigger assigns_at(f1, j, x)]
                            #![trigger assigns_at(f2, j, x)]
                            assigns_at(f1, j, x) == assigns_at(f2, j, x) by {
                            lemma_function_ancestor_agrees(f1, f2, j);
                            if 0 <= j < f1.len() {
                                assert(f1[j].node == f2[j].node);
                            }
                        }
                        if assignments@.len() > 0 {
                            assert(has_name(assignments@, assignments@[0]@));
                            let j = choose|j: int| #[trigger] assigns_at(f1, j, assignments@[0]@);
                            assert(assigns_at(f2, j, assignments@[0]@));
                        }
                        if assigns_something(inner) {
                            let (x, j) = choose|x: Seq<char>, j: int| #[trigger] assigns_at(f2, j, x);
                            assert(assigns_at(f1, j, x));
                            assert(has_name(assignments@, x));
                        }
                        assert((assignments@.len() > 0) == assigns_something(inner));
                    }
                    if assignments.len() > 0 {
                        let span = match node_span(statement) {
                            Some(s) => Some(s),
                            None => node_span(inner),
                        };
                        if let Some((start, end)) = span {
                            let st = ReactiveStatement {
                                assignments,
                                dependencies: collect_reactive_dependencies(inner),
                                start,
                                end,
                            };
                            proof {
                                assert(collected_as(st, (*statement, *inner)));
                            }
                            statements.push(st);
                        }
                    }
                }
            }
        }
        proof {
            assert(reactive_sources_before(body@, i + 1) == match reactive_source(&body@[i as int]) {
                Some((statement, inner)) => reactive_sources_before(body@, i as int).push((*statement, *inner)),
                None => reactive_sources_before(body@, i as int),
            });
            assert forall|k: int| 0 <= k < statements@.len() implies collected_as(
                #[trigger] statements@[k],
                reactive_sources_before(body@, i + 1)[k],
            ) by {
                if k < before.len() {
                    assert(statements@[k] == before[k]);
                }
            }
        }
        i += 1;
    }
    statements
}

/// The index of `name` in `names`.
fn index_in(names: &Vec<Vec<char>>, name: &[char]) -> (r: Option<usize>)
    ensures
        r matches Some(i) ==> i < names@.len() && names@[i as int]@ == name@ && forall|j: int|
            0 <= j < i ==> (#[trigger] names@[j])@ != name@,
        r is None ==> forall|j: int| 0 <= j < names@.len() ==> (#[trigger] names@[j])@ != name@,
{
    let mut i: usize = 0;
    while i < names.len()
        invariant
            i <= names@.len(),
            forall|j: int| 0 <= j < i ==> (#[trigger] names@[j])@ != name@,
        decreases names.len() - i,
    {
        if crate::text::chars_eq(names[i].as_slice(), name) {
            return Some(i);
        }
        i += 1;
    }
    None
}

/// A copy of a list of names.
pub fn copy_names(names: &Vec<Vec<char>>) -> (out: Vec<Vec<char>>)
    ensures
        out@.len() == names@.len(),
        forall|i: int| 0 <= i < names@.len() ==> (#[trigger] out@[i])@ == names@[i]@,
        crate::bindings::names_set(out@) == crate::bindings::names_set(names@),
{
    let mut out: Vec<Vec<char>> = Vec::new();
    let mut i: usize = 0;
    while i < names.len()
        invariant
            i <= names@.len(),
            out@.len() == i,
            forall|j: int| 0 <= j < i ==> (#[trigger] out@[j])@ == names@[j]@,
        decreases names.len() - i,
    {
        out.push(crate::text::copy_chars(names[i].as_slice()));
        i += 1;
    }
    proof {
        assert forall|n: Seq<char>| has_name(out@, n) == has_name(names@, n) by {
            if has_name(out@, n) {
                let k = choose|k: int| 0 <= k < out@.len() && (#[trigger] out@[k])@ == n;
                assert(names@[k]@ == n);
            }
            if has_name(names@, n) {
                let k = choose|k: int| 0 <= k < names@.len() && (#[trigger] names@[k])@ == n;
                assert(out@[k]@ == n);
            }
        }
        assert(crate::bindings::names_set(out@) =~= crate::bindings::names_set(names@));
    }
    out
}

/// Whether one of `statements[..i]` assigns `n`.
pub open spec fn assigned_before(statements: Seq<ReactiveStatement>, i: int, n: Seq<char>) -> bool {
    exists|k: int| 0 <= k < i && has_name((#[trigger] statements[k]).assignments@, n)
}

/// Whether a statement's reading of `d` makes an edge: it reads `d`, does not
/// assign it itself, and some statement assigns it.
pub open spec fn kept_dependency(statements: Seq<ReactiveStatement>, st: ReactiveStatement, d: Seq<char>) -> bool {
    has_name(st.dependencies@, d) && !has_name(st.assignments@, d) && assigned_before(
        statements,
        statements.len() as int,
        d,
    )
}

/// Whether one of `statements[..i]` that assigns `a` makes an edge to `d`.
pub open spec fn edge_before(statements: Seq<ReactiveStatement>, i: int, a: Seq<char>, d: Seq<char>) -> bool {
    exists|k: int|
        0 <= k < i && has_name((#[trigger] statements[k]).assignments@, a) && kept_dependency(statements, statements[k], d)
}

/// Whether some statement that assigns `a` makes an edge to `d`.
pub open spec fn reactive_edge(statements: Seq<ReactiveStatement>, a: Seq<char>, d: Seq<char>) -> bool {
    edge_before(statements, statements.len() as int, a, d)
}

/// Whether `g` is a graph of the statements' names: each name that some
/// statement assigns, once, with the names it depends on.
pub open spec fn reactive_graph_fits(statements: Seq<ReactiveStatement>, g: DependencyGraph) -> bool {
    &&& g.wf()
    &&& forall|n: Seq<char>|
        #![trigger has_name(g.names@, n)]
        has_name(g.names@, n) <==> assigned_before(statements, statements.len() as int, n)
    &&& forall|k: int, m: int| 0 <= k < m < g.names@.len() ==> (#[trigger] g.names@[k])@ != (#[trigger] g.names@[m])@
    &&& forall|k: int, d: Seq<char>|
        #![trigger has_name(g.edges@[k]@, d)]
        0 <= k < g.names@.len() ==> (has_name(g.edges@[k]@, d) <==> reactive_edge(statements, g.names@[k]@, d))
}

/// The graph whose nodes are the names the statements assign, each name
/// pointing at the names its statement reads that some statement assigns
/// (but not the statement itself).
pub fn reactive_graph(statements: &Vec<ReactiveStatement>) -> (g: DependencyGraph)
    ensures
        reactive_graph_fits(statements@, g),
        g.wf(),
        forall|n: Seq<char>|
            #![trigger has_name(g.names@, n)]
            has_name(g.names@, n) <==> assigned_before(statements@, statements@.len() as int, n),
        forall|k: int, m: int| 0 <= k < m < g.names@.len() ==> (#[trigger] g.names@[k])@ != (#[trigger] g.names@[m])@,
        forall|k: int, d: Seq<char>|
            #![trigger has_name(g.edges@[k]@, d)]
            0 <= k < g.names@.len() ==> (has_name(g.edges@[k]@, d) <==> reactive_edge(
                statements@,
                g.names@[k]@,
                d,
            )),
{
    let mut all: Vec<Vec<char>> = Vec::new();
    let mut i: usize = 0;
    while i < statements.len()
        invariant
            i <= statements@.len(),
            forall|n: Seq<char>|
                #![trigger has_name(all@, n)]
                has_name(all@, n) <==> assigned_before(statements@, i as int, n),
        decreases statements.len() - i,
    {
        let statement = &statements[i];
        let ghost before = all@;
        let mut j: usize = 0;
        while j < statement.assignments.len()
            invariant
                j <= statement.assignments@.len(),
                forall|n: Seq<char>|
                    #![trigger has_name(all@, n)]
                    has_name(all@, n) <==> (has_name(before, n) || has_name(
                        statement.assignments@.subrange(0, j as int),
                        n,
                    )),
            decreases statement.assignments.len() - j,
        {
            let ghost mid = all@;
            push_unique(&mut all, statement.assignments[j].as_slice());
            proof {
                let a = statement.assignments@;
                assert forall|n: Seq<char>|
                    #![trigger has_name(all@, n)]
                    has_name(all@, n) <==> (has_name(before, n) || has_name(a.subrange(0, j + 1), n)) by {
                    assert(has_name(mid, n) <==> (has_name(before, n) || has_name(a.subrange(0, j as int), n)));
                    let s1 = a.subrange(0, j as int);
                    let s2 = a.subrange(0, j + 1);
                    if has_name(s2, n) {
                        let k = choose|k: int| 0 <= k < s2.len() && (#[trigger] s2[k])@ == n;
                        if k < j {
                            assert(s1[k] == s2[k]);
                        }
                    }
                    if has_name(s1, n) {
                        let k = choose|k: int| 0 <= k < s1.len() && (#[trigger] s1[k])@ == n;
                        assert(s2[k] == s1[k]);
                    }
                    if n == a[j as int]@ {
                        assert(s2[j as int] == a[j as int]);
                    }
                }
            }
            j += 1;
        }
        proof {
            let a = statement.assignments@;
            assert(a.subrange(0, a.len() as int) =~= a);
            assert forall|n: Seq<char>|
                #![trigger has_name(all@, n)]
                has_name(all@, n) <==> assigned_before(statements@, i + 1, n) by {
                assert(has_name(before, n) <==> assigned_before(statements@, i as int, n));
                if assigned_before(statements@, i + 1, n) {
                    let k = choose|k: int| 0 <= k < i + 1 && has_name((#[trigger] statements@[k]).assignments@, n);
                    if k < i {
                        assert(assigned_before(statements@, i as int, n));
                    }
                }
                if has_name(a, n) {
                    assert(has_name(statements@[i as int].assignments@, n));
                }
            }
        }
        i += 1;
    }
    let mut names: Vec<Vec<char>> = Vec::new();
    let mut edges: Vec<Vec<Vec<char>>> = Vec::new();
    let ghost sts = statements@;
    let mut i: usize = 0;
    while i < statements.len()
        invariant
            i <= statements@.len(),
            sts == statements@,
            names@.len() == edges@.len(),
            forall|n: Seq<char>|
                #![trigger has_name(all@, n)]
                has_name(all@, n) <==> assigned_before(sts, sts.len() as int, n),
            forall|n: Seq<char>|
                #![trigger has_name(names@, n)]
                has_name(names@, n) <==> assigned_before(sts, i as int, n),
            forall|k: int, m: int| 0 <= k < m < names@.len() ==> (#[trigger] names@[k])@ != (#[trigger] names@[m])@,
            forall|k: int, d: Seq<char>|
                #![trigger has_name(edges@[k]@, d)]
                0 <= k < names@.len() ==> (has_name(edges@[k]@, d) <==> edge_before(sts, i as int, names@[k]@, d)),
        decreases statements.len() - i,
    {
        let statement = &statements[i];
        let ghost asg = statement.assignments@;
        let mut j: usize = 0;
        while j < statement.assignments.len()
            invariant
                j <= statement.assignments@.len(),
                i < sts.len(),
                sts == statements@,
                *statement == sts[i as int],
                asg == statement.assignments@,
                names@.len() == edges@.len(),
                forall|n: Seq<char>|
                    #![trigger has_name(all@, n)]
                    has_name(all@, n) <==> assigned_before(sts, sts.len() as int, n),
                forall|n: Seq<char>|
                    #![trigger has_name(names@, n)]
                    has_name(names@, n) <==> (assigned_before(sts, i as int, n) || has_name(asg.subrange(0, j as int), n)),
                forall|k: int, m: int| 0 <= k < m < names@.len() ==> (#[trigger] names@[k])@ != (#[trigger] names@[m])@,
                forall|k: int, d: Seq<char>|
                    #![trigger has_name(edges@[k]@, d)]
                    0 <= k < names@.len() ==> (has_name(edges@[k]@, d) <==> (edge_before(sts, i as int, names@[k]@, d)
                        || (has_name(asg.subrange(0, j as int), names@[k]@) && kept_dependency(sts, sts[i as int], d)))),
            decreases statement.assignments.len() - j,
        {
            let assignment = statement.assignments[j].as_slice();
            let mut deps: Vec<Vec<char>> = Vec::new();
            let mut k: usize = 0;
            while k < statement.dependencies.len()
                invariant
                    k <= statement.dependencies@.len(),
                    forall|n: Seq<char>|
                        #![trigger has_name(all@, n)]
                        has_name(all@, n) <==> assigned_before(sts, sts.len() as int, n),
                    forall|d: Seq<char>|
                        #![trigger has_name(deps@, d)]
                        has_name(deps@, d) <==> (has_name(statement.dependencies@.subrange(0, k as int), d) && !has_name(
                            statement.assignments@,
                            d,
                        ) && has_name(all@, d)),
                decreases statement.dependencies.len() - k,
            {
                let d = statement.dependencies[k].as_slice();
                let ghost mid = deps@;
                if !contains_name(&statement.assignments, d) && contains_name(&all, d) {
                    push_unique(&mut deps, d);
                }
                proof {
                    let ds = statement.dependencies@;
                    assert forall|x: Seq<char>|
                        #![trigger has_name(deps@, x)]
                        has_name(deps@, x) <==> (has_name(ds.subrange(0, k + 1), x) && !has_name(statement.assignments@, x)
                            && has_name(all@, x)) by {
                        let s1 = ds.subrange(0, k as int);
                        let s2 = ds.subrange(0, k + 1);
                        assert(has_name(mid, x) <==> (has_name(s1, x) && !has_name(statement.assignments@, x) && has_name(all@, x)));
                        if has_name(s2, x) {
                            let q = choose|q: int| 0 <= q < s2.len() && (#[trigger] s2[q])@ == x;
                            if q < k {
                                assert(s1[q] == s2[q]);
                            }
                        }
                        if has_name(s1, x) {
                            let q = choose|q: int| 0 <= q < s1.len() && (#[trigger] s1[q])@ == x;
                            assert(s2[q] == s1[q]);
                        }
                        if x == ds[k as int]@ {
                            assert(s2[k as int] == ds[k as int]);
                        }
                    }
                }
                k += 1;
            }
            proof {
                assert(statement.dependencies@.subrange(0, statement.dependencies@.len() as int) =~= statement.dependencies@);
                assert forall|x: Seq<char>|
                    #![trigger has_name(deps@, x)]
                    has_name(deps@, x) <==> kept_dependency(sts, sts[i as int], x) by {}
            }
            let ghost a = asg[j as int]@;
            let ghost names0 = names@;
            let ghost edges0 = edges@;
            proof {
                let s1 = asg.subrange(0, j as int);
                let s2 = asg.subrange(0, j + 1);
                assert forall|x: Seq<char>| #![trigger has_name(s2, x)] has_name(s2, x) <==> (has_name(s1, x) || x == a) by {
                    if has_name(s2, x) {
                        let q = choose|q: int| 0 <= q < s2.len() && (#[trigger] s2[q])@ == x;
                        if q < j {
                            assert(s1[q] == s2[q]);
                        }
                    }
                    if has_name(s1, x) {
                        let q = choose|q: int| 0 <= q < s1.len() && (#[trigger] s1[q])@ == x;
                        assert(s2[q] == s1[q]);
                    }
                    if x == a {
                        assert(s2[j as int] == asg[j as int]);
                    }
                }
            }
            match index_in(&names, assignment) {
                Some(idx) => {
                    let mut merged = copy_names(&edges[idx]);
                    let ghost old_edge = edges@[idx as int]@;
                    proof {
                        assert forall|x: Seq<char>| #![trigger has_name(merged@, x)] has_name(merged@, x) <==> has_name(old_edge, x) by {
                            if has_name(merged@, x) {
                                let q = choose|q: int| 0 <= q < merged@.len() && (#[trigger] merged@[q])@ == x;
                                assert(old_edge[q]@ == x);
                            }
                            if has_name(old_edge, x) {
                                let q = choose|q: int| 0 <= q < old_edge.len() && (#[trigger] old_edge[q])@ == x;
                                assert(merged@[q]@ == x);
                            }
                        }
                    }
                    let mut m: usize = 0;
                    while m < deps.len()
                        invariant
                            m <= deps@.len(),
                            forall|x: Seq<char>|
                                #![trigger has_name(merged@, x)]
                                has_name(merged@, x) <==> (has_name(old_edge, x) || has_name(deps@.subrange(0, m as int), x)),
                        decreases deps.len() - m,
                    {
                        let ghost mid = merged@;
                        push_unique(&mut merged, deps[m].as_slice());
                        proof {
                            assert forall|x: Seq<char>|
                                #![trigger has_name(merged@, x)]
                                has_name(merged@, x) <==> (has_name(old_edge, x) || has_name(deps@.subrange(0, m + 1), x)) by {
                                let s1 = deps@.subrange(0, m as int);
                                let s2 = deps@.subrange(0, m + 1);
                                assert(has_name(mid, x) <==> (has_name(old_edge, x) || has_name(s1, x)));
                                if has_name(s2, x) {
                                    let q = choose|q: int| 0 <= q < s2.len() && (#[trigger] s2[q])@ == x;
                                    if q < m {
                                        assert(s1[q] == s2[q]);
                                    }
                                }
                                if has_name(s1, x) {
                                    let q = choose|q: int| 0 <= q < s1.len() && (#[trigger] s1[q])@ == x;
                                    assert(s2[q] == s1[q]);
                                }
                                if x == deps@[m as int]@ {
                                    assert(s2[m as int] == deps@[m as int]);
                                }
                            }
                        }
                        m += 1;
                    }
                    proof {
                        assert(deps@.subrange(0, deps@.len() as int) =~= deps@);
                    }
                    edges.set(idx, merged);
                    proof {
                        assert forall|n: Seq<char>|
                            #![trigger has_name(names@, n)]
                            has_name(names@, n) <==> (assigned_before(sts, i as int, n) || has_name(asg.subrange(0, j + 1), n)) by {
                            assert(has_name(asg.subrange(0, j + 1), n) <==> (has_name(asg.subrange(0, j as int), n) || n == a));
                            if n == a {
                                assert(names@[idx as int]@ == a);
                            }
                        }
                        assert forall|k: int, d: Seq<char>|
                            #![trigger has_name(edges@[k]@, d)]
                            0 <= k < names@.len() implies (has_name(edges@[k]@, d) <==> (edge_before(sts, i as int, names@[k]@, d)
                                || (has_name(asg.subrange(0, j + 1), names@[k]@) && kept_dependency(sts, sts[i as int], d)))) by {
                            assert(has_name(asg.subrange(0, j + 1), names@[k]@) <==> (has_name(asg.subrange(0, j as int), names@[k]@) || names@[k]@ == a));
                            if k != idx {
                                assert(edges@[k] == edges0[k]);
                                assert(has_name(edges0[k]@, d) <==> (edge_before(sts, i as int, names0[k]@, d)
                                    || (has_name(asg.subrange(0, j as int), names0[k]@) && kept_dependency(sts, sts[i as int], d))));
                                if k < idx {
                                    assert(names@[k]@ != names@[idx as int]@);
                                } else {
                                    assert(names@[idx as int]@ != names@[k]@);
                                }
                            } else {
                                assert(has_name(edges0[k]@, d) <==> (edge_before(sts, i as int, names0[k]@, d)
                                    || (has_name(asg.subrange(0, j as int), names0[k]@) && kept_dependency(sts, sts[i as int], d))));
                            }
                        }
                    }
                },
                None => {
                    names.push(crate::text::copy_chars(assignment));
                    edges.push(deps);
                    proof {
                        assert(!has_name(names0, a));
                        assert(!assigned_before(sts, i as int, a));
                        assert forall|n: Seq<char>|
                            #![trigger has_name(names@, n)]
                            has_name(names@, n) <==> (assigned_before(sts, i as int, n) || has_name(asg.subrange(0, j + 1), n)) by {
                            assert(has_name(asg.subrange(0, j + 1), n) <==> (has_name(asg.subrange(0, j as int), n) || n == a));
                            assert(has_name(names0, n) <==> (assigned_before(sts, i as int, n) || has_name(asg.subrange(0, j as int), n)));
                            if has_name(names@, n) {
                                let q = choose|q: int| 0 <= q < names@.len() && (#[trigger] names@[q])@ == n;
                                if q < names0.len() {
                                    assert(names0[q] == names@[q]);
                                }
                            }
                            if has_name(names0, n) {
                                let q = choose|q: int| 0 <= q < names0.len() && (#[trigger] names0[q])@ == n;
                                assert(names@[q] == names0[q]);
                            }
                            if n == a {
                                assert(names@[names0.len() as int]@ == a);
                            }
                        }
                        assert(!has_name(asg.subrange(0, j as int), a));
                        assert forall|k: int, d: Seq<char>|
                            #![trigger has_name(edges@[k]@, d)]
                            0 <= k < names@.len() implies (has_name(edges@[k]@, d) <==> (edge_before(sts, i as int, names@[k]@, d)
                                || (has_name(asg.subrange(0, j + 1), names@[k]@) && kept_dependency(sts, sts[i as int], d)))) by {
                            assert(has_name(asg.subrange(0, j + 1), names@[k]@) <==> (has_name(asg.subrange(0, j as int), names@[k]@) || names@[k]@ == a));
                            if k < names0.len() {
                                assert(edges@[k] == edges0[k]);
                                assert(names@[k] == names0[k]);
                                assert(has_name(edges0[k]@, d) <==> (edge_before(sts, i as int, names0[k]@, d)
                                    || (has_name(asg.subrange(0, j as int), names0[k]@) && kept_dependency(sts, sts[i as int], d))));
                                assert(names0[k]@ != a);
                            } else {
                                assert(names@[k]@ == a);
                                if edge_before(sts, i as int, a, d) {
                                    let q = choose|q: int| 0 <= q < i && has_name((#[trigger] sts[q]).assignments@, a) && kept_dependency(sts, sts[q], d);
                                    assert(assigned_before(sts, i as int, a));
                                }
                            }
                        }
                        assert forall|k: int, m: int| 0 <= k < m < names@.len() implies (#[trigger] names@[k])@ != (#[trigger] names@[m])@ by {
                            if m == names0.len() {
                                assert(names@[k] == names0[k]);
                            }
                        }
                    }
                },
            }
            j += 1;
        }
        proof {
            assert(asg.subrange(0, asg.len() as int) =~= asg);
            assert forall|n: Seq<char>|
                #![trigger has_name(names@, n)]
                has_name(names@, n) <==> assigned_before(sts, i + 1, n) by {
                if assigned_before(sts, i + 1, n) {
                    let q = choose|q: int| 0 <= q < i + 1 && has_name((#[trigger] sts[q]).assignments@, n);
                    if q < i {
                        assert(assigned_before(sts, i as int, n));
                    }
                }
            }
            assert forall|k: int, d: Seq<char>|
                #![trigger has_name(edges@[k]@, d)]
                0 <= k < names@.len() implies (has_name(edges@[k]@, d) <==> edge_before(sts, i + 1, names@[k]@, d)) by {
                if edge_before(sts, i + 1, names@[k]@, d) {
                    let q = choose|q: int| 0 <= q < i + 1 && has_name((#[trigger] sts[q]).assignments@, names@[k]@) && kept_dependency(sts, sts[q], d);
                    if q < i {
                        assert(edge_before(sts, i as int, names@[k]@, d));
                    }
                }
            }
        }
        i += 1;
    }
    DependencyGraph { names, edges }
}

/// The index of the first of `statements[i..]` that assigns `name`.
pub open spec fn first_assigning_from(statements: Seq<ReactiveStatement>, i: int, name: Seq<char>) -> Option<int>
    decreases statements.len() - i,
{
    if 0 <= i < statements.len() {
        if has_name(statements[i].assignments@, name) {
            Some(i)
        } else {
            first_assigning_from(statements, i + 1, name)
        }
    } else {
        None
    }
}

/// The error for the first cycle that the search finds in the graph `g` of
/// the `$:` statements, reported over the first statement that assigns the
/// cycle's first name; none with fewer than two statements.
pub open spec fn spec_reactive_cycle_error(statements: Seq<ReactiveStatement>, g: DependencyGraph) -> Option<
    crate::diagnostics::ErrorView,
> {
    if statements.len() < 2 {
        None
    } else {
        match crate::deps::spec_first_cycle(crate::deps::graph_view(g)) {
            Some(c) => match first_assigning_from(statements, 0, c[0]) {
                Some(k) => Some(
                    (
                        "reactive_declaration_cycle"@,
                        crate::deps::cycle_error_message(c),
                        statements[k].start as int,
                        statements[k].end as int,
                    ),
                ),
                None => None,
            },
            None => None,
        }
    }
}

/// Whether `statements` is what is collected of the `$:` statements of `program`.
pub open spec fn statements_of(program: EstreeNode, statements: Seq<ReactiveStatement>) -> bool {
    &&& statements.len() == spec_reactive_sources(program).len()
    &&& forall|k: int| 0 <= k < statements.len() ==> collected_as(#[trigger] statements[k], spec_reactive_sources(program)[k])
}

/// Whether `e` is what the reactive cycle check can report for a component:
/// nothing without an instance script; else the error for the first cycle
/// the search finds among its `$:` statements, for statements and a graph
/// as they are collected (the order of the names a statement assigns, and
/// so of the graph's names, is the one they were collected in).
pub open spec fn reactive_cycle_outcome(root: &Root, e: Option<crate::diagnostics::ErrorView>) -> bool {
    match root.instance {
        None => e is None,
        Some(script) => exists|statements: Seq<ReactiveStatement>, g: DependencyGraph|
            #![trigger statements_of(script.content, statements), reactive_graph_fits(statements, g)]
            statements_of(script.content, statements) && reactive_graph_fits(statements, g) && e
                == spec_reactive_cycle_error(statements, g),
    }
}

/// The error for a cycle among the `$:` statements of the instance script:
/// reported at the first statement that assigns the cycle's first name.
pub fn detect_reactive_declaration_cycle(root: &Root) -> (r: Option<CompileError>)
    ensures
        root.instance is None ==> r is None,
        r matches Some(e) ==> e.code == "reactive_declaration_cycle",
        reactive_cycle_outcome(root, crate::diagnostics::option_error_view(r)),
{
    let script = match &root.instance {
        Some(s) => s,
        None => return None,
    };
    let statements = collect_reactive_statements(&script.content);
    proof {
        assert(statements_of(script.content, statements@));
    }
    let graph = reactive_graph(&statements);
    if statements.len() < 2 {
        proof {
            assert(reactive_graph_fits(statements@, graph));
        }
        return None;
    }
    let found = first_cycle(&graph);
    let cycle = match found {
        Some(c) => c,
        None => {
            proof {
                assert(reactive_graph_fits(statements@, graph));
            }
            return None;
        },
    };
    proof {
        assert(names_view(cycle@)[0] == cycle@[0]@);
    }
    let mut i: usize = 0;
    while i < statements.len()
        invariant
            i <= statements@.len(),
            cycle@.len() >= 1,
            root.instance is Some,
            first_assigning_from(statements@, 0, cycle@[0]@) == first_assigning_from(statements@, i as int, cycle@[0]@),
            reactive_graph_fits(statements@, graph),
            statements_of(script.content, statements@),
            root.instance == Some(*script),
            statements@.len() >= 2,
            crate::deps::spec_first_cycle(crate::deps::graph_view(graph)) == Some(names_view(cycle@)),
            names_view(cycle@)[0] == cycle@[0]@,
        decreases statements.len() - i,
    {
        if contains_name(&statements[i].assignments, cycle[0].as_slice()) {
            let e = compile_error_custom("reactive_declaration_cycle", cycle_message(&cycle), statements[i].start, statements[i].end);
            proof {
                assert(reactive_graph_fits(statements@, graph));
                assert(crate::diagnostics::option_error_view(Some(e)) == spec_reactive_cycle_error(statements@, graph));
            }
            return Some(e);
        }
        i += 1;
    }
    proof {
        assert(reactive_graph_fits(statements@, graph));
    }
    None
}

} // verus!
