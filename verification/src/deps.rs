//! Dependencies between declarations: the names an expression reads, and
//! cycles among declarations that read each other. Used for `$:` reactive
//! statements and for `{@const}` tags.
use vstd::prelude::*;

use crate::bindings::{contains_name, first_index_from, has_name, names_set, names_view, push_unique};
use crate::estree::{
    field_array, field_object, field_str, flatten, node_span, node_type, parents_precede, spec_type_is, type_is, EstreeNode,
    EstreeValue, FlatNode, RawField,
};
use crate::estree::{flat_of_node, spec_field};
use crate::text::{chars_of, push_chars, push_str, spec_at, starts_with, text_is};

verus! {

/// The parent of entry `i` of a flat tree, if it has one.
fn parent_of(flat: &Vec<FlatNode<'_>>, i: usize) -> (r: Option<usize>)
    requires
        i < flat@.len(),
        parents_precede(flat@),
    ensures
        r matches Some(p) ==> p < i,
        r == (if flat@[i as int].has_parent {
            Some(flat@[i as int].parent)
        } else {
            None
        }),
{
    if flat[i].has_parent {
        Some(flat[i].parent)
    } else {
        None
    }
}

/// Whether an ancestor of entry `i` of a flat tree is a function.
pub open spec fn function_ancestor(flat: Seq<FlatNode>, i: int) -> bool
    decreases i,
{
    if 0 <= i < flat.len() && flat[i].has_parent && flat[i].parent < i {
        spec_function_node(*flat[flat[i].parent as int].node) || function_ancestor(flat, flat[i].parent as int)
    } else {
        false
    }
}

/// Whether an ancestor of entry `i` of a flat tree is a TypeScript node.
pub open spec fn typescript_ancestor(flat: Seq<FlatNode>, i: int) -> bool
    decreases i,
{
    if 0 <= i < flat.len() && flat[i].has_parent && flat[i].parent < i {
        spec_typescript_node(*flat[flat[i].parent as int].node) || typescript_ancestor(flat, flat[i].parent as int)
    } else {
        false
    }
}

/// Whether a node is a function.
pub open spec fn spec_function_node(n: EstreeNode) -> bool {
    spec_type_is(n, "FunctionDeclaration"@) || spec_type_is(n, "FunctionExpression"@) || spec_type_is(
        n,
        "ArrowFunctionExpression"@,
    )
}

/// Whether a node is a TypeScript node: its type starts with `TS`.
pub open spec fn spec_typescript_node(n: EstreeNode) -> bool {
    spec_field(n, "type"@) matches Some(EstreeValue::String(t)) && spec_at(t@, 0, "TS"@)
}

/// Whether an ancestor of entry `i` is a function.
pub fn path_has_function_scope(flat: &Vec<FlatNode<'_>>, i: usize) -> (r: bool)
    requires
        i < flat@.len(),
        parents_precede(flat@),
    ensures
        r == function_ancestor(flat@, i as int),
{
    let mut cur = i;
    loop
        invariant
            cur < flat@.len(),
            parents_precede(flat@),
            function_ancestor(flat@, i as int) == function_ancestor(flat@, cur as int),
        decreases cur,
    {
        match parent_of(flat, cur) {
            Some(p) => {
                let t = flat[p].node;
                if type_is(t, "FunctionDeclaration") || type_is(t, "FunctionExpression") || type_is(
                    t,
                    "ArrowFunctionExpression",
                ) {
                    return true;
                }
                cur = p;
            },
            None => return false,
        }
    }
}

/// Whether an ancestor of entry `i` is a TypeScript node.
pub fn is_type_identifier_context(flat: &Vec<FlatNode<'_>>, i: usize) -> (r: bool)
    requires
        i < flat@.len(),
        parents_precede(flat@),
    ensures
        r == typescript_ancestor(flat@, i as int),
{
    let mut cur = i;
    loop
        invariant
            cur < flat@.len(),
            parents_precede(flat@),
            typescript_ancestor(flat@, i as int) == typescript_ancestor(flat@, cur as int),
        decreases cur,
    {
        match parent_of(flat, cur) {
            Some(p) => {
                let ts = match node_type(flat[p].node) {
                    Some(t) => starts_with(t.as_slice(), "TS"),
                    None => false,
                };
                if ts {
                    return true;
                }
                cur = p;
            },
            None => return false,
        }
    }
}

/// Whether a node declares the names under some of its members.
pub open spec fn spec_declaring_node(n: EstreeNode) -> bool {
    spec_type_is(n, "VariableDeclarator"@) || spec_type_is(n, "FunctionDeclaration"@) || spec_type_is(
        n,
        "FunctionExpression"@,
    ) || spec_type_is(n, "ArrowFunctionExpression"@) || spec_type_is(n, "ClassDeclaration"@) || spec_type_is(
        n,
        "ImportSpecifier"@,
    ) || spec_type_is(n, "ImportDefaultSpecifier"@) || spec_type_is(n, "ImportNamespaceSpecifier"@) || spec_type_is(
        n,
        "CatchClause"@,
    ) || spec_type_is(n, "LabeledStatement"@) || spec_type_is(n, "ExportSpecifier"@)
}

/// Whether a member holds a declared name.
pub open spec fn spec_naming_key(key: Seq<char>) -> bool {
    key == "id"@ || key == "params"@ || key == "local"@ || key == "exported"@ || key == "param"@ || key == "label"@
}

/// Whether entry `i` stands where an identifier names a declaration, a
/// member or a key rather than reading a variable.
pub open spec fn spec_ignored_context(flat: Seq<FlatNode>, i: int) -> bool {
    flat[i].has_parent && {
        let parent = *flat[flat[i].parent as int].node;
        let key = flat[i].via_key@;
        (spec_declaring_node(parent) && spec_naming_key(key)) || (spec_type_is(parent, "MemberExpression"@) && key
            == "property"@) || (spec_type_is(parent, "Property"@) && key == "key"@)
    }
}

/// Whether entry `i` stands where an identifier names a declaration, a
/// member or a key rather than reading a variable.
pub fn is_ignored_identifier_context(flat: &Vec<FlatNode<'_>>, i: usize) -> (r: bool)
    requires
        i < flat@.len(),
        parents_precede(flat@),
    ensures
        r == spec_ignored_context(flat@, i as int),
{
    let p = match parent_of(flat, i) {
        Some(p) => p,
        None => return false,
    };
    let parent = flat[p].node;
    let key = flat[i].via_key.as_slice();
    let declaring = type_is(parent, "VariableDeclarator") || type_is(parent, "FunctionDeclaration") || type_is(
        parent,
        "FunctionExpression",
    ) || type_is(parent, "ArrowFunctionExpression") || type_is(parent, "ClassDeclaration") || type_is(
        parent,
        "ImportSpecifier",
    ) || type_is(parent, "ImportDefaultSpecifier") || type_is(parent, "ImportNamespaceSpecifier") || type_is(
        parent,
        "CatchClause",
    ) || type_is(parent, "LabeledStatement") || type_is(parent, "ExportSpecifier");
    let naming_key = text_is(key, "id") || text_is(key, "params") || text_is(key, "local") || text_is(key, "exported")
        || text_is(key, "param") || text_is(key, "label");
    if declaring && naming_key {
        return true;
    }
    if type_is(parent, "MemberExpression") && text_is(key, "property") {
        return true;
    }
    if type_is(parent, "Property") && text_is(key, "key") {
        return true;
    }
    false
}

/// Whether, below the nearest assignment above entry `i`, the path comes
/// from its `left` member and the assignment is a plain `=`.
pub open spec fn simple_target_from(flat: Seq<FlatNode>, i: int) -> bool
    decreases i,
{
    if 0 <= i < flat.len() && flat[i].has_parent && flat[i].parent < i {
        let parent = *flat[flat[i].parent as int].node;
        if spec_type_is(parent, "AssignmentExpression"@) {
            flat[i].via_key@ == "left"@ && (spec_field(parent, RawField::Operator.spec_key()@) matches Some(
                EstreeValue::String(op),
            ) && op@ == "="@)
        } else {
            simple_target_from(flat, flat[i].parent as int)
        }
    } else {
        false
    }
}

/// Whether entry `i` is, inside the nearest enclosing assignment, its plain
/// `=` target.
pub fn is_simple_assignment_target(flat: &Vec<FlatNode<'_>>, i: usize) -> (r: bool)
    requires
        i < flat@.len(),
        parents_precede(flat@),
    ensures
        r == simple_target_from(flat@, i as int),
{
    let mut cur = i;
    loop
        invariant
            cur < flat@.len(),
            parents_precede(flat@),
            simple_target_from(flat@, i as int) == simple_target_from(flat@, cur as int),
        decreases cur,
    {
        match parent_of(flat, cur) {
            Some(p) => {
                let parent = flat[p].node;
                if type_is(parent, "AssignmentExpression") {
                    if !text_is(flat[cur].via_key.as_slice(), "left") {
                        return false;
                    }
                    return match field_str(parent, RawField::Operator) {
                        Some(op) => text_is(op.as_slice(), "="),
                        None => false,
                    };
                }
                cur = p;
            },
            None => return false,
        }
    }
}

/// The names a statement or expression reads, in order of first reading:
/// identifiers outside functions, type annotations, declaration names,
/// member names, keys and plain assignment targets.
pub fn collect_reactive_dependencies(node: &EstreeNode) -> (names: Vec<Vec<char>>)
    ensures
        exists|key: &Vec<char>|
            key@.len() == 0 && forall|x: Seq<char>|
                #![trigger has_name(names@, x)]
                has_name(names@, x) <==> reads_name_in(flat_of_node(node, 0, key, false, 0), x),
        names_view(names@) == spec_reads(node),
{
    let root_key = chars_of("");
    let flat = flatten(node, &root_key);
    let mut names: Vec<Vec<char>> = Vec::new();
    let mut i: usize = 0;
    while i < flat.len()
        invariant
            i <= flat@.len(),
            parents_precede(flat@),
            forall|x: Seq<char>|
                #![trigger has_name(names@, x)]
                has_name(names@, x) <==> exists|k: int| 0 <= k < i && #[trigger] reads_name_at(flat@, k, x),
            names_view(names@) == reads_upto(flat@, i as int),
        decreases flat.len() - i,
    {
        let ghost before = names@;
        let n = flat[i].node;
        if type_is(n, "Identifier") && !path_has_function_scope(&flat, i) && !is_ignored_identifier_context(&flat, i)
            && !is_type_identifier_context(&flat, i) && !is_simple_assignment_target(&flat, i) {
            if let Some(name) = field_str(n, RawField::Name) {
                proof {
                    crate::bindings::lemma_has_name_view(names@, name@);
                }
                push_unique(&mut names, name.as_slice());
            }
        }
        proof {
            assert(names_view(names@) == reads_upto(flat@, i + 1));
            assert forall|x: Seq<char>| #[trigger] has_name(names@, x) <==> exists|k: int|
                0 <= k < i + 1 && #[trigger] reads_name_at(flat@, k, x) by {
                if reads_name_at(flat@, i as int, x) {
                    assert(0 <= i < i + 1 && reads_name_at(flat@, i as int, x));
                }
                if exists|k: int| 0 <= k < i + 1 && #[trigger] reads_name_at(flat@, k, x) {
                    let k = choose|k: int| 0 <= k < i + 1 && #[trigger] reads_name_at(flat@, k, x);
                    if k < i {
                        assert(0 <= k < i && reads_name_at(flat@, k, x));
                    }
                }
            }
        }
        i += 1;
    }
    proof {
        reveal_strlit("");
        assert(root_key@.len() == 0);
        assert(forall|x: Seq<char>|
            #![trigger has_name(names@, x)]
            has_name(names@, x) <==> reads_name_in(flat_of_node(node, 0, &root_key, false, 0), x));
        let k = choose|k: &Vec<char>| #[trigger] crate::reactive::empty_key(k);
        crate::reactive::lemma_root_key_free(node, &root_key, k);
        lemma_reads_upto_agrees(flat@, flat_of_node(node, 0, k, false, 0), flat@.len() as int);
    }
    names
}

/// Whether entry `i` of a flattened tree is an identifier that reads the
/// variable `x`: not inside a function, not naming a declaration, member or
/// key, not in a type, and not the whole target of an assignment.
pub open spec fn reads_name_at(flat: Seq<FlatNode>, i: int, x: Seq<char>) -> bool {
    &&& 0 <= i < flat.len()
    &&& spec_type_is(*flat[i].node, "Identifier"@)
    &&& !function_ancestor(flat, i)
    &&& !spec_ignored_context(flat, i)
    &&& !typescript_ancestor(flat, i)
    &&& !simple_target_from(flat, i)
    &&& spec_field(*flat[i].node, RawField::Name.spec_key()@) matches Some(EstreeValue::String(s)) && s@ == x
}

pub(crate) proof fn lemma_typescript_ancestor_agrees(f1: Seq<crate::estree::FlatNode>, f2: Seq<crate::estree::FlatNode>, i: int)
    requires
        crate::reactive::flats_agree(f1, f2),
    ensures
        typescript_ancestor(f1, i) == typescript_ancestor(f2, i),
    decreases i,
{
    if 0 <= i < f1.len() && f1[i].has_parent && f1[i].parent < i {
        assert(f1[i].node == f2[i].node);
        lemma_typescript_ancestor_agrees(f1, f2, f1[i].parent as int);
    }
}

pub(crate) proof fn lemma_simple_target_agrees(f1: Seq<crate::estree::FlatNode>, f2: Seq<crate::estree::FlatNode>, i: int)
    requires
        crate::reactive::flats_agree(f1, f2),
    ensures
        simple_target_from(f1, i) == simple_target_from(f2, i),
    decreases i,
{
    if 0 <= i < f1.len() && f1[i].has_parent && f1[i].parent < i {
        assert(f1[i].node == f2[i].node);
        assert(f1[f1[i].parent as int].node == f2[f1[i].parent as int].node);
        lemma_simple_target_agrees(f1, f2, f1[i].parent as int);
    }
}

/// Whether entry `i` of two agreeing flattened trees reads `x` is the same.
pub(crate) proof fn lemma_reads_name_agrees(f1: Seq<FlatNode>, f2: Seq<FlatNode>, i: int, x: Seq<char>)
    requires
        crate::reactive::flats_agree(f1, f2),
        parents_precede(f1),
    ensures
        reads_name_at(f1, i, x) == reads_name_at(f2, i, x),
{
    if 0 <= i < f1.len() {
        assert(f1[i].node == f2[i].node);
        crate::reactive::lemma_function_ancestor_agrees(f1, f2, i);
        lemma_typescript_ancestor_agrees(f1, f2, i);
        lemma_simple_target_agrees(f1, f2, i);
        if f1[i].has_parent {
            assert(f1[f1[i].parent as int].node == f2[f1[i].parent as int].node);
        }
        assert(spec_ignored_context(f1, i) == spec_ignored_context(f2, i));
    }
}

/// The name that entry `i` of a flattened tree reads, if it reads one.
pub open spec fn name_read_at(flat: Seq<FlatNode>, i: int) -> Option<Seq<char>> {
    match spec_field(*flat[i].node, RawField::Name.spec_key()@) {
        Some(EstreeValue::String(x)) => if reads_name_at(flat, i, x@) {
            Some(x@)
        } else {
            None
        },
        _ => None,
    }
}

/// The names that entries `[..i]` of a flattened tree read, each once, in
/// the order they are first read.
pub open spec fn reads_upto(flat: Seq<FlatNode>, i: int) -> Seq<Seq<char>>
    decreases i,
{
    if 0 < i <= flat.len() {
        let prev = reads_upto(flat, i - 1);
        match name_read_at(flat, i - 1) {
            Some(x) => if prev.contains(x) {
                prev
            } else {
                prev.push(x)
            },
            None => prev,
        }
    } else {
        Seq::empty()
    }
}

proof fn lemma_reads_upto_agrees(f1: Seq<FlatNode>, f2: Seq<FlatNode>, i: int)
    requires
        crate::reactive::flats_agree(f1, f2),
        parents_precede(f1),
    ensures
        reads_upto(f1, i) == reads_upto(f2, i),
    decreases i,
{
    if 0 < i <= f1.len() {
        lemma_reads_upto_agrees(f1, f2, i - 1);
        assert(f1[i - 1].node == f2[i - 1].node);
        assert forall|x: Seq<char>| #[trigger] reads_name_at(f1, i - 1, x) == reads_name_at(f2, i - 1, x) by {
            lemma_reads_name_agrees(f1, f2, i - 1, x);
        }
        assert(name_read_at(f1, i - 1) == name_read_at(f2, i - 1));
    }
}

/// The names that an expression reads, each once, in the order it first
/// reads them.
pub open spec fn spec_reads(node: &EstreeNode) -> Seq<Seq<char>> {
    let key = choose|k: &Vec<char>| #[trigger] crate::reactive::empty_key(k);
    let flat = flat_of_node(node, 0, key, false, 0);
    reads_upto(flat, flat.len() as int)
}

/// Whether some entry of a flattened tree reads the variable `x`.
pub open spec fn reads_name_in(flat: Seq<FlatNode>, x: Seq<char>) -> bool {
    exists|i: int| #[trigger] reads_name_at(flat, i, x)
}

/// A dependency graph: each declared name with the names it reads.
pub struct DependencyGraph {
    pub names: Vec<Vec<char>>,
    pub edges: Vec<Vec<Vec<char>>>,
}

impl DependencyGraph {
    /// Both lists have one entry per name.
    pub open spec fn wf(&self) -> bool {
        self.names@.len() == self.edges@.len()
    }

    /// The index of `name` in the graph.
    pub fn index_of(&self, name: &[char]) -> (r: Option<usize>)
        ensures
            r matches Some(i) ==> i < self.names@.len() && self.names@[i as int]@ == name@,
            r is None ==> !has_name(self.names@, name@),
            match r {
                Some(i) => Some(i as int),
                None => None,
            } == first_index_from(names_view(self.names@), 0, name@),
    {
        let mut i: usize = 0;
        while i < self.names.len()
            invariant
                i <= self.names@.len(),
                forall|j: int| 0 <= j < i ==> (#[trigger] self.names@[j])@ != name@,
                first_index_from(names_view(self.names@), 0, name@) == first_index_from(names_view(self.names@), i as int, name@),
            decreases self.names.len() - i,
        {
            if crate::text::chars_eq(self.names[i].as_slice(), name) {
                return Some(i);
            }
            i += 1;
        }
        None
    }
}

/// Whether the graph says that `a` reads `b`: some entry for `a` lists `b`.
pub open spec fn depends_on(graph: DependencyGraph, a: Seq<char>, b: Seq<char>) -> bool {
    exists|i: int|
        0 <= i < graph.names@.len() && i < graph.edges@.len() && (#[trigger] graph.names@[i])@ == a && has_name(
            graph.edges@[i]@,
            b,
        )
}

/// Whether each name of `path` reads the next.
pub open spec fn is_dependency_path(graph: DependencyGraph, path: Seq<Vec<char>>) -> bool {
    forall|j: int| 0 <= j < path.len() - 1 ==> depends_on(graph, (#[trigger] path[j])@, path[j + 1]@)
}

/// Whether `cycle` is a path of at least one step that ends where it starts.
pub open spec fn is_dependency_cycle(graph: DependencyGraph, cycle: Seq<Vec<char>>) -> bool {
    &&& cycle.len() >= 2
    &&& is_dependency_path(graph, cycle)
    &&& cycle[0]@ == cycle[cycle.len() - 1]@
}

/// The position of `name` on the stack, if it is there.
fn stack_position(stack: &Vec<Vec<char>>, name: &[char]) -> (r: Option<usize>)
    ensures
        r matches Some(i) ==> i < stack@.len() && stack@[i as int]@ == name@ && forall|j: int|
            0 <= j < i ==> (#[trigger] stack@[j])@ != name@,
        r is None ==> forall|j: int| 0 <= j < stack@.len() ==> (#[trigger] stack@[j])@ != name@,
        match r {
            Some(i) => Some(i as int),
            None => None,
        } == first_index_from(names_view(stack@), 0, name@),
{
    let mut i: usize = 0;
    while i < stack.len()
        invariant
            i <= stack@.len(),
            forall|j: int| 0 <= j < i ==> (#[trigger] stack@[j])@ != name@,
            first_index_from(names_view(stack@), 0, name@) == first_index_from(names_view(stack@), i as int, name@),
        decreases stack.len() - i,
    {
        if crate::text::chars_eq(stack[i].as_slice(), name) {
            return Some(i);
        }
        i += 1;
    }
    None
}

/// A dependency graph as plain values: its names, and for each name the
/// names it reads.
pub type GraphView = (Seq<Seq<char>>, Seq<Seq<Seq<char>>>);

/// A dependency graph as plain values.
pub open spec fn graph_view(g: DependencyGraph) -> GraphView {
    (names_view(g.names@), g.edges@.map_values(|e: Vec<Vec<char>>| names_view(e@)))
}

/// The names that entry `idx` of a graph reads.
pub open spec fn graph_deps(g: GraphView, idx: int) -> Seq<Seq<char>> {
    if 0 <= idx < g.1.len() {
        g.1[idx]
    } else {
        Seq::empty()
    }
}

/// Depth-first search for a cycle through `name`, with the names on the
/// current path on `stack` and the fully explored ones in `visited`: the
/// cycle it finds, if any, and the explored names afterwards. A name that is
/// on the stack closes a cycle, from its first place there; an explored name,
/// or running out of `fuel`, ends the search there; otherwise the names it
/// reads are searched in turn.
pub open spec fn dfs_from(
    g: GraphView,
    name: Seq<char>,
    visited: Set<Seq<char>>,
    stack: Seq<Seq<char>>,
    fuel: nat,
) -> (Option<Seq<Seq<char>>>, Set<Seq<char>>)
    decreases fuel, 1int, 0int,
{
    match first_index_from(stack, 0, name) {
        Some(k) => (Some(stack.subrange(k, stack.len() as int).push(name)), visited),
        None => if visited.contains(name) || fuel == 0 {
            (None, visited)
        } else {
            let deps = match first_index_from(g.0, 0, name) {
                Some(idx) => graph_deps(g, idx),
                None => Seq::empty(),
            };
            let (r, v) = dfs_deps(g, deps, 0, visited, stack.push(name), (fuel - 1) as nat);
            if r is Some {
                (r, v)
            } else {
                (None, v.insert(name))
            }
        },
    }
}

/// The search from each of `deps[j..]` in turn, until one finds a cycle.
pub open spec fn dfs_deps(
    g: GraphView,
    deps: Seq<Seq<char>>,
    j: int,
    visited: Set<Seq<char>>,
    stack: Seq<Seq<char>>,
    fuel: nat,
) -> (Option<Seq<Seq<char>>>, Set<Seq<char>>)
    decreases fuel + 1, 0int, deps.len() - j,
{
    if 0 <= j < deps.len() {
        let (r, v) = dfs_from(g, deps[j], visited, stack, fuel);
        if r is Some {
            (r, v)
        } else {
            dfs_deps(g, deps, j + 1, v, stack, fuel)
        }
    } else {
        (None, visited)
    }
}

/// The depth bound of the search: one more than the number of names.
pub open spec fn cycle_fuel(g: GraphView) -> nat {
    if g.0.len() < usize::MAX {
        (g.0.len() + 1) as nat
    } else {
        g.0.len()
    }
}

/// The first cycle found by searching from each of the names `[i..]` in turn.
pub open spec fn first_cycle_from(g: GraphView, i: int, visited: Set<Seq<char>>) -> Option<Seq<Seq<char>>>
    decreases g.0.len() - i,
{
    if 0 <= i < g.0.len() {
        let (r, v) = dfs_from(g, g.0[i], visited, Seq::empty(), cycle_fuel(g));
        if r is Some {
            r
        } else {
            first_cycle_from(g, i + 1, v)
        }
    } else {
        None
    }
}

/// The cycle that the search reports for a graph, if any.
pub open spec fn spec_first_cycle(g: GraphView) -> Option<Seq<Seq<char>>> {
    first_cycle_from(g, 0, Set::empty())
}

/// A found cycle as plain values.
pub open spec fn cycle_view(r: Option<Vec<Vec<char>>>) -> Option<Seq<Seq<char>>> {
    match r {
        Some(c) => Some(names_view(c@)),
        None => None,
    }
}

/// Depth-first search for a cycle through `name`. `stack` holds the names on
/// the current path, each read by the one before it, the last of them
/// reading `name`; `visited` holds those fully explored. A cycle is returned
/// as the path from the repeated name back to it, and it is a cycle of the
/// graph. `fuel` bounds the depth; the names on the stack are distinct names
/// of the graph, so a fuel above their number is never used up. When no cycle
/// is found the stack is left as it was.
pub fn find_cycle(
    name: &[char],
    graph: &DependencyGraph,
    visited: &mut Vec<Vec<char>>,
    stack: &mut Vec<Vec<char>>,
    fuel: usize,
) -> (r: Option<Vec<Vec<char>>>)
    requires
        graph.wf(),
        is_dependency_path(*graph, old(stack)@),
        old(stack)@.len() > 0 ==> depends_on(*graph, old(stack)@[old(stack)@.len() - 1]@, name@),
    ensures
        r matches Some(c) ==> is_dependency_cycle(*graph, c@),
        r is None ==> final(stack)@ == old(stack)@,
        (cycle_view(r), names_set(final(visited)@)) == dfs_from(
            graph_view(*graph),
            name@,
            names_set(old(visited)@),
            names_view(old(stack)@),
            fuel as nat,
        ),
    decreases fuel,
{
    if let Some(k) = stack_position(stack, name) {
        let mut cycle: Vec<Vec<char>> = Vec::new();
        let mut j = k;
        while j < stack.len()
            invariant
                k <= j <= stack@.len(),
                k < stack@.len(),
                cycle@.len() == j - k,
                forall|m: int| 0 <= m < cycle@.len() ==> (#[trigger] cycle@[m])@ == stack@[k + m]@,
            decreases stack.len() - j,
        {
            cycle.push(crate::text::copy_chars(stack[j].as_slice()));
            j += 1;
        }
        cycle.push(crate::text::copy_chars(name));
        proof {
            assert(names_view(cycle@) =~= names_view(stack@).subrange(k as int, stack@.len() as int).push(name@));
            let c = cycle@;
            let s = stack@;
            assert(c.len() == s.len() - k + 1);
            assert forall|m: int| 0 <= m < c.len() - 1 implies depends_on(*graph, (#[trigger] c[m])@, c[m + 1]@) by {
                if m + 1 < c.len() - 1 {
                    assert(c[m]@ == s[k + m]@);
                    assert(c[m + 1]@ == s[k + m + 1]@);
                    assert(depends_on(*graph, s[k + m]@, s[k + m + 1]@));
                } else {
                    assert(c[m]@ == s[s.len() - 1]@);
                }
            }
        }
        return Some(cycle);
    }
    if contains_name(visited, name) || fuel == 0 {
        proof {
            assert(names_set(visited@).contains(name@) == has_name(visited@, name@));
        }
        return None;
    }
    proof {
        assert(names_set(visited@).contains(name@) == has_name(visited@, name@));
    }
    let ghost before = stack@;
    let ghost visited0 = names_set(visited@);
    stack.push(crate::text::copy_chars(name));
    proof {
        assert forall|j: int| 0 <= j < stack@.len() - 1 implies depends_on(
            *graph,
            (#[trigger] stack@[j])@,
            stack@[j + 1]@,
        ) by {
            if j + 1 < before.len() {
                assert(stack@[j] == before[j]);
                assert(stack@[j + 1] == before[j + 1]);
            }
        }
    }
    let ghost deps_view = match first_index_from(names_view(graph.names@), 0, name@) {
        Some(idx) => graph_deps(graph_view(*graph), idx),
        None => Seq::<Seq<char>>::empty(),
    };
    proof {
        assert(names_view(stack@) =~= names_view(before).push(name@));
    }
    if let Some(idx) = graph.index_of(name) {
        let deps = &graph.edges[idx];
        let mut i: usize = 0;
        while i < deps.len()
            invariant
                i <= deps@.len(),
                deps_view == names_view(deps@),
                graph_view(*graph).1[idx as int] == names_view(deps@),
                names_view(stack@) == names_view(before).push(name@),
                before == old(stack)@,
                visited0 == names_set(old(visited)@),
                first_index_from(names_view(before), 0, name@) is None,
                !visited0.contains(name@),
                first_index_from(names_view(graph.names@), 0, name@) == Some(idx as int),
                deps_view == graph_deps(graph_view(*graph), idx as int),
                dfs_deps(graph_view(*graph), deps_view, 0, visited0, names_view(before).push(name@), (fuel - 1) as nat) == dfs_deps(
                    graph_view(*graph),
                    deps_view,
                    i as int,
                    names_set(visited@),
                    names_view(before).push(name@),
                    (fuel - 1) as nat,
                ),
                graph.wf(),
                fuel > 0,
                idx < graph.names@.len(),
                graph.names@[idx as int]@ == name@,
                *deps == graph.edges@[idx as int],
                stack@ == before.push(stack@[stack@.len() - 1]),
                stack@.len() == before.len() + 1,
                stack@[stack@.len() - 1]@ == name@,
                is_dependency_path(*graph, stack@),
            decreases deps.len() - i,
        {
            proof {
                assert(has_name(deps@, deps@[i as int]@));
                assert(depends_on(*graph, name@, deps@[i as int]@));
            }
            let ghost v_before = names_set(visited@);
            let found = find_cycle(deps[i].as_slice(), graph, visited, stack, fuel - 1);
            proof {
                assert(deps_view[i as int] == deps@[i as int]@);
            }
            if found.is_some() {
                proof {
                    assert(dfs_deps(graph_view(*graph), deps_view, i as int, v_before, names_view(before).push(name@), (fuel - 1) as nat)
                        == (cycle_view(found), names_set(visited@)));
                }
                return found;
            }
            i += 1;
        }
    }
    let _ = stack.pop();
    proof {
        assert(stack@ =~= before);
    }
    push_unique(visited, name);
    None
}

/// The first cycle found by searching from each name in turn; what it
/// returns is a cycle of the graph.
pub fn first_cycle(graph: &DependencyGraph) -> (r: Option<Vec<Vec<char>>>)
    requires
        graph.wf(),
    ensures
        r matches Some(c) ==> is_dependency_cycle(*graph, c@),
        cycle_view(r) == spec_first_cycle(graph_view(*graph)),
{
    let mut visited: Vec<Vec<char>> = Vec::new();
    let mut stack: Vec<Vec<char>> = Vec::new();
    let fuel = if graph.names.len() < usize::MAX { graph.names.len() + 1 } else { graph.names.len() };
    let mut i: usize = 0;
    proof {
        assert(names_set(visited@) =~= Set::<Seq<char>>::empty());
    }
    while i < graph.names.len()
        invariant
            i <= graph.names@.len(),
            graph.wf(),
            stack@.len() == 0,
            fuel as nat == cycle_fuel(graph_view(*graph)),
            spec_first_cycle(graph_view(*graph)) == first_cycle_from(graph_view(*graph), i as int, names_set(visited@)),
        decreases graph.names.len() - i,
    {
        proof {
            assert(names_view(stack@) =~= Seq::<Seq<char>>::empty());
        }
        let found = find_cycle(graph.names[i].as_slice(), graph, &mut visited, &mut stack, fuel);
        if found.is_some() {
            return found;
        }
        i += 1;
    }
    None
}

/// The first `n` names, joined by arrows.
pub open spec fn joined_names(names: Seq<Seq<char>>, n: int) -> Seq<char>
    decreases n,
{
    if n <= 0 {
        Seq::empty()
    } else if n == 1 {
        names[0]
    } else {
        joined_names(names, n - 1) + " \u{2192} "@ + names[n - 1]
    }
}

/// The message for a cycle of declarations: its names, joined by arrows.
pub open spec fn cycle_error_message(cycle: Seq<Seq<char>>) -> Seq<char> {
    "Cyclical dependency detected: "@ + joined_names(cycle, cycle.len() as int)
}

/// The message for a cycle of reactive declarations: its names, joined by arrows.
pub fn cycle_message(cycle: &Vec<Vec<char>>) -> (m: Vec<char>)
    ensures
        m@ == cycle_error_message(names_view(cycle@)),
{
    let mut m = chars_of("Cyclical dependency detected: ");
    let mut i: usize = 0;
    while i < cycle.len()
        invariant
            i <= cycle@.len(),
            m@ == "Cyclical dependency detected: "@ + joined_names(names_view(cycle@), i as int),
        decreases cycle.len() - i,
    {
        if i > 0 {
            push_str(&mut m, " \u{2192} ");
        }
        push_chars(&mut m, cycle[i].as_slice());
        proof {
            assert(names_view(cycle@)[i as int] == cycle@[i as int]@);
            assert(m@ =~= "Cyclical dependency detected: "@ + joined_names(names_view(cycle@), i + 1));
        }
        i += 1;
    }
    m
}

} // verus!
