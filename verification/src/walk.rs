//! Depth-first walks over template fragments, their descendants and `{:else if}` branches.
use vstd::prelude::*;

use crate::ast::{Alternate, Entry, Fragment, IfBlock, Node, Search};

verus! {

/// What a visitor does at an entry: `enter` before the entry's descendants
/// (it may skip them or stop the walk), `leave` after them. The two spec
/// functions say which states and answers each call can give.
pub trait Visitor<'a, T>: Sized {
    /// Whether entering `entry` in this state can lead to the state `next`
    /// with the answer `answer`.
    spec fn entered(&self, entry: Entry<'a>, next: Self, answer: Search<T>) -> bool;

    /// Whether leaving `entry` in this state can lead to the state `next`.
    spec fn left(&self, entry: Entry<'a>, next: Self) -> bool;

    fn enter(&mut self, entry: Entry<'a>) -> (r: Search<T>)
        ensures
            old(self).entered(entry, *final(self), r),
    ;

    fn leave(&mut self, entry: Entry<'a>)
        ensures
            old(self).left(entry, *final(self)),
    ;
}

/// Marks a state and a result that a walk passes through on its way; it
/// holds of every pair and only serves to name such intermediate points.
pub open spec fn midway<V, R>(v: V, r: R) -> bool {
    true
}

/// Whether a walk over `f.nodes[i..]` and their descendants, from the
/// visitor state `v`, can end in the state `w` with the result `r`: each
/// node in turn, until one gives a value.
pub open spec fn walk_from<'a, T, V: Visitor<'a, T>>(f: &'a Fragment, i: int, v: V, w: V, r: Option<T>) -> bool
    decreases f, f.nodes@.len() - i,
{
    if 0 <= i < f.nodes@.len() {
        exists|m: V, rm: Option<T>|
            #[trigger] midway(m, rm) && walk_at(&f.nodes@[i], v, m, rm) && match rm {
                Some(t) => r == Some(t) && w == m,
                None => walk_from(f, i + 1, m, w, r),
            }
    } else {
        w == v && r is None
    }
}

/// The walk at a node: `enter`; on `Found` the walk stops with the value; on
/// `Skip` the node is left at once; on `Continue` its descendants are walked,
/// and unless they gave a value the node is then left.
pub open spec fn walk_at<'a, T, V: Visitor<'a, T>>(n: &'a Node, v: V, w: V, r: Option<T>) -> bool
    decreases n, 3int,
{
    exists|m: V, a: Search<T>|
        #[trigger] v.entered(Entry::Node(n), m, a) && match a {
            Search::Found(t) => r == Some(t) && w == m,
            Search::Skip => r is None && m.left(Entry::Node(n), w),
            Search::Continue => exists|m2: V, r2: Option<T>|
                #[trigger] midway(m2, r2) && walk_below(n, m, m2, r2) && match r2 {
                    Some(t) => r == Some(t) && w == m2,
                    None => r is None && m2.left(Entry::Node(n), w),
                },
        }
}

/// The walk at an `{:else if}` branch, in the same way as at a node.
pub open spec fn walk_at_else_if<'a, T, V: Visitor<'a, T>>(b: &'a IfBlock, v: V, w: V, r: Option<T>) -> bool
    decreases b, 3int,
{
    exists|m: V, a: Search<T>|
        #[trigger] v.entered(Entry::IfBlock(b), m, a) && match a {
            Search::Found(t) => r == Some(t) && w == m,
            Search::Skip => r is None && m.left(Entry::IfBlock(b), w),
            Search::Continue => exists|m2: V, r2: Option<T>|
                #[trigger] midway(m2, r2) && walk_if_below(b, m, m2, r2) && match r2 {
                    Some(t) => r == Some(t) && w == m2,
                    None => r is None && m2.left(Entry::IfBlock(b), w),
                },
        }
}

/// The walk over an optional fragment.
pub open spec fn walk_optional<'a, T, V: Visitor<'a, T>>(f: &'a Option<Fragment>, v: V, w: V, r: Option<T>) -> bool
    decreases f, 1int,
{
    match f {
        Some(fr) => walk_from(fr, 0, v, w, r),
        None => w == v && r is None,
    }
}

/// The walk over an `{#if}` block's alternate branch.
pub open spec fn walk_alternate<'a, T, V: Visitor<'a, T>>(b: &'a IfBlock, v: V, w: V, r: Option<T>) -> bool
    decreases b, 1int,
{
    match &b.alternate {
        Some(alternate) => {
            proof {
                assert(decreases_to!(b => b.alternate));
            }
            match &**alternate {
                Alternate::Fragment(fr) => walk_from(fr, 0, v, w, r),
                Alternate::IfBlock(inner) => walk_at_else_if(inner, v, w, r),
            }
        },
        None => w == v && r is None,
    }
}

/// The walk over an `{#if}` block's branches: the consequent, then, unless
/// it gave a value, the alternate.
pub open spec fn walk_if_below<'a, T, V: Visitor<'a, T>>(b: &'a IfBlock, v: V, w: V, r: Option<T>) -> bool
    decreases b, 2int,
{
    exists|m: V, r1: Option<T>|
        #[trigger] midway(m, r1) && walk_from(&b.consequent, 0, v, m, r1) && match r1 {
            Some(t) => r == Some(t) && w == m,
            None => walk_alternate(b, m, w, r),
        }
}

/// The walk over a node's descendants: the fragments it holds, in order
/// (an `{#each}` body then its fallback; an `{#await}` pending, then, catch).
pub open spec fn walk_below<'a, T, V: Visitor<'a, T>>(n: &'a Node, v: V, w: V, r: Option<T>) -> bool
    decreases n, 2int,
{
    match n {
        Node::IfBlock(b) => walk_if_below(b, v, w, r),
        Node::EachBlock(b) => exists|m: V, r1: Option<T>|
            #[trigger] midway(m, r1) && walk_from(&b.body, 0, v, m, r1) && match r1 {
                Some(t) => r == Some(t) && w == m,
                None => walk_optional(&b.fallback, m, w, r),
            },
        Node::KeyBlock(b) => walk_from(&b.fragment, 0, v, w, r),
        Node::AwaitBlock(b) => exists|m: V, r1: Option<T>|
            #[trigger] midway(m, r1) && walk_optional(&b.pending, v, m, r1) && match r1 {
                Some(t) => r == Some(t) && w == m,
                None => exists|m2: V, r2: Option<T>|
                    #[trigger] midway(m2, r2) && walk_optional(&b.then_branch, m, m2, r2) && match r2 {
                        Some(t) => r == Some(t) && w == m2,
                        None => walk_optional(&b.catch, m2, w, r),
                    },
            },
        Node::SnippetBlock(b) => walk_from(&b.body, 0, v, w, r),
        Node::RegularElement(e) => walk_from(&e.fragment, 0, v, w, r),
        Node::Component(e) => walk_from(&e.fragment, 0, v, w, r),
        Node::SlotElement(e) => walk_from(&e.fragment, 0, v, w, r),
        Node::SvelteHead(e) => walk_from(&e.fragment, 0, v, w, r),
        Node::SvelteBody(e) => walk_from(&e.fragment, 0, v, w, r),
        Node::SvelteWindow(e) => walk_from(&e.fragment, 0, v, w, r),
        Node::SvelteDocument(e) => walk_from(&e.fragment, 0, v, w, r),
        Node::SvelteComponent(e) => walk_from(&e.fragment, 0, v, w, r),
        Node::SvelteElement(e) => walk_from(&e.fragment, 0, v, w, r),
        Node::SvelteSelf(e) => walk_from(&e.fragment, 0, v, w, r),
        Node::SvelteFragment(e) => walk_from(&e.fragment, 0, v, w, r),
        Node::SvelteBoundary(e) => walk_from(&e.fragment, 0, v, w, r),
        Node::TitleElement(e) => walk_from(&e.fragment, 0, v, w, r),
        _ => w == v && r is None,
    }
}

fn walk_fragment<'a, T, V: Visitor<'a, T>>(fragment: &'a Fragment, visitor: &mut V) -> (r: Option<T>)
    ensures
        walk_from(fragment, 0, *old(visitor), *final(visitor), r),
    decreases fragment, 0nat,
{
    let ghost v0 = *visitor;
    let mut i: usize = 0;
    while i < fragment.nodes.len()
        invariant
            i <= fragment.nodes@.len(),
            v0 == *old(visitor),
            forall|w: V, q: Option<T>|
                #[trigger] walk_from(fragment, i as int, *visitor, w, q) ==> walk_from(fragment, 0, v0, w, q),
        decreases fragment.nodes.len() - i,
    {
        proof {
            assert(decreases_to!(fragment => fragment.nodes));
            assert(decreases_to!(fragment.nodes => fragment.nodes@));
            assert(decreases_to!(fragment.nodes@ => fragment.nodes@[i as int]));
        }
        let ghost vi = *visitor;
        let found = walk_node(&fragment.nodes[i], visitor);
        let ghost m = *visitor;
        proof {
            assert(midway(m, found));
        }
        if found.is_some() {
            proof {
                assert(walk_from(fragment, i as int, vi, m, found));
            }
            return found;
        }
        proof {
            assert forall|w: V, q: Option<T>| #[trigger] walk_from(fragment, i + 1, m, w, q) implies walk_from(
                fragment,
                0,
                v0,
                w,
                q,
            ) by {
                assert(walk_from(fragment, i as int, vi, w, q));
            }
        }
        i += 1;
    }
    proof {
        assert(walk_from(fragment, i as int, *visitor, *visitor, None));
    }
    None
}

fn walk_node<'a, T, V: Visitor<'a, T>>(node: &'a Node, visitor: &mut V) -> (r: Option<T>)
    ensures
        walk_at(node, *old(visitor), *final(visitor), r),
    decreases node, 2nat,
{
    let a = visitor.enter(Entry::Node(node));
    match a {
        Search::Found(found) => {
            return Some(found);
        },
        Search::Skip => {
            visitor.leave(Entry::Node(node));
            return None;
        },
        Search::Continue => {},
    }
    let found = walk_node_children(node, visitor);
    let ghost m2 = *visitor;
    if found.is_none() {
        visitor.leave(Entry::Node(node));
    }
    proof {
        assert(midway(m2, found));
    }
    found
}

fn walk_else_if<'a, T, V: Visitor<'a, T>>(block: &'a IfBlock, visitor: &mut V) -> (r: Option<T>)
    ensures
        walk_at_else_if(block, *old(visitor), *final(visitor), r),
    decreases block, 2nat,
{
    let a = visitor.enter(Entry::IfBlock(block));
    match a {
        Search::Found(found) => {
            return Some(found);
        },
        Search::Skip => {
            visitor.leave(Entry::IfBlock(block));
            return None;
        },
        Search::Continue => {},
    }
    let found = walk_if_block_children(block, visitor);
    let ghost m2 = *visitor;
    if found.is_none() {
        visitor.leave(Entry::IfBlock(block));
    }
    proof {
        assert(midway(m2, found));
    }
    found
}

fn walk_if_block_children<'a, T, V: Visitor<'a, T>>(block: &'a IfBlock, visitor: &mut V) -> (r: Option<T>)
    ensures
        walk_if_below(block, *old(visitor), *final(visitor), r),
    decreases block, 1nat,
{
    let first = walk_fragment(&block.consequent, visitor);
    let ghost m = *visitor;
    proof {
        assert(midway(m, first));
    }
    if first.is_some() {
        return first;
    }
    let r = match &block.alternate {
        Some(alternate) => {
            proof {
                assert(decreases_to!(block => block.alternate));
            }
            match &**alternate {
                Alternate::Fragment(fragment) => walk_fragment(fragment, visitor),
                Alternate::IfBlock(inner) => walk_else_if(inner, visitor),
            }
        },
        None => None,
    };
    proof {
        assert(walk_alternate(block, m, *visitor, r));
    }
    r
}

fn walk_node_children<'a, T, V: Visitor<'a, T>>(node: &'a Node, visitor: &mut V) -> (r: Option<T>)
    ensures
        walk_below(node, *old(visitor), *final(visitor), r),
    decreases node, 1nat,
{
    match node {
        Node::IfBlock(block) => walk_if_block_children(block, visitor),
        Node::EachBlock(block) => {
            let first = walk_fragment(&block.body, visitor);
            let ghost m = *visitor;
            proof {
                assert(midway(m, first));
            }
            if first.is_some() {
                return first;
            }
            let r = match &block.fallback {
                Some(f) => walk_fragment(f, visitor),
                None => None,
            };
            proof {
                assert(walk_optional(&block.fallback, m, *visitor, r));
            }
            r
        },
        Node::KeyBlock(block) => walk_fragment(&block.fragment, visitor),
        Node::AwaitBlock(block) => {
            let p = match &block.pending {
                Some(f) => walk_fragment(f, visitor),
                None => None,
            };
            let ghost m = *visitor;
            proof {
                assert(midway(m, p));
            }
            if p.is_some() {
                return p;
            }
            let t = match &block.then_branch {
                Some(f) => walk_fragment(f, visitor),
                None => None,
            };
            let ghost m2 = *visitor;
            proof {
                assert(midway(m2, t));
            }
            if t.is_some() {
                return t;
            }
            let c = match &block.catch {
                Some(f) => walk_fragment(f, visitor),
                None => None,
            };
            proof {
                assert(walk_optional(&block.catch, m2, *visitor, c));
            }
            c
        },
        Node::SnippetBlock(block) => walk_fragment(&block.body, visitor),
        Node::RegularElement(e) => walk_fragment(&e.fragment, visitor),
        Node::Component(e) => walk_fragment(&e.fragment, visitor),
        Node::SlotElement(e) => walk_fragment(&e.fragment, visitor),
        Node::SvelteHead(e) => walk_fragment(&e.fragment, visitor),
        Node::SvelteBody(e) => walk_fragment(&e.fragment, visitor),
        Node::SvelteWindow(e) => walk_fragment(&e.fragment, visitor),
        Node::SvelteDocument(e) => walk_fragment(&e.fragment, visitor),
        Node::SvelteComponent(e) => walk_fragment(&e.fragment, visitor),
        Node::SvelteElement(e) => walk_fragment(&e.fragment, visitor),
        Node::SvelteSelf(e) => walk_fragment(&e.fragment, visitor),
        Node::SvelteFragment(e) => walk_fragment(&e.fragment, visitor),
        Node::SvelteBoundary(e) => walk_fragment(&e.fragment, visitor),
        Node::TitleElement(e) => walk_fragment(&e.fragment, visitor),
        _ => None,
    }
}

/// A walk over a fragment without nodes calls neither `enter` nor `leave`:
/// it finds nothing and leaves the visitor as it was.
pub proof fn lemma_walk_empty<'a, T, V: Visitor<'a, T>>(f: &'a Fragment, v: V, w: V, r: Option<T>)
    requires
        f.nodes@.len() == 0,
        walk_from(f, 0, v, w, r),
    ensures
        r is None,
        w == v,
{
}

/// Whether entering `entry` in the state `v` can only give the answer `a`.
pub open spec fn answers_only_with<'a, T, V: Visitor<'a, T>>(v: V, entry: Entry<'a>, a: Search<T>) -> bool {
    forall|m: V, b: Search<T>| #[trigger] v.entered(entry, m, b) ==> b == a
}

/// Where `enter` skips a node, the walk at that node enters it, leaves it at
/// once, and walks none of its descendants; it finds nothing there.
pub proof fn lemma_walk_skip_prunes<'a, T, V: Visitor<'a, T>>(n: &'a Node, v: V, w: V, r: Option<T>)
    requires
        answers_only_with(v, Entry::Node(n), Search::<T>::Skip),
        walk_at(n, v, w, r),
    ensures
        r is None,
        exists|m: V| #[trigger] v.entered(Entry::Node(n), m, Search::<T>::Skip) && m.left(Entry::Node(n), w),
{
    let (m, a) = choose|m: V, a: Search<T>|
        #[trigger] v.entered(Entry::Node(n), m, a) && match a {
            Search::Found(t) => r == Some(t) && w == m,
            Search::Skip => r is None && m.left(Entry::Node(n), w),
            Search::Continue => exists|m2: V, r2: Option<T>|
                #[trigger] midway(m2, r2) && walk_below(n, m, m2, r2) && match r2 {
                    Some(t) => r == Some(t) && w == m2,
                    None => r is None && m2.left(Entry::Node(n), w),
                },
        };
    assert(a == Search::<T>::Skip);
}

/// Where `enter` finds `t` at a node, the walk there gives `t`, without
/// walking the node's descendants or leaving it: the state is the one that
/// entering left.
pub proof fn lemma_walk_found_ends<'a, T, V: Visitor<'a, T>>(n: &'a Node, v: V, w: V, r: Option<T>, t: T)
    requires
        answers_only_with(v, Entry::Node(n), Search::Found(t)),
        walk_at(n, v, w, r),
    ensures
        r == Some(t),
        v.entered(Entry::Node(n), w, Search::Found(t)),
{
    let (m, a) = choose|m: V, a: Search<T>|
        #[trigger] v.entered(Entry::Node(n), m, a) && match a {
            Search::Found(t) => r == Some(t) && w == m,
            Search::Skip => r is None && m.left(Entry::Node(n), w),
            Search::Continue => exists|m2: V, r2: Option<T>|
                #[trigger] midway(m2, r2) && walk_below(n, m, m2, r2) && match r2 {
                    Some(t) => r == Some(t) && w == m2,
                    None => r is None && m2.left(Entry::Node(n), w),
                },
        };
    assert(a == Search::Found(t));
}

/// Where `enter` continues at a node, the walk there walks the node's
/// descendants next; unless they give a value, it then leaves the node, so
/// every `leave` of a descendant comes between the node's `enter` and its
/// `leave`.
pub proof fn lemma_walk_continue_nests<'a, T, V: Visitor<'a, T>>(n: &'a Node, v: V, w: V, r: Option<T>)
    requires
        answers_only_with(v, Entry::Node(n), Search::<T>::Continue),
        walk_at(n, v, w, r),
    ensures
        exists|m: V, m2: V, r2: Option<T>|
            #![trigger v.entered(Entry::Node(n), m, Search::<T>::Continue), walk_below(n, m, m2, r2)]
            v.entered(Entry::Node(n), m, Search::<T>::Continue) && walk_below(n, m, m2, r2) && match r2 {
                Some(t) => r == Some(t) && w == m2,
                None => r is None && m2.left(Entry::Node(n), w),
            },
{
    let (m, a) = choose|m: V, a: Search<T>|
        #[trigger] v.entered(Entry::Node(n), m, a) && match a {
            Search::Found(t) => r == Some(t) && w == m,
            Search::Skip => r is None && m.left(Entry::Node(n), w),
            Search::Continue => exists|m2: V, r2: Option<T>|
                #[trigger] midway(m2, r2) && walk_below(n, m, m2, r2) && match r2 {
                    Some(t) => r == Some(t) && w == m2,
                    None => r is None && m2.left(Entry::Node(n), w),
                },
        };
    assert(a == Search::<T>::Continue);
    let (m2, r2) = choose|m2: V, r2: Option<T>|
        #[trigger] midway(m2, r2) && walk_below(n, m, m2, r2) && match r2 {
            Some(t) => r == Some(t) && w == m2,
            None => r is None && m2.left(Entry::Node(n), w),
        };
    assert(v.entered(Entry::Node(n), m, Search::<T>::Continue) && walk_below(n, m, m2, r2));
}

/// A walk over a fragment walks its first node before the rest: where the
/// first node's walk gives a value, that is the walk's value and the later
/// nodes are not walked.
pub proof fn lemma_walk_first_node_first<'a, T, V: Visitor<'a, T>>(f: &'a Fragment, v: V, w: V, r: Option<T>)
    requires
        f.nodes@.len() > 0,
        walk_from(f, 0, v, w, r),
    ensures
        exists|m: V, rm: Option<T>|
            #![trigger walk_at(&f.nodes@[0], v, m, rm)]
            walk_at(&f.nodes@[0], v, m, rm) && match rm {
                Some(t) => r == Some(t) && w == m,
                None => walk_from(f, 1, m, w, r),
            },
{
    let (m, rm) = choose|m: V, rm: Option<T>|
        #[trigger] midway(m, rm) && walk_at(&f.nodes@[0], v, m, rm) && match rm {
            Some(t) => r == Some(t) && w == m,
            None => walk_from(f, 1, m, w, r),
        };
    assert(walk_at(&f.nodes@[0], v, m, rm));
}

/// Whether every visitor of type `V` keeps its state as it is and answers
/// each entry as `g` does.
pub open spec fn answers_only<'a, T, V: Visitor<'a, T>>(g: spec_fn(Entry<'a>) -> Search<T>) -> bool {
    &&& forall|v: V, e: Entry<'a>, m: V, a: Search<T>| #[trigger] v.entered(e, m, a) ==> m == v && a == g(e)
    &&& forall|v: V, e: Entry<'a>, m: V| #[trigger] v.left(e, m) ==> m == v
}

/// A walk with a visitor that keeps no state and answers as `g` does finds
/// what the search with `g` finds, and leaves the visitor as it was.
pub proof fn lemma_walk_is_search<'a, T, V: Visitor<'a, T>>(
    f: &'a Fragment,
    v: V,
    w: V,
    r: Option<T>,
    g: spec_fn(Entry<'a>) -> Search<T>,
)
    requires
        answers_only::<'a, T, V>(g),
        walk_from(f, 0, v, w, r),
    ensures
        r == search_from(f, 0, g),
        w == v,
{
    lemma_walk_from_searches(f, 0, v, w, r, g);
}

proof fn lemma_walk_from_searches<'a, T, V: Visitor<'a, T>>(
    f: &'a Fragment,
    i: int,
    v: V,
    w: V,
    r: Option<T>,
    g: spec_fn(Entry<'a>) -> Search<T>,
)
    requires
        answers_only::<'a, T, V>(g),
        walk_from(f, i, v, w, r),
    ensures
        r == search_from(f, i, g),
        w == v,
    decreases f, f.nodes@.len() - i,
{
    if 0 <= i < f.nodes@.len() {
        assert(decreases_to!(f => f.nodes));
        assert(decreases_to!(f.nodes => f.nodes@));
        assert(decreases_to!(f.nodes@ => f.nodes@[i]));
        let (m, rm) = choose|m: V, rm: Option<T>|
            #[trigger] midway(m, rm) && walk_at(&f.nodes@[i], v, m, rm) && match rm {
                Some(t) => r == Some(t) && w == m,
                None => walk_from(f, i + 1, m, w, r),
            };
        lemma_walk_at_searches(&f.nodes@[i], v, m, rm, g);
        if rm is None {
            lemma_walk_from_searches(f, i + 1, m, w, r, g);
        }
    }
}

proof fn lemma_walk_at_searches<'a, T, V: Visitor<'a, T>>(
    n: &'a Node,
    v: V,
    w: V,
    r: Option<T>,
    g: spec_fn(Entry<'a>) -> Search<T>,
)
    requires
        answers_only::<'a, T, V>(g),
        walk_at(n, v, w, r),
    ensures
        r == search_at(n, g),
        w == v,
    decreases n, 3int,
{
    let (m, a) = choose|m: V, a: Search<T>|
        #[trigger] v.entered(Entry::Node(n), m, a) && match a {
            Search::Found(t) => r == Some(t) && w == m,
            Search::Skip => r is None && m.left(Entry::Node(n), w),
            Search::Continue => exists|m2: V, r2: Option<T>|
                #[trigger] midway(m2, r2) && walk_below(n, m, m2, r2) && match r2 {
                    Some(t) => r == Some(t) && w == m2,
                    None => r is None && m2.left(Entry::Node(n), w),
                },
        };
    if a is Continue {
        let (m2, r2) = choose|m2: V, r2: Option<T>|
            #[trigger] midway(m2, r2) && walk_below(n, m, m2, r2) && match r2 {
                Some(t) => r == Some(t) && w == m2,
                None => r is None && m2.left(Entry::Node(n), w),
            };
        lemma_walk_below_searches(n, m, m2, r2, g);
    }
}

proof fn lemma_walk_else_if_searches<'a, T, V: Visitor<'a, T>>(
    b: &'a IfBlock,
    v: V,
    w: V,
    r: Option<T>,
    g: spec_fn(Entry<'a>) -> Search<T>,
)
    requires
        answers_only::<'a, T, V>(g),
        walk_at_else_if(b, v, w, r),
    ensures
        r == search_at_else_if(b, g),
        w == v,
    decreases b, 3int,
{
    let (m, a) = choose|m: V, a: Search<T>|
        #[trigger] v.entered(Entry::IfBlock(b), m, a) && match a {
            Search::Found(t) => r == Some(t) && w == m,
            Search::Skip => r is None && m.left(Entry::IfBlock(b), w),
            Search::Continue => exists|m2: V, r2: Option<T>|
                #[trigger] midway(m2, r2) && walk_if_below(b, m, m2, r2) && match r2 {
                    Some(t) => r == Some(t) && w == m2,
                    None => r is None && m2.left(Entry::IfBlock(b), w),
                },
        };
    if a is Continue {
        let (m2, r2) = choose|m2: V, r2: Option<T>|
            #[trigger] midway(m2, r2) && walk_if_below(b, m, m2, r2) && match r2 {
                Some(t) => r == Some(t) && w == m2,
                None => r is None && m2.left(Entry::IfBlock(b), w),
            };
        lemma_walk_if_below_searches(b, m, m2, r2, g);
    }
}

proof fn lemma_walk_optional_searches<'a, T, V: Visitor<'a, T>>(
    f: &'a Option<Fragment>,
    v: V,
    w: V,
    r: Option<T>,
    g: spec_fn(Entry<'a>) -> Search<T>,
)
    requires
        answers_only::<'a, T, V>(g),
        walk_optional(f, v, w, r),
    ensures
        r == search_optional(f, g),
        w == v,
    decreases f, 1int,
{
    if let Some(fr) = f {
        lemma_walk_from_searches(fr, 0, v, w, r, g);
    }
}

proof fn lemma_walk_if_below_searches<'a, T, V: Visitor<'a, T>>(
    b: &'a IfBlock,
    v: V,
    w: V,
    r: Option<T>,
    g: spec_fn(Entry<'a>) -> Search<T>,
)
    requires
        answers_only::<'a, T, V>(g),
        walk_if_below(b, v, w, r),
    ensures
        r == search_if_below(b, g),
        w == v,
    decreases b, 2int,
{
    let (m, r1) = choose|m: V, r1: Option<T>|
        #[trigger] midway(m, r1) && walk_from(&b.consequent, 0, v, m, r1) && match r1 {
            Some(t) => r == Some(t) && w == m,
            None => walk_alternate(b, m, w, r),
        };
    lemma_walk_from_searches(&b.consequent, 0, v, m, r1, g);
    if r1 is None {
        match &b.alternate {
            Some(alternate) => {
                assert(decreases_to!(b => b.alternate));
                match &**alternate {
                    Alternate::Fragment(fr) => lemma_walk_from_searches(fr, 0, m, w, r, g),
                    Alternate::IfBlock(inner) => lemma_walk_else_if_searches(inner, m, w, r, g),
                }
            },
            None => {},
        }
    }
}

proof fn lemma_walk_below_searches<'a, T, V: Visitor<'a, T>>(
    n: &'a Node,
    v: V,
    w: V,
    r: Option<T>,
    g: spec_fn(Entry<'a>) -> Search<T>,
)
    requires
        answers_only::<'a, T, V>(g),
        walk_below(n, v, w, r),
    ensures
        r == search_below(n, g),
        w == v,
    decreases n, 2int,
{
    match n {
        Node::IfBlock(b) => lemma_walk_if_below_searches(b, v, w, r, g),
        Node::EachBlock(b) => {
            let (m, r1) = choose|m: V, r1: Option<T>|
                #[trigger] midway(m, r1) && walk_from(&b.body, 0, v, m, r1) && match r1 {
                    Some(t) => r == Some(t) && w == m,
                    None => walk_optional(&b.fallback, m, w, r),
                };
            lemma_walk_from_searches(&b.body, 0, v, m, r1, g);
            if r1 is None {
                lemma_walk_optional_searches(&b.fallback, m, w, r, g);
            }
        },
        Node::KeyBlock(b) => lemma_walk_from_searches(&b.fragment, 0, v, w, r, g),
        Node::AwaitBlock(b) => {
            let (m, r1) = choose|m: V, r1: Option<T>|
                #[trigger] midway(m, r1) && walk_optional(&b.pending, v, m, r1) && match r1 {
                    Some(t) => r == Some(t) && w == m,
                    None => exists|m2: V, r2: Option<T>|
                        #[trigger] midway(m2, r2) && walk_optional(&b.then_branch, m, m2, r2) && match r2 {
                            Some(t) => r == Some(t) && w == m2,
                            None => walk_optional(&b.catch, m2, w, r),
                        },
                };
            lemma_walk_optional_searches(&b.pending, v, m, r1, g);
            if r1 is None {
                let (m2, r2) = choose|m2: V, r2: Option<T>|
                    #[trigger] midway(m2, r2) && walk_optional(&b.then_branch, m, m2, r2) && match r2 {
                        Some(t) => r == Some(t) && w == m2,
                        None => walk_optional(&b.catch, m2, w, r),
                    };
                lemma_walk_optional_searches(&b.then_branch, m, m2, r2, g);
                if r2 is None {
                    lemma_walk_optional_searches(&b.catch, m2, w, r, g);
                }
            }
        },
        Node::SnippetBlock(b) => lemma_walk_from_searches(&b.body, 0, v, w, r, g),
        Node::RegularElement(e) => lemma_walk_from_searches(&e.fragment, 0, v, w, r, g),
        Node::Component(e) => lemma_walk_from_searches(&e.fragment, 0, v, w, r, g),
        Node::SlotElement(e) => lemma_walk_from_searches(&e.fragment, 0, v, w, r, g),
        Node::SvelteHead(e) => lemma_walk_from_searches(&e.fragment, 0, v, w, r, g),
        Node::SvelteBody(e) => lemma_walk_from_searches(&e.fragment, 0, v, w, r, g),
        Node::SvelteWindow(e) => lemma_walk_from_searches(&e.fragment, 0, v, w, r, g),
        Node::SvelteDocument(e) => lemma_walk_from_searches(&e.fragment, 0, v, w, r, g),
        Node::SvelteComponent(e) => lemma_walk_from_searches(&e.fragment, 0, v, w, r, g),
        Node::SvelteElement(e) => lemma_walk_from_searches(&e.fragment, 0, v, w, r, g),
        Node::SvelteSelf(e) => lemma_walk_from_searches(&e.fragment, 0, v, w, r, g),
        Node::SvelteFragment(e) => lemma_walk_from_searches(&e.fragment, 0, v, w, r, g),
        Node::SvelteBoundary(e) => lemma_walk_from_searches(&e.fragment, 0, v, w, r, g),
        Node::TitleElement(e) => lemma_walk_from_searches(&e.fragment, 0, v, w, r, g),
        _ => {},
    }
}

impl Fragment {
    /// Depth-first walk over descendant template nodes and else-if branches:
    /// the first value that `enter` finds, if any. The walk goes in pre-order
    /// (`walk_from`): each entry is entered, its descendants are walked unless
    /// `enter` skips them, and it is left unless a value was found; the
    /// first value found ends the walk.
    pub fn walk<'a, T, V: Visitor<'a, T>>(&'a self, visitor: &mut V) -> (r: Option<T>)
        ensures
            walk_from(self, 0, *old(visitor), *final(visitor), r),
    {
        walk_fragment(self, visitor)
    }
}

} // verus!

verus! {

/// A visit that answers for each entry whether to go on, to skip the
/// entry's descendants, or to stop with a value, as `find` answers with a
/// value or nothing.
pub open spec fn lift_find<'a, T>(find: spec_fn(Entry<'a>) -> Option<T>) -> spec_fn(Entry<'a>) -> Search<T> {
    |e: Entry<'a>|
        match find(e) {
            Some(t) => Search::Found(t),
            None => Search::Continue,
        }
}

/// Whether every answer of the visit `f` is the one `g` gives.
pub open spec fn answers_as<'a, T, F: Fn(Entry<'a>) -> Search<T>>(f: F, g: spec_fn(Entry<'a>) -> Search<T>) -> bool {
    forall|e: Entry<'a>, out: Search<T>| call_ensures(f, (e,), out) ==> out == g(e)
}

/// Whether every answer of `f` is the one `g` gives.
pub open spec fn finds_as<'a, T, F: Fn(Entry<'a>) -> Option<T>>(f: F, g: spec_fn(Entry<'a>) -> Option<T>) -> bool {
    forall|e: Entry<'a>, out: Option<T>| call_ensures(f, (e,), out) ==> out == g(e)
}

/// What a depth-first search with the visit `g` finds among `f.nodes[i..]`
/// and their descendants.
pub open spec fn search_from<'a, T>(f: &'a Fragment, i: int, g: spec_fn(Entry<'a>) -> Search<T>) -> Option<T>
    decreases f, f.nodes@.len() - i,
{
    if 0 <= i < f.nodes@.len() {
        proof {
            assert(decreases_to!(f => f.nodes));
            assert(decreases_to!(f.nodes => f.nodes@));
            assert(decreases_to!(f.nodes@ => f.nodes@[i]));
        }
        match search_at(&f.nodes@[i], g) {
            Some(t) => Some(t),
            None => search_from(f, i + 1, g),
        }
    } else {
        None
    }
}

/// What the search finds at a node: the visit's own value, else, unless it
/// skips, what it finds among the node's descendants.
pub open spec fn search_at<'a, T>(n: &'a Node, g: spec_fn(Entry<'a>) -> Search<T>) -> Option<T>
    decreases n, 3int,
{
    match g(Entry::Node(n)) {
        Search::Found(t) => Some(t),
        Search::Skip => None,
        Search::Continue => search_below(n, g),
    }
}

/// What the search finds at an `{:else if}` branch and below it.
pub open spec fn search_at_else_if<'a, T>(b: &'a IfBlock, g: spec_fn(Entry<'a>) -> Search<T>) -> Option<T>
    decreases b, 3int,
{
    match g(Entry::IfBlock(b)) {
        Search::Found(t) => Some(t),
        Search::Skip => None,
        Search::Continue => search_if_below(b, g),
    }
}

/// What the search finds in an `{#if}` block's branches.
pub open spec fn search_if_below<'a, T>(b: &'a IfBlock, g: spec_fn(Entry<'a>) -> Search<T>) -> Option<T>
    decreases b, 2int,
{
    match search_from(&b.consequent, 0, g) {
        Some(t) => Some(t),
        None => match &b.alternate {
            Some(alternate) => {
                proof {
                    assert(decreases_to!(b => b.alternate));
                }
                match &**alternate {
                    Alternate::Fragment(fr) => search_from(fr, 0, g),
                    Alternate::IfBlock(inner) => search_at_else_if(inner, g),
                }
            },
            None => None,
        },
    }
}

/// What the search finds in an optional fragment.
pub open spec fn search_optional<'a, T>(f: &'a Option<Fragment>, g: spec_fn(Entry<'a>) -> Search<T>) -> Option<T>
    decreases f, 1int,
{
    match f {
        Some(fr) => search_from(fr, 0, g),
        None => None,
    }
}

/// What the search finds among a node's descendants.
pub open spec fn search_below<'a, T>(n: &'a Node, g: spec_fn(Entry<'a>) -> Search<T>) -> Option<T>
    decreases n, 2int,
{
    match n {
        Node::IfBlock(b) => search_if_below(b, g),
        Node::EachBlock(b) => match search_from(&b.body, 0, g) {
            Some(t) => Some(t),
            None => search_optional(&b.fallback, g),
        },
        Node::KeyBlock(b) => search_from(&b.fragment, 0, g),
        Node::AwaitBlock(b) => match search_optional(&b.pending, g) {
            Some(t) => Some(t),
            None => match search_optional(&b.then_branch, g) {
                Some(t) => Some(t),
                None => search_optional(&b.catch, g),
            },
        },
        Node::SnippetBlock(b) => search_from(&b.body, 0, g),
        Node::RegularElement(e) => search_from(&e.fragment, 0, g),
        Node::Component(e) => search_from(&e.fragment, 0, g),
        Node::SlotElement(e) => search_from(&e.fragment, 0, g),
        Node::SvelteHead(e) => search_from(&e.fragment, 0, g),
        Node::SvelteBody(e) => search_from(&e.fragment, 0, g),
        Node::SvelteWindow(e) => search_from(&e.fragment, 0, g),
        Node::SvelteDocument(e) => search_from(&e.fragment, 0, g),
        Node::SvelteComponent(e) => search_from(&e.fragment, 0, g),
        Node::SvelteElement(e) => search_from(&e.fragment, 0, g),
        Node::SvelteSelf(e) => search_from(&e.fragment, 0, g),
        Node::SvelteFragment(e) => search_from(&e.fragment, 0, g),
        Node::SvelteBoundary(e) => search_from(&e.fragment, 0, g),
        Node::TitleElement(e) => search_from(&e.fragment, 0, g),
        _ => None,
    }
}

/// Whether the visit `g` stops with `t` at some entry.
pub open spec fn found_by<'a, T>(g: spec_fn(Entry<'a>) -> Search<T>, t: T) -> bool {
    exists|e: Entry<'a>| #[trigger] g(e) == Search::Found(t)
}

/// A search stops only with a value that its visit gave: whatever
/// `search_from` finds among `f.nodes[i..]`, the visit stopped with it at
/// some entry.
pub proof fn lemma_search_finds_visit_value<'a, T>(f: &'a Fragment, i: int, g: spec_fn(Entry<'a>) -> Search<T>)
    ensures
        search_from(f, i, g) matches Some(t) ==> found_by(g, t),
    decreases f, f.nodes@.len() - i,
{
    if 0 <= i < f.nodes@.len() {
        assert(decreases_to!(f => f.nodes));
        assert(decreases_to!(f.nodes => f.nodes@));
        assert(decreases_to!(f.nodes@ => f.nodes@[i]));
        lemma_search_at_finds_visit_value(&f.nodes@[i], g);
        lemma_search_finds_visit_value(f, i + 1, g);
    }
}

proof fn lemma_search_at_finds_visit_value<'a, T>(n: &'a Node, g: spec_fn(Entry<'a>) -> Search<T>)
    ensures
        search_at(n, g) matches Some(t) ==> found_by(g, t),
    decreases n, 3int,
{
    match g(Entry::Node(n)) {
        Search::Found(t) => {
            assert(g(Entry::Node(n)) == Search::Found(t));
        },
        Search::Skip => {},
        Search::Continue => {
            lemma_search_below_finds_visit_value(n, g);
        },
    }
}

proof fn lemma_search_else_if_finds_visit_value<'a, T>(b: &'a IfBlock, g: spec_fn(Entry<'a>) -> Search<T>)
    ensures
        search_at_else_if(b, g) matches Some(t) ==> found_by(g, t),
    decreases b, 3int,
{
    match g(Entry::IfBlock(b)) {
        Search::Found(t) => {
            assert(g(Entry::IfBlock(b)) == Search::Found(t));
        },
        Search::Skip => {},
        Search::Continue => {
            lemma_search_if_below_finds_visit_value(b, g);
        },
    }
}

proof fn lemma_search_if_below_finds_visit_value<'a, T>(b: &'a IfBlock, g: spec_fn(Entry<'a>) -> Search<T>)
    ensures
        search_if_below(b, g) matches Some(t) ==> found_by(g, t),
    decreases b, 2int,
{
    lemma_search_finds_visit_value(&b.consequent, 0, g);
    match &b.alternate {
        Some(alternate) => {
            assert(decreases_to!(b => b.alternate));
            match &**alternate {
                Alternate::Fragment(fr) => lemma_search_finds_visit_value(fr, 0, g),
                Alternate::IfBlock(inner) => lemma_search_else_if_finds_visit_value(inner, g),
            }
        },
        None => {},
    }
}

proof fn lemma_search_optional_finds_visit_value<'a, T>(f: &'a Option<Fragment>, g: spec_fn(Entry<'a>) -> Search<T>)
    ensures
        search_optional(f, g) matches Some(t) ==> found_by(g, t),
    decreases f, 1int,
{
    match f {
        Some(fr) => lemma_search_finds_visit_value(fr, 0, g),
        None => {},
    }
}

proof fn lemma_search_below_finds_visit_value<'a, T>(n: &'a Node, g: spec_fn(Entry<'a>) -> Search<T>)
    ensures
        search_below(n, g) matches Some(t) ==> found_by(g, t),
    decreases n, 2int,
{
    match n {
        Node::IfBlock(b) => lemma_search_if_below_finds_visit_value(b, g),
        Node::EachBlock(b) => {
            lemma_search_finds_visit_value(&b.body, 0, g);
            lemma_search_optional_finds_visit_value(&b.fallback, g);
        },
        Node::KeyBlock(b) => lemma_search_finds_visit_value(&b.fragment, 0, g),
        Node::AwaitBlock(b) => {
            lemma_search_optional_finds_visit_value(&b.pending, g);
            lemma_search_optional_finds_visit_value(&b.then_branch, g);
            lemma_search_optional_finds_visit_value(&b.catch, g);
        },
        Node::SnippetBlock(b) => lemma_search_finds_visit_value(&b.body, 0, g),
        Node::RegularElement(e) => lemma_search_finds_visit_value(&e.fragment, 0, g),
        Node::Component(e) => lemma_search_finds_visit_value(&e.fragment, 0, g),
        Node::SlotElement(e) => lemma_search_finds_visit_value(&e.fragment, 0, g),
        Node::SvelteHead(e) => lemma_search_finds_visit_value(&e.fragment, 0, g),
        Node::SvelteBody(e) => lemma_search_finds_visit_value(&e.fragment, 0, g),
        Node::SvelteWindow(e) => lemma_search_finds_visit_value(&e.fragment, 0, g),
        Node::SvelteDocument(e) => lemma_search_finds_visit_value(&e.fragment, 0, g),
        Node::SvelteComponent(e) => lemma_search_finds_visit_value(&e.fragment, 0, g),
        Node::SvelteElement(e) => lemma_search_finds_visit_value(&e.fragment, 0, g),
        Node::SvelteSelf(e) => lemma_search_finds_visit_value(&e.fragment, 0, g),
        Node::SvelteFragment(e) => lemma_search_finds_visit_value(&e.fragment, 0, g),
        Node::SvelteBoundary(e) => lemma_search_finds_visit_value(&e.fragment, 0, g),
        Node::TitleElement(e) => lemma_search_finds_visit_value(&e.fragment, 0, g),
        _ => {},
    }
}

fn search_of<T>(o: Option<T>) -> (r: Search<T>)
    ensures
        o matches Some(t) ==> r == Search::Found(t),
        o is None ==> r is Continue,
{
    match o {
        Some(t) => Search::Found(t),
        None => Search::Continue,
    }
}

fn search_fragment<'a, T, F: Fn(Entry<'a>) -> Search<T>>(fragment: &'a Fragment, f: &F) -> (r: Option<T>)
    requires
        forall|e: Entry<'a>| call_requires(*f, (e,)),
    ensures
        forall|g: spec_fn(Entry<'a>) -> Search<T>| #![trigger answers_as(*f, g)] answers_as(*f, g) ==> r == search_from(fragment, 0, g),
    decreases fragment, 0nat,
{
    let mut i: usize = 0;
    while i < fragment.nodes.len()
        invariant
            i <= fragment.nodes@.len(),
            forall|e: Entry<'a>| call_requires(*f, (e,)),
            forall|g: spec_fn(Entry<'a>) -> Search<T>| #![trigger answers_as(*f, g)] answers_as(*f, g) ==> search_from(fragment, 0, g) == search_from(fragment, i as int, g),
        decreases fragment.nodes.len() - i,
    {
        proof {
            assert(decreases_to!(fragment => fragment.nodes));
            assert(decreases_to!(fragment.nodes => fragment.nodes@));
            assert(decreases_to!(fragment.nodes@ => fragment.nodes@[i as int]));
        }
        if let Some(found) = search_node(&fragment.nodes[i], f) {
            return Some(found);
        }
        i += 1;
    }
    None
}

fn search_node<'a, T, F: Fn(Entry<'a>) -> Search<T>>(node: &'a Node, f: &F) -> (r: Option<T>)
    requires
        forall|e: Entry<'a>| call_requires(*f, (e,)),
    ensures
        forall|g: spec_fn(Entry<'a>) -> Search<T>| #![trigger answers_as(*f, g)] answers_as(*f, g) ==> r == search_at(node, g),
    decreases node, 2nat,
{
    match f(Entry::Node(node)) {
        Search::Found(found) => return Some(found),
        Search::Skip => {
            return None;
        },
        Search::Continue => {},
    }
    let found = search_node_children(node, f);
    found
}

fn search_else_if<'a, T, F: Fn(Entry<'a>) -> Search<T>>(block: &'a IfBlock, f: &F) -> (r: Option<T>)
    requires
        forall|e: Entry<'a>| call_requires(*f, (e,)),
    ensures
        forall|g: spec_fn(Entry<'a>) -> Search<T>| #![trigger answers_as(*f, g)] answers_as(*f, g) ==> r == search_at_else_if(block, g),
    decreases block, 2nat,
{
    match f(Entry::IfBlock(block)) {
        Search::Found(found) => return Some(found),
        Search::Skip => {
            return None;
        },
        Search::Continue => {},
    }
    let found = search_if_block_children(block, f);
    found
}

fn search_if_block_children<'a, T, F: Fn(Entry<'a>) -> Search<T>>(block: &'a IfBlock, f: &F) -> (r: Option<T>)
    requires
        forall|e: Entry<'a>| call_requires(*f, (e,)),
    ensures
        forall|g: spec_fn(Entry<'a>) -> Search<T>| #![trigger answers_as(*f, g)] answers_as(*f, g) ==> r == search_if_below(block, g),
    decreases block, 1nat,
{
    if let Some(found) = search_fragment(&block.consequent, f) {
        return Some(found);
    }
    match &block.alternate {
        Some(alternate) => {
            proof {
                assert(decreases_to!(block => block.alternate));
            }
            match &**alternate {
                Alternate::Fragment(fragment) => search_fragment(fragment, f),
                Alternate::IfBlock(inner) => search_else_if(inner, f),
            }
        },
        None => None,
    }
}

fn search_node_children<'a, T, F: Fn(Entry<'a>) -> Search<T>>(node: &'a Node, f: &F) -> (r: Option<T>)
    requires
        forall|e: Entry<'a>| call_requires(*f, (e,)),
    ensures
        forall|g: spec_fn(Entry<'a>) -> Search<T>| #![trigger answers_as(*f, g)] answers_as(*f, g) ==> r == search_below(node, g),
    decreases node, 1nat,
{
    match node {
        Node::IfBlock(block) => search_if_block_children(block, f),
        Node::EachBlock(block) => {
            if let Some(found) = search_fragment(&block.body, f) {
                return Some(found);
            }
            match &block.fallback {
                Some(fr) => search_fragment(fr, f),
                None => None,
            }
        },
        Node::KeyBlock(block) => search_fragment(&block.fragment, f),
        Node::AwaitBlock(block) => {
            if let Some(fr) = &block.pending {
                if let Some(found) = search_fragment(fr, f) {
                    return Some(found);
                }
            }
            if let Some(fr) = &block.then_branch {
                if let Some(found) = search_fragment(fr, f) {
                    return Some(found);
                }
            }
            if let Some(fr) = &block.catch {
                if let Some(found) = search_fragment(fr, f) {
                    return Some(found);
                }
            }
            None
        },
        Node::SnippetBlock(block) => search_fragment(&block.body, f),
        Node::RegularElement(e) => search_fragment(&e.fragment, f),
        Node::Component(e) => search_fragment(&e.fragment, f),
        Node::SlotElement(e) => search_fragment(&e.fragment, f),
        Node::SvelteHead(e) => search_fragment(&e.fragment, f),
        Node::SvelteBody(e) => search_fragment(&e.fragment, f),
        Node::SvelteWindow(e) => search_fragment(&e.fragment, f),
        Node::SvelteDocument(e) => search_fragment(&e.fragment, f),
        Node::SvelteComponent(e) => search_fragment(&e.fragment, f),
        Node::SvelteElement(e) => search_fragment(&e.fragment, f),
        Node::SvelteSelf(e) => search_fragment(&e.fragment, f),
        Node::SvelteFragment(e) => search_fragment(&e.fragment, f),
        Node::SvelteBoundary(e) => search_fragment(&e.fragment, f),
        Node::TitleElement(e) => search_fragment(&e.fragment, f),
        _ => None,
    }
}

fn find_fragment<'a, T, F: Fn(Entry<'a>) -> Option<T>>(fragment: &'a Fragment, f: &F) -> (r: Option<T>)
    requires
        forall|e: Entry<'a>| call_requires(*f, (e,)),
    ensures
        forall|g: spec_fn(Entry<'a>) -> Option<T>| #![trigger finds_as(*f, g)] finds_as(*f, g) ==> r == search_from(fragment, 0, lift_find(g)),
    decreases fragment, 0nat,
{
    let mut i: usize = 0;
    while i < fragment.nodes.len()
        invariant
            i <= fragment.nodes@.len(),
            forall|e: Entry<'a>| call_requires(*f, (e,)),
            forall|g: spec_fn(Entry<'a>) -> Option<T>| #![trigger finds_as(*f, g)] finds_as(*f, g) ==> search_from(fragment, 0, lift_find(g)) == search_from(fragment, i as int, lift_find(g)),
        decreases fragment.nodes.len() - i,
    {
        proof {
            assert(decreases_to!(fragment => fragment.nodes));
            assert(decreases_to!(fragment.nodes => fragment.nodes@));
            assert(decreases_to!(fragment.nodes@ => fragment.nodes@[i as int]));
        }
        if let Some(found) = find_node(&fragment.nodes[i], f) {
            return Some(found);
        }
        i += 1;
    }
    None
}

fn find_node<'a, T, F: Fn(Entry<'a>) -> Option<T>>(node: &'a Node, f: &F) -> (r: Option<T>)
    requires
        forall|e: Entry<'a>| call_requires(*f, (e,)),
    ensures
        forall|g: spec_fn(Entry<'a>) -> Option<T>| #![trigger finds_as(*f, g)] finds_as(*f, g) ==> r == search_at(node, lift_find(g)),
    decreases node, 2nat,
{
    match search_of(f(Entry::Node(node))) {
        Search::Found(found) => return Some(found),
        Search::Skip => {
            return None;
        },
        Search::Continue => {},
    }
    let found = find_node_children(node, f);
    found
}

fn find_else_if<'a, T, F: Fn(Entry<'a>) -> Option<T>>(block: &'a IfBlock, f: &F) -> (r: Option<T>)
    requires
        forall|e: Entry<'a>| call_requires(*f, (e,)),
    ensures
        forall|g: spec_fn(Entry<'a>) -> Option<T>| #![trigger finds_as(*f, g)] finds_as(*f, g) ==> r == search_at_else_if(block, lift_find(g)),
    decreases block, 2nat,
{
    match search_of(f(Entry::IfBlock(block))) {
        Search::Found(found) => return Some(found),
        Search::Skip => {
            return None;
        },
        Search::Continue => {},
    }
    let found = find_if_block_children(block, f);
    found
}

fn find_if_block_children<'a, T, F: Fn(Entry<'a>) -> Option<T>>(block: &'a IfBlock, f: &F) -> (r: Option<T>)
    requires
        forall|e: Entry<'a>| call_requires(*f, (e,)),
    ensures
        forall|g: spec_fn(Entry<'a>) -> Option<T>| #![trigger finds_as(*f, g)] finds_as(*f, g) ==> r == search_if_below(block, lift_find(g)),
    decreases block, 1nat,
{
    if let Some(found) = find_fragment(&block.consequent, f) {
        return Some(found);
    }
    match &block.alternate {
        Some(alternate) => {
            proof {
                assert(decreases_to!(block => block.alternate));
            }
            match &**alternate {
                Alternate::Fragment(fragment) => find_fragment(fragment, f),
                Alternate::IfBlock(inner) => find_else_if(inner, f),
            }
        },
        None => None,
    }
}

fn find_node_children<'a, T, F: Fn(Entry<'a>) -> Option<T>>(node: &'a Node, f: &F) -> (r: Option<T>)
    requires
        forall|e: Entry<'a>| call_requires(*f, (e,)),
    ensures
        forall|g: spec_fn(Entry<'a>) -> Option<T>| #![trigger finds_as(*f, g)] finds_as(*f, g) ==> r == search_below(node, lift_find(g)),
    decreases node, 1nat,
{
    match node {
        Node::IfBlock(block) => find_if_block_children(block, f),
        Node::EachBlock(block) => {
            if let Some(found) = find_fragment(&block.body, f) {
                return Some(found);
            }
            match &block.fallback {
                Some(fr) => find_fragment(fr, f),
                None => None,
            }
        },
        Node::KeyBlock(block) => find_fragment(&block.fragment, f),
        Node::AwaitBlock(block) => {
            if let Some(fr) = &block.pending {
                if let Some(found) = find_fragment(fr, f) {
                    return Some(found);
                }
            }
            if let Some(fr) = &block.then_branch {
                if let Some(found) = find_fragment(fr, f) {
                    return Some(found);
                }
            }
            if let Some(fr) = &block.catch {
                if let Some(found) = find_fragment(fr, f) {
                    return Some(found);
                }
            }
            None
        },
        Node::SnippetBlock(block) => find_fragment(&block.body, f),
        Node::RegularElement(e) => find_fragment(&e.fragment, f),
        Node::Component(e) => find_fragment(&e.fragment, f),
        Node::SlotElement(e) => find_fragment(&e.fragment, f),
        Node::SvelteHead(e) => find_fragment(&e.fragment, f),
        Node::SvelteBody(e) => find_fragment(&e.fragment, f),
        Node::SvelteWindow(e) => find_fragment(&e.fragment, f),
        Node::SvelteDocument(e) => find_fragment(&e.fragment, f),
        Node::SvelteComponent(e) => find_fragment(&e.fragment, f),
        Node::SvelteElement(e) => find_fragment(&e.fragment, f),
        Node::SvelteSelf(e) => find_fragment(&e.fragment, f),
        Node::SvelteFragment(e) => find_fragment(&e.fragment, f),
        Node::SvelteBoundary(e) => find_fragment(&e.fragment, f),
        Node::TitleElement(e) => find_fragment(&e.fragment, f),
        _ => None,
    }
}

impl Fragment {
    /// Depth-first search: the first value that `visit` finds, skipping the
    /// descendants of entries for which it answers `Skip`.
    pub fn search<'a, T, F: Fn(Entry<'a>) -> Search<T>>(&'a self, visit: F) -> (r: Option<T>)
        requires
            forall|e: Entry<'a>| call_requires(visit, (e,)),
        ensures
            forall|g: spec_fn(Entry<'a>) -> Search<T>|
                #![trigger answers_as(visit, g)]
                answers_as(visit, g) ==> r == search_from(self, 0, g),
    {
        search_fragment(self, &visit)
    }

    /// The search of `search`, for a visit whose answers `g` describes: what
    /// it finds is the value `search_from` gives.
    pub fn search_as<'a, T, F: Fn(Entry<'a>) -> Search<T>>(
        &'a self,
        visit: F,
        g: Ghost<spec_fn(Entry<'a>) -> Search<T>>,
    ) -> (r: Option<T>)
        requires
            forall|e: Entry<'a>| call_requires(visit, (e,)),
            answers_as(visit, g@),
        ensures
            r == search_from(self, 0, g@),
    {
        search_fragment(self, &visit)
    }

    /// The first value that `find` gives for an entry, in depth-first order.
    pub fn find_map<'a, T, F: Fn(Entry<'a>) -> Option<T>>(&'a self, find: F) -> (r: Option<T>)
        requires
            forall|e: Entry<'a>| call_requires(find, (e,)),
        ensures
            forall|g: spec_fn(Entry<'a>) -> Option<T>|
                #![trigger finds_as(find, g)]
                finds_as(find, g) ==> r == search_from(self, 0, lift_find(g)),
    {
        find_fragment(self, &find)
    }

    /// The first value of `find_map`, for a `find` whose answers `g`
    /// describes: the first value `g` gives for an entry, in depth-first order.
    pub fn find_map_as<'a, T, F: Fn(Entry<'a>) -> Option<T>>(
        &'a self,
        find: F,
        g: Ghost<spec_fn(Entry<'a>) -> Option<T>>,
    ) -> (r: Option<T>)
        requires
            forall|e: Entry<'a>| call_requires(find, (e,)),
            finds_as(find, g@),
        ensures
            r == search_from(self, 0, lift_find(g@)),
    {
        find_fragment(self, &find)
    }
}

} // verus!
