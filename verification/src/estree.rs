//! A JSON-shaped model of ESTree nodes, with typed field access and a flat,
//! parent-linked index of every node in a tree.
use vstd::prelude::*;

use crate::text::text_is;

verus! {

/// One `key: value` member of an ESTree node.
#[derive(Debug, PartialEq, Eq)]
pub struct EstreeField {
    pub key: Vec<char>,
    pub value: EstreeValue,
}

/// An ESTree node: its members in source order.
#[derive(Debug, PartialEq, Eq)]
pub struct EstreeNode {
    pub fields: Vec<EstreeField>,
}

/// A JSON value inside an ESTree node. Numbers that are not whole are kept as
/// their written text.
#[derive(Debug, PartialEq, Eq)]
pub enum EstreeValue {
    Null,
    Bool(bool),
    Int(i64),
    UInt(u64),
    Number(Vec<char>),
    String(Vec<char>),
    Array(Vec<EstreeValue>),
    Object(EstreeNode),
}

/// The member names that the validation reads.
#[derive(Debug, Clone, Copy, PartialEq, Eq, Structural)]
pub enum RawField {
    Argument,
    Arguments,
    Body,
    Callee,
    Computed,
    Declaration,
    Declarations,
    Elements,
    End,
    Expression,
    Expressions,
    Id,
    Imported,
    Init,
    Key,
    Kind,
    Left,
    Local,
    Name,
    Object,
    Operator,
    Params,
    Properties,
    Property,
    Right,
    Source,
    Specifiers,
    Start,
    Static,
    Value,
    Type,
    Optional,
    Test,
    Consequent,
    Alternate,
    Label,
    Exported,
}

impl RawField {
    /// The member name in ESTree JSON.
    pub open spec fn spec_key(self) -> &'static str {
        match self {
            RawField::Argument => "argument",
            RawField::Arguments => "arguments",
            RawField::Body => "body",
            RawField::Callee => "callee",
            RawField::Computed => "computed",
            RawField::Declaration => "declaration",
            RawField::Declarations => "declarations",
            RawField::Elements => "elements",
            RawField::End => "end",
            RawField::Expression => "expression",
            RawField::Expressions => "expressions",
            RawField::Id => "id",
            RawField::Imported => "imported",
            RawField::Init => "init",
            RawField::Key => "key",
            RawField::Kind => "kind",
            RawField::Left => "left",
            RawField::Local => "local",
            RawField::Name => "name",
            RawField::Object => "object",
            RawField::Operator => "operator",
            RawField::Params => "params",
            RawField::Properties => "properties",
            RawField::Property => "property",
            RawField::Right => "right",
            RawField::Source => "source",
            RawField::Specifiers => "specifiers",
            RawField::Start => "start",
            RawField::Static => "static",
            RawField::Value => "value",
            RawField::Type => "type",
            RawField::Optional => "optional",
            RawField::Test => "test",
            RawField::Consequent => "consequent",
            RawField::Alternate => "alternate",
            RawField::Label => "label",
            RawField::Exported => "exported",
        }
    }

    /// The member name in ESTree JSON.
    #[verifier::when_used_as_spec(spec_key)]
    pub fn key(self) -> (k: &'static str)
        ensures
            k == self.spec_key(),
    {
        match self {
            RawField::Argument => "argument",
            RawField::Arguments => "arguments",
            RawField::Body => "body",
            RawField::Callee => "callee",
            RawField::Computed => "computed",
            RawField::Declaration => "declaration",
            RawField::Declarations => "declarations",
            RawField::Elements => "elements",
            RawField::End => "end",
            RawField::Expression => "expression",
            RawField::Expressions => "expressions",
            RawField::Id => "id",
            RawField::Imported => "imported",
            RawField::Init => "init",
            RawField::Key => "key",
            RawField::Kind => "kind",
            RawField::Left => "left",
            RawField::Local => "local",
            RawField::Name => "name",
            RawField::Object => "object",
            RawField::Operator => "operator",
            RawField::Params => "params",
            RawField::Properties => "properties",
            RawField::Property => "property",
            RawField::Right => "right",
            RawField::Source => "source",
            RawField::Specifiers => "specifiers",
            RawField::Start => "start",
            RawField::Static => "static",
            RawField::Value => "value",
            RawField::Type => "type",
            RawField::Optional => "optional",
            RawField::Test => "test",
            RawField::Consequent => "consequent",
            RawField::Alternate => "alternate",
            RawField::Label => "label",
            RawField::Exported => "exported",
        }
    }
}

/// The index of the first member of `fields` (from `from` on) whose key is `key`.
pub open spec fn first_key_index(fields: Seq<EstreeField>, key: Seq<char>, from: int) -> int
    decreases fields.len() - from,
{
    if from < 0 || from >= fields.len() {
        -1
    } else if fields[from].key@ == key {
        from
    } else {
        first_key_index(fields, key, from + 1)
    }
}

/// The value of the first member named `key`, if there is one.
pub open spec fn spec_field(node: EstreeNode, key: Seq<char>) -> Option<EstreeValue> {
    let i = first_key_index(node.fields@, key, 0);
    if 0 <= i < node.fields@.len() {
        Some(node.fields@[i].value)
    } else {
        None
    }
}

proof fn lemma_first_key_index_range(fields: Seq<EstreeField>, key: Seq<char>, from: int)
    requires
        0 <= from,
    ensures
        first_key_index(fields, key, from) == -1 || (from <= first_key_index(fields, key, from)
            < fields.len() && fields[first_key_index(fields, key, from)].key@ == key),
        first_key_index(fields, key, from) == -1 ==> forall|j: int|
            from <= j < fields.len() ==> fields[j].key@ != key,
        first_key_index(fields, key, from) != -1 ==> forall|j: int|
            from <= j < first_key_index(fields, key, from) ==> fields[j].key@ != key,
    decreases fields.len() - from,
{
    if from < fields.len() && fields[from].key@ != key {
        lemma_first_key_index_range(fields, key, from + 1);
    }
}

/// The value that `spec_field` gives is the value of a member of the node.
pub proof fn lemma_spec_field_member(node: EstreeNode, key: Seq<char>)
    requires
        spec_field(node, key) is Some,
    ensures
        0 <= first_key_index(node.fields@, key, 0) < node.fields@.len(),
        spec_field(node, key) == Some(node.fields@[first_key_index(node.fields@, key, 0)].value),
{
    lemma_first_key_index_range(node.fields@, key, 0);
}

/// A node held in a member of `node` is smaller than `node`.
pub proof fn lemma_field_object_decreases(node: &EstreeNode, key: Seq<char>, child: EstreeNode)
    requires
        spec_field(*node, key) == Some(EstreeValue::Object(child)),
    ensures
        decreases_to!(*node => child),
{
    lemma_spec_field_member(*node, key);
    let i = first_key_index(node.fields@, key, 0);
    assert(decreases_to!(*node => node.fields));
    assert(decreases_to!(node.fields => node.fields@));
    assert(decreases_to!(node.fields@ => node.fields@[i]));
    assert(decreases_to!(node.fields@[i] => node.fields@[i].value));
    assert(decreases_to!(node.fields@[i].value => node.fields@[i].value->Object_0));
}

/// A node held in an array member of `node` is smaller than `node`.
pub proof fn lemma_field_array_item_decreases(node: &EstreeNode, key: Seq<char>, items: Vec<EstreeValue>, k: int)
    requires
        spec_field(*node, key) == Some(EstreeValue::Array(items)),
        0 <= k < items@.len(),
        items@[k] is Object,
    ensures
        decreases_to!(*node => items@[k]->Object_0),
{
    lemma_spec_field_member(*node, key);
    let i = first_key_index(node.fields@, key, 0);
    assert(decreases_to!(*node => node.fields));
    assert(decreases_to!(node.fields => node.fields@));
    assert(decreases_to!(node.fields@ => node.fields@[i]));
    assert(decreases_to!(node.fields@[i] => node.fields@[i].value));
    assert(decreases_to!(node.fields@[i].value => node.fields@[i].value->Array_0));
    assert(decreases_to!(items => items@));
    assert(decreases_to!(items@ => items@[k]));
    assert(decreases_to!(items@[k] => items@[k]->Object_0));
}

/// The value of the member named `key`.
pub fn field_named<'a>(node: &'a EstreeNode, key: &str) -> (r: Option<&'a EstreeValue>)
    ensures
        r.is_some() == spec_field(*node, key@).is_some(),
        r matches Some(v) ==> spec_field(*node, key@) == Some(*v),
{
    let mut i: usize = 0;
    while i < node.fields.len()
        invariant
            i <= node.fields@.len(),
            forall|j: int| 0 <= j < i ==> node.fields@[j].key@ != key@,
        decreases node.fields.len() - i,
    {
        if text_is(node.fields[i].key.as_slice(), key) {
            proof {
                lemma_first_key_index_range(node.fields@, key@, 0);
                lemma_first_key_index_prefix(node.fields@, key@, 0, i as int);
            }
            return Some(&node.fields[i].value);
        }
        i += 1;
    }
    proof {
        lemma_first_key_index_range(node.fields@, key@, 0);
    }
    None
}

proof fn lemma_first_key_index_prefix(fields: Seq<EstreeField>, key: Seq<char>, from: int, i: int)
    requires
        0 <= from <= i < fields.len(),
        fields[i].key@ == key,
        forall|j: int| from <= j < i ==> fields[j].key@ != key,
    ensures
        first_key_index(fields, key, from) == i,
    decreases i - from,
{
    if from < i {
        lemma_first_key_index_prefix(fields, key, from + 1, i);
    }
}

/// The value of a member named by `key`.
pub fn field<'a>(node: &'a EstreeNode, key: RawField) -> (r: Option<&'a EstreeValue>)
    ensures
        r.is_some() == spec_field(*node, key.key()@).is_some(),
        r matches Some(v) ==> spec_field(*node, key.key()@) == Some(*v),
{
    field_named(node, key.key())
}

/// The node held by a member, if the member holds a node.
pub fn field_object<'a>(node: &'a EstreeNode, key: RawField) -> (r: Option<&'a EstreeNode>)
    ensures
        r matches Some(n) ==> spec_field(*node, key.key()@) == Some(EstreeValue::Object(*n)),
        r is None ==> !(spec_field(*node, key.key()@) matches Some(EstreeValue::Object(_))),
{
    match field(node, key) {
        Some(EstreeValue::Object(n)) => Some(n),
        _ => None,
    }
}

/// The node held by a member with the given name.
pub fn field_object_named<'a>(node: &'a EstreeNode, key: &str) -> (r: Option<&'a EstreeNode>)
    ensures
        r matches Some(n) ==> spec_field(*node, key@) == Some(EstreeValue::Object(*n)),
        r is None ==> !(spec_field(*node, key@) matches Some(EstreeValue::Object(_))),
{
    match field_named(node, key) {
        Some(EstreeValue::Object(n)) => Some(n),
        _ => None,
    }
}

/// The items held by a member, if the member holds an array.
pub fn field_array<'a>(node: &'a EstreeNode, key: RawField) -> (r: Option<&'a Vec<EstreeValue>>)
    ensures
        r matches Some(a) ==> spec_field(*node, key.key()@) == Some(EstreeValue::Array(*a)),
        r is None ==> !(spec_field(*node, key.key()@) matches Some(EstreeValue::Array(_))),
{
    match field(node, key) {
        Some(EstreeValue::Array(a)) => Some(a),
        _ => None,
    }
}

/// The items held by a member with the given name.
pub fn field_array_named<'a>(node: &'a EstreeNode, key: &str) -> (r: Option<&'a Vec<EstreeValue>>)
    ensures
        r matches Some(a) ==> spec_field(*node, key@) == Some(EstreeValue::Array(*a)),
        r is None ==> !(spec_field(*node, key@) matches Some(EstreeValue::Array(_))),
{
    match field_named(node, key) {
        Some(EstreeValue::Array(a)) => Some(a),
        _ => None,
    }
}

/// The text held by a member, if the member holds a string.
pub fn field_str<'a>(node: &'a EstreeNode, key: RawField) -> (r: Option<&'a Vec<char>>)
    ensures
        r matches Some(s) ==> spec_field(*node, key.key()@) == Some(EstreeValue::String(*s)),
        r is None ==> !(spec_field(*node, key.key()@) matches Some(EstreeValue::String(_))),
{
    match field(node, key) {
        Some(EstreeValue::String(s)) => Some(s),
        _ => None,
    }
}

/// The text held by a member with the given name.
pub fn field_str_named<'a>(node: &'a EstreeNode, key: &str) -> (r: Option<&'a Vec<char>>)
    ensures
        r matches Some(s) ==> spec_field(*node, key@) == Some(EstreeValue::String(*s)),
        r is None ==> !(spec_field(*node, key@) matches Some(EstreeValue::String(_))),
{
    match field_named(node, key) {
        Some(EstreeValue::String(s)) => Some(s),
        _ => None,
    }
}

/// The flag held by a member, if the member holds a boolean.
pub fn field_bool(node: &EstreeNode, key: RawField) -> (r: Option<bool>)
    ensures
        r matches Some(b) ==> spec_field(*node, key.key()@) == Some(EstreeValue::Bool(b)),
        r is None ==> !(spec_field(*node, key.key()@) matches Some(EstreeValue::Bool(_))),
{
    match field(node, key) {
        Some(EstreeValue::Bool(b)) => Some(*b),
        _ => None,
    }
}

/// The flag held by a member with the given name.
pub fn field_bool_named(node: &EstreeNode, key: &str) -> (r: Option<bool>)
    ensures
        r matches Some(b) ==> spec_field(*node, key@) == Some(EstreeValue::Bool(b)),
        r is None ==> !(spec_field(*node, key@) matches Some(EstreeValue::Bool(_))),
{
    match field_named(node, key) {
        Some(EstreeValue::Bool(b)) => Some(*b),
        _ => None,
    }
}

/// The node's `type`, if it has one.
pub fn node_type<'a>(node: &'a EstreeNode) -> (r: Option<&'a Vec<char>>)
    ensures
        r matches Some(s) ==> spec_field(*node, "type"@) == Some(EstreeValue::String(*s)),
        r is None ==> !(spec_field(*node, "type"@) matches Some(EstreeValue::String(_))),
{
    field_str_named(node, "type")
}

/// Whether the node's `type` is `name`.
pub open spec fn spec_type_is(node: EstreeNode, name: Seq<char>) -> bool {
    spec_field(node, "type"@) matches Some(EstreeValue::String(s)) && s@ == name
}

/// Whether the node's `type` is `name`.
pub fn type_is(node: &EstreeNode, name: &str) -> (r: bool)
    ensures
        r == spec_type_is(*node, name@),
{
    match node_type(node) {
        Some(t) => text_is(t.as_slice(), name),
        None => false,
    }
}

/// A whole number that fits an offset, held by a member.
pub open spec fn spec_usize_offset(v: Option<EstreeValue>) -> Option<int> {
    match spec_offset(v) {
        Some(n) => if 0 <= n <= usize::MAX {
            Some(n)
        } else {
            None
        },
        None => None,
    }
}

/// The `start` and `end` offsets of a node, when both are whole numbers that fit an offset.
pub open spec fn spec_estree_span(node: EstreeNode) -> Option<(int, int)> {
    match (spec_usize_offset(spec_field(node, "start"@)), spec_usize_offset(spec_field(node, "end"@))) {
        (Some(s), Some(e)) => Some((s, e)),
        _ => None,
    }
}

/// A whole non-negative number as an offset.
pub fn value_to_usize(value: Option<&EstreeValue>) -> (r: Option<usize>)
    ensures
        r matches Some(n) ==> (value matches Some(EstreeValue::UInt(u)) && u as int == n as int)
            || (value matches Some(EstreeValue::Int(i)) && i as int == n as int),
        match r {
            Some(n) => spec_usize_offset(deref_value(value)) == Some(n as int),
            None => spec_usize_offset(deref_value(value)) is None,
        },
{
    match value {
        Some(EstreeValue::UInt(u)) => {
            if *u <= usize::MAX as u64 {
                Some(*u as usize)
            } else {
                None
            }
        },
        Some(EstreeValue::Int(i)) => {
            if *i >= 0 && (*i as u64) <= usize::MAX as u64 {
                Some(*i as usize)
            } else {
                None
            }
        },
        _ => None,
    }
}

/// The node's `start` and `end` offsets.
pub fn node_span(node: &EstreeNode) -> (r: Option<(usize, usize)>)
    ensures
        r matches Some((s, e)) ==> spec_offset(spec_field(*node, "start"@)) == Some(s as int)
            && spec_offset(spec_field(*node, "end"@)) == Some(e as int),
        match r {
            Some((s, e)) => spec_estree_span(*node) == Some((s as int, e as int)),
            None => spec_estree_span(*node) is None,
        },
{
    let s = value_to_usize(field_named(node, "start"))?;
    let e = value_to_usize(field_named(node, "end"))?;
    Some((s, e))
}

/// The value a reference points to, if any.
pub open spec fn deref_value(v: Option<&EstreeValue>) -> Option<EstreeValue> {
    match v {
        Some(x) => Some(*x),
        None => None,
    }
}

/// A whole number held by a member, as an integer.
pub open spec fn spec_offset(v: Option<EstreeValue>) -> Option<int> {
    match v {
        Some(EstreeValue::UInt(u)) => Some(u as int),
        Some(EstreeValue::Int(i)) => Some(i as int),
        _ => None,
    }
}

/// The node inside a value, if the value is a node.
pub fn value_object(value: &EstreeValue) -> (r: Option<&EstreeNode>)
    ensures
        r matches Some(n) ==> *value == EstreeValue::Object(*n),
        r is None ==> !(value is Object),
{
    match value {
        EstreeValue::Object(n) => Some(n),
        _ => None,
    }
}

/// The name of an `Identifier` node.
pub fn identifier_name(node: &EstreeNode) -> (r: Option<&Vec<char>>)
    ensures
        r matches Some(s) ==> spec_type_is(*node, "Identifier"@) && spec_field(*node, "name"@)
            == Some(EstreeValue::String(*s)),
        r is None ==> !spec_type_is(*node, "Identifier"@) || !(spec_field(*node, "name"@) matches Some(
            EstreeValue::String(_),
        )),
{
    if type_is(node, "Identifier") {
        field_str(node, RawField::Name)
    } else {
        None
    }
}

/// One node of a tree, with the index of its parent node in the flat list and
/// the member of the parent that holds it.
#[derive(Clone, Copy)]
pub struct FlatNode<'a> {
    pub node: &'a EstreeNode,
    pub parent: usize,
    pub via_key: &'a Vec<char>,
    pub has_parent: bool,
}

/// Whether every entry's parent comes before it.
pub open spec fn parents_precede(flat: Seq<FlatNode>) -> bool {
    forall|i: int| 0 <= i < flat.len() && (#[trigger] flat[i]).has_parent ==> flat[i].parent < i
}

/// The entries that flattening `value` appends to a list of length `base`:
/// every node inside it, in pre-order, each linked to its parent.
pub open spec fn flat_of_value<'a>(
    value: &'a EstreeValue,
    parent: usize,
    via_key: &'a Vec<char>,
    has_parent: bool,
    base: int,
) -> Seq<FlatNode<'a>>
    decreases value, 3int, 0int,
{
    match value {
        EstreeValue::Object(n) => flat_of_node(n, parent, via_key, has_parent, base),
        EstreeValue::Array(items) => flat_of_items(value, items, 0, parent, via_key, has_parent, base),
        _ => Seq::empty(),
    }
}

/// The entries that flattening the items `[i..]` of the array `value`
/// appends to a list of length `base`.
pub open spec fn flat_of_items<'a>(
    value: &'a EstreeValue,
    items: &'a Vec<EstreeValue>,
    i: int,
    parent: usize,
    via_key: &'a Vec<char>,
    has_parent: bool,
    base: int,
) -> Seq<FlatNode<'a>>
    decreases value, 2int, items@.len() - i,
{
    if 0 <= i < items@.len() && *value == EstreeValue::Array(*items) {
        proof {
            assert(decreases_to!(*value => value->Array_0));
            assert(decreases_to!(*items => items@));
            assert(decreases_to!(items@ => items@[i]));
        }
        let a = flat_of_value(&items@[i], parent, via_key, has_parent, base);
        a + flat_of_items(value, items, i + 1, parent, via_key, has_parent, base + a.len())
    } else {
        Seq::empty()
    }
}

/// The entries that flattening `node` appends to a list of length `base`:
/// the node itself, then what its members hold.
pub open spec fn flat_of_node<'a>(
    node: &'a EstreeNode,
    parent: usize,
    via_key: &'a Vec<char>,
    has_parent: bool,
    base: int,
) -> Seq<FlatNode<'a>>
    decreases node, 3int, 0int,
{
    seq![FlatNode { node, parent, via_key, has_parent }] + flat_of_fields(node, 0, base as usize, base + 1)
}

/// The entries that flattening the members `[i..]` of `node`, which stands
/// at `me`, appends to a list of length `base`.
pub open spec fn flat_of_fields<'a>(node: &'a EstreeNode, i: int, me: usize, base: int) -> Seq<FlatNode<'a>>
    decreases node, 2int, node.fields@.len() - i,
{
    if 0 <= i < node.fields@.len() {
        proof {
            assert(decreases_to!(*node => node.fields));
            assert(decreases_to!(node.fields => node.fields@));
            assert(decreases_to!(node.fields@ => node.fields@[i]));
        }
        let a = flat_of_value(&node.fields@[i].value, me, &node.fields@[i].key, true, base);
        a + flat_of_fields(node, i + 1, me, base + a.len())
    } else {
        Seq::empty()
    }
}

/// Appends, in pre-order, every node inside `value` to `out`.
fn flatten_value<'a>(
    value: &'a EstreeValue,
    parent: usize,
    via_key: &'a Vec<char>,
    has_parent: bool,
    out: &mut Vec<FlatNode<'a>>,
)
    requires
        parents_precede(old(out)@),
        has_parent ==> parent < old(out)@.len(),
    ensures
        parents_precede(final(out)@),
        final(out)@.len() >= old(out)@.len(),
        final(out)@.subrange(0, old(out)@.len() as int) == old(out)@,
        final(out)@ == old(out)@ + flat_of_value(value, parent, via_key, has_parent, old(out)@.len() as int),
    decreases value,
{
    match value {
        EstreeValue::Object(node) => {
            flatten_node(node, parent, via_key, has_parent, out);
        },
        EstreeValue::Array(items) => {
            let mut i: usize = 0;
            let ghost start = out@;
            while i < items.len()
                invariant
                    i <= items@.len(),
                    *value == EstreeValue::Array(*items),
                    parents_precede(out@),
                    has_parent ==> parent < start.len(),
                    out@.len() >= start.len(),
                    out@.subrange(0, start.len() as int) == start,
                    out@ + flat_of_items(value, items, i as int, parent, via_key, has_parent, out@.len() as int)
                        == start + flat_of_items(value, items, 0, parent, via_key, has_parent, start.len() as int),
                decreases items.len() - i,
            {
                let ghost before = out@;
                proof {
                    assert(decreases_to!(*value => value->Array_0));
                    assert(decreases_to!(*items => items@));
                    assert(decreases_to!(items@ => items@[i as int]));
                }
                flatten_value(&items[i], parent, via_key, has_parent, out);
                assert(out@.subrange(0, start.len() as int) == before.subrange(0, start.len() as int));
                proof {
                    let a = flat_of_value(&items@[i as int], parent, via_key, has_parent, before.len() as int);
                    assert(flat_of_items(value, items, i as int, parent, via_key, has_parent, before.len() as int)
                        == a + flat_of_items(value, items, i + 1, parent, via_key, has_parent, (before.len() + a.len()) as int));
                    assert(out@ == before + a);
                    assert((before + a) + flat_of_items(value, items, i + 1, parent, via_key, has_parent, out@.len() as int)
                        =~= before + (a + flat_of_items(value, items, i + 1, parent, via_key, has_parent, out@.len() as int)));
                }
                i += 1;
            }
        },
        _ => {},
    }
}

/// Appends `node` and, in pre-order, every node inside it to `out`.
fn flatten_node<'a>(
    node: &'a EstreeNode,
    parent: usize,
    via_key: &'a Vec<char>,
    has_parent: bool,
    out: &mut Vec<FlatNode<'a>>,
)
    requires
        parents_precede(old(out)@),
        has_parent ==> parent < old(out)@.len(),
    ensures
        parents_precede(final(out)@),
        final(out)@.len() > old(out)@.len(),
        final(out)@.subrange(0, old(out)@.len() as int) == old(out)@,
        final(out)@[old(out)@.len() as int].node == node,
        final(out)@ == old(out)@ + flat_of_node(node, parent, via_key, has_parent, old(out)@.len() as int),
    decreases node,
{
    let me = out.len();
    out.push(FlatNode { node, parent, via_key, has_parent });
    let ghost start = out@;
    let mut i: usize = 0;
    while i < node.fields.len()
        invariant
            i <= node.fields@.len(),
            parents_precede(out@),
            me < start.len(),
            start.len() == old(out)@.len() + 1,
            start[me as int].node == node,
            start.subrange(0, me as int) == old(out)@,
            out@.len() >= start.len(),
            out@.subrange(0, start.len() as int) == start,
            start == old(out)@.push(FlatNode { node, parent, via_key, has_parent }),
            me == old(out)@.len(),
            out@ + flat_of_fields(node, i as int, me, out@.len() as int) == start + flat_of_fields(node, 0, me, start.len() as int),
        decreases node.fields.len() - i,
    {
        let ghost before = out@;
        flatten_value(&node.fields[i].value, me, &node.fields[i].key, true, out);
        assert(out@.subrange(0, start.len() as int) == before.subrange(0, start.len() as int));
        proof {
            let a = flat_of_value(&node.fields@[i as int].value, me, &node.fields@[i as int].key, true, before.len() as int);
            assert(flat_of_fields(node, i as int, me, before.len() as int) == a + flat_of_fields(node, i + 1, me, (before.len() + a.len()) as int));
            assert(out@ == before + a);
            assert((before + a) + flat_of_fields(node, i + 1, me, out@.len() as int)
                =~= before + (a + flat_of_fields(node, i + 1, me, out@.len() as int)));
        }
        i += 1;
    }
    assert(flat_of_fields(node, i as int, me, out@.len() as int) == Seq::<FlatNode<'a>>::empty());
    assert(out@ == old(out)@ + flat_of_node(node, parent, via_key, has_parent, old(out)@.len() as int)) by {
        assert(out@ =~= start + flat_of_fields(node, 0, me, start.len() as int));
        assert(flat_of_node(node, parent, via_key, has_parent, old(out)@.len() as int)
            == seq![FlatNode { node, parent, via_key, has_parent }] + flat_of_fields(node, 0, me, start.len() as int));
        assert(start + flat_of_fields(node, 0, me, start.len() as int)
            =~= old(out)@ + (seq![FlatNode { node, parent, via_key, has_parent }] + flat_of_fields(node, 0, me, start.len() as int)));
    }
    assert(out@[me as int] == start[me as int]);
    assert(out@.subrange(0, me as int) == start.subrange(0, me as int));
}

/// Every node of the tree rooted at `root`, in pre-order, each linked to its parent.
pub fn flatten<'a>(root: &'a EstreeNode, root_key: &'a Vec<char>) -> (out: Vec<FlatNode<'a>>)
    ensures
        out@.len() >= 1,
        out@[0].node == root,
        !out@[0].has_parent,
        parents_precede(out@),
        out@ == flat_of_node(root, 0, root_key, false, 0),
{
    let mut out: Vec<FlatNode<'a>> = Vec::new();
    flatten_node(root, 0, root_key, false, &mut out);
    out
}

} // verus!

verus! {

/// Whether two values hold the same data, member by member.
pub open spec fn same_value(a: EstreeValue, b: EstreeValue) -> bool
    decreases a, 1int, 0int,
{
    match a {
        EstreeValue::Null => b is Null,
        EstreeValue::Bool(x) => b matches EstreeValue::Bool(y) && x == y,
        EstreeValue::Int(x) => b matches EstreeValue::Int(y) && x == y,
        EstreeValue::UInt(x) => b matches EstreeValue::UInt(y) && x == y,
        EstreeValue::Number(x) => b matches EstreeValue::Number(y) && x@ == y@,
        EstreeValue::String(x) => b matches EstreeValue::String(y) && x@ == y@,
        EstreeValue::Array(x) => match b {
            EstreeValue::Array(y) => x@.len() == y@.len() && same_items(a, y@, 0),
            _ => false,
        },
        EstreeValue::Object(x) => match b {
            EstreeValue::Object(y) => {
                proof {
                    assert(decreases_to!(a => a->Object_0));
                }
                same_node(x, y)
            },
            _ => false,
        },
    }
}

/// Whether the items `[i..]` of the array value `a` hold the same data as
/// those of `ys`.
pub open spec fn same_items(a: EstreeValue, ys: Seq<EstreeValue>, i: int) -> bool
    decreases a, 0int, (match a {
        EstreeValue::Array(items) => items@.len() as int,
        _ => 0int,
    }) - i,
{
    match a {
        EstreeValue::Array(xs) => if 0 <= i < xs@.len() && i < ys.len() {
            proof {
                assert(decreases_to!(a => a->Array_0));
                assert(decreases_to!(xs => xs@));
                assert(decreases_to!(xs@ => xs@[i]));
            }
            same_value(xs@[i], ys[i]) && same_items(a, ys, i + 1)
        } else {
            true
        },
        _ => true,
    }
}

/// Whether two nodes hold the same members, in order, with the same data.
pub open spec fn same_node(x: EstreeNode, y: EstreeNode) -> bool
    decreases x, 1int, 0int,
{
    x.fields@.len() == y.fields@.len() && same_fields(x, y.fields@, 0)
}

/// Whether the members `x.fields[i..]` hold the same keys and data as `ys[i..]`.
pub open spec fn same_fields(x: EstreeNode, ys: Seq<EstreeField>, i: int) -> bool
    decreases x, 0int, x.fields@.len() - i,
{
    if 0 <= i < x.fields@.len() && i < ys.len() {
        proof {
            assert(decreases_to!(x => x.fields));
            assert(decreases_to!(x.fields => x.fields@));
            assert(decreases_to!(x.fields@ => x.fields@[i]));
            assert(decreases_to!(x.fields@[i] => x.fields@[i].value));
        }
        x.fields@[i].key@ == ys[i].key@ && same_value(x.fields@[i].value, ys[i].value) && same_fields(x, ys, i + 1)
    } else {
        true
    }
}

/// The items that match one by one make `same_items` hold.
proof fn lemma_same_items(a: EstreeValue, ys: Seq<EstreeValue>, i: int)
    requires
        a is Array,
        0 <= i,
        forall|k: int| i <= k < a->Array_0@.len() && k < ys.len() ==> same_value(a->Array_0@[k], #[trigger] ys[k]),
    ensures
        same_items(a, ys, i),
    decreases a->Array_0@.len() - i,
{
    if i < a->Array_0@.len() && i < ys.len() {
        lemma_same_items(a, ys, i + 1);
    }
}

/// The members that match one by one make `same_fields` hold.
proof fn lemma_same_fields(x: EstreeNode, ys: Seq<EstreeField>, i: int)
    requires
        0 <= i,
        forall|k: int|
            i <= k < x.fields@.len() && k < ys.len() ==> x.fields@[k].key@ == (#[trigger] ys[k]).key@ && same_value(
                x.fields@[k].value,
                ys[k].value,
            ),
    ensures
        same_fields(x, ys, i),
    decreases x.fields@.len() - i,
{
    if i < x.fields@.len() && i < ys.len() {
        lemma_same_fields(x, ys, i + 1);
    }
}

/// A copy of a value, member by member.
pub fn clone_value(value: &EstreeValue) -> (r: EstreeValue)
    ensures
        same_value(*value, r),
    decreases value,
{
    match value {
        EstreeValue::Null => EstreeValue::Null,
        EstreeValue::Bool(b) => EstreeValue::Bool(*b),
        EstreeValue::Int(i) => EstreeValue::Int(*i),
        EstreeValue::UInt(u) => EstreeValue::UInt(*u),
        EstreeValue::Number(n) => EstreeValue::Number(crate::text::copy_chars(n.as_slice())),
        EstreeValue::String(s) => EstreeValue::String(crate::text::copy_chars(s.as_slice())),
        EstreeValue::Array(items) => {
            let mut out: Vec<EstreeValue> = Vec::new();
            let mut i: usize = 0;
            while i < items.len()
                invariant
                    i <= items@.len(),
                    *value == EstreeValue::Array(*items),
                    out@.len() == i,
                    forall|k: int| 0 <= k < i ==> same_value(items@[k], #[trigger] out@[k]),
                decreases items.len() - i,
            {
                proof {
                    assert(decreases_to!(*value => value->Array_0));
                    assert(decreases_to!(*items => items@));
                    assert(decreases_to!(items@ => items@[i as int]));
                }
                let c = clone_value(&items[i]);
                out.push(c);
                i += 1;
            }
            proof {
                lemma_same_items(*value, out@, 0);
            }
            EstreeValue::Array(out)
        },
        EstreeValue::Object(node) => {
            proof {
                assert(decreases_to!(*value => value->Object_0));
            }
            EstreeValue::Object(clone_node(node))
        },
    }
}

/// A copy of a node, member by member.
pub fn clone_node(node: &EstreeNode) -> (r: EstreeNode)
    ensures
        same_node(*node, r),
    decreases node,
{
    let mut fields: Vec<EstreeField> = Vec::new();
    let mut i: usize = 0;
    while i < node.fields.len()
        invariant
            i <= node.fields@.len(),
            fields@.len() == i,
            forall|k: int|
                0 <= k < i ==> node.fields@[k].key@ == (#[trigger] fields@[k]).key@ && same_value(
                    node.fields@[k].value,
                    fields@[k].value,
                ),
        decreases node.fields.len() - i,
    {
        proof {
            assert(decreases_to!(*node => node.fields));
            assert(decreases_to!(node.fields => node.fields@));
            assert(decreases_to!(node.fields@ => node.fields@[i as int]));
            assert(decreases_to!(node.fields@[i as int] => node.fields@[i as int].value));
        }
        let key = crate::text::copy_chars(node.fields[i].key.as_slice());
        let value = clone_value(&node.fields[i].value);
        fields.push(EstreeField { key, value });
        i += 1;
    }
    proof {
        lemma_same_fields(*node, fields@, 0);
    }
    EstreeNode { fields }
}

/// The value of the first member named `key`, taken out of the node.
pub fn take_field(node: EstreeNode, key: &str) -> (r: Option<EstreeValue>)
    ensures
        r == spec_field(node, key@),
{
    let mut i: usize = 0;
    let mut fields = node.fields;
    while i < fields.len()
        invariant
            i <= fields@.len(),
            fields@ == node.fields@,
            forall|j: int| 0 <= j < i ==> fields@[j].key@ != key@,
        decreases fields.len() - i,
    {
        if text_is(fields[i].key.as_slice(), key) {
            proof {
                lemma_first_key_index_range(node.fields@, key@, 0);
                lemma_first_key_index_prefix(node.fields@, key@, 0, i as int);
            }
            let f = fields.remove(i);
            return Some(f.value);
        }
        i += 1;
    }
    proof {
        lemma_first_key_index_range(node.fields@, key@, 0);
    }
    None
}

/// The node held by the first member named `key`, taken out of the node.
pub fn take_object(node: EstreeNode, key: &str) -> (r: Option<EstreeNode>)
    ensures
        r matches Some(n) ==> spec_field(node, key@) == Some(EstreeValue::Object(n)),
        r is None ==> !(spec_field(node, key@) matches Some(EstreeValue::Object(_))),
{
    match take_field(node, key) {
        Some(EstreeValue::Object(n)) => Some(n),
        _ => None,
    }
}

/// The items held by the first member named `key`, taken out of the node.
pub fn take_array(node: EstreeNode, key: &str) -> (r: Option<Vec<EstreeValue>>)
    ensures
        r matches Some(a) ==> spec_field(node, key@) == Some(EstreeValue::Array(a)),
        r is None ==> !(spec_field(node, key@) matches Some(EstreeValue::Array(_))),
{
    match take_field(node, key) {
        Some(EstreeValue::Array(a)) => Some(a),
        _ => None,
    }
}

/// A member with the given name and value.
pub fn member(key: &str, value: EstreeValue) -> (f: EstreeField)
    ensures
        f.key@ == key@,
        f.value == value,
{
    EstreeField { key: crate::text::chars_of(key), value }
}

/// Whether `n` is exactly the node `{type: "Identifier", start, end, name}`,
/// with its fields in that order.
pub open spec fn is_identifier_node(n: EstreeNode, name: Seq<char>, start: usize, end: usize) -> bool {
    &&& n.fields@.len() == 4
    &&& n.fields@[0].key@ == "type"@
    &&& n.fields@[0].value matches EstreeValue::String(t) && t@ == "Identifier"@
    &&& n.fields@[1].key@ == "start"@
    &&& n.fields@[1].value == EstreeValue::UInt(start as u64)
    &&& n.fields@[2].key@ == "end"@
    &&& n.fields@[2].value == EstreeValue::UInt(end as u64)
    &&& n.fields@[3].key@ == "name"@
    &&& n.fields@[3].value matches EstreeValue::String(v) && v@ == name
}

/// An `Identifier` node named `name` spanning `start..end`.
pub fn make_identifier(name: Vec<char>, start: usize, end: usize) -> (n: EstreeNode)
    ensures
        is_identifier_node(n, name@, start, end),
        n.fields@.len() == 4,
        n.fields@[0].key@ == "type"@,
        n.fields@[0].value == EstreeValue::String(n.fields@[0].value->String_0),
        n.fields@[0].value->String_0@ == "Identifier"@,
        n.fields@[1].key@ == "start"@,
        n.fields@[1].value == EstreeValue::UInt(start as u64),
        n.fields@[2].key@ == "end"@,
        n.fields@[2].value == EstreeValue::UInt(end as u64),
        n.fields@[3].key@ == "name"@,
        n.fields@[3].value == EstreeValue::String(name),
{
    let mut fields: Vec<EstreeField> = Vec::new();
    fields.push(member("type", EstreeValue::String(crate::text::chars_of("Identifier"))));
    fields.push(member("start", EstreeValue::UInt(start as u64)));
    fields.push(member("end", EstreeValue::UInt(end as u64)));
    fields.push(member("name", EstreeValue::String(name)));
    EstreeNode { fields }
}

} // verus!

verus! {

/// The first node of the tree at `n`, in pre-order, that `p` holds of.
pub open spec fn first_match(n: EstreeNode, p: spec_fn(EstreeNode) -> bool) -> Option<EstreeNode>
    decreases n, 1int, 0int,
{
    if p(n) {
        Some(n)
    } else {
        first_match_fields(n, 0, p)
    }
}

/// The first node that `p` holds of inside the members `n.fields[i..]`.
pub open spec fn first_match_fields(n: EstreeNode, i: int, p: spec_fn(EstreeNode) -> bool) -> Option<EstreeNode>
    decreases n, 0int, n.fields@.len() - i,
{
    if 0 <= i < n.fields@.len() {
        proof {
            assert(decreases_to!(n => n.fields));
            assert(decreases_to!(n.fields => n.fields@));
            assert(decreases_to!(n.fields@ => n.fields@[i]));
            assert(decreases_to!(n.fields@[i] => n.fields@[i].value));
        }
        match first_match_value(n.fields@[i].value, p) {
            Some(x) => Some(x),
            None => first_match_fields(n, i + 1, p),
        }
    } else {
        None
    }
}

/// The first node that `p` holds of inside a member value.
pub open spec fn first_match_value(v: EstreeValue, p: spec_fn(EstreeNode) -> bool) -> Option<EstreeNode>
    decreases v, 1int, 0int,
{
    match v {
        EstreeValue::Object(n) => first_match(n, p),
        EstreeValue::Array(_) => first_match_items(v, 0, p),
        _ => None,
    }
}

/// The first node that `p` holds of inside the items `[i..]` of an array value.
pub open spec fn first_match_items(v: EstreeValue, i: int, p: spec_fn(EstreeNode) -> bool) -> Option<EstreeNode>
    decreases v, 0int, (match v {
        EstreeValue::Array(items) => items@.len() as int,
        _ => 0int,
    }) - i,
{
    match v {
        EstreeValue::Array(items) => if 0 <= i < items@.len() {
            proof {
                assert(decreases_to!(v => v->Array_0));
                assert(decreases_to!(items => items@));
                assert(decreases_to!(items@ => items@[i]));
            }
            match first_match_value(items@[i], p) {
                Some(x) => Some(x),
                None => first_match_items(v, i + 1, p),
            }
        } else {
            None
        },
        _ => None,
    }
}

/// The node a reference points to, if any.
pub open spec fn deref_node(r: Option<&EstreeNode>) -> Option<EstreeNode> {
    match r {
        Some(n) => Some(*n),
        None => None,
    }
}

/// Whether every answer of `pred` is the one `p` gives.
pub open spec fn tests_as<F: Fn(&EstreeNode) -> bool>(pred: F, p: spec_fn(EstreeNode) -> bool) -> bool {
    forall|n: &EstreeNode, b: bool| call_ensures(pred, (n,), b) ==> b == p(*n)
}

/// The first node of the tree at `node`, in pre-order, that `pred` holds of;
/// when `p` describes `pred`, the node `first_match` names.
pub fn find_first_node<'a, F: Fn(&EstreeNode) -> bool>(
    node: &'a EstreeNode,
    pred: &F,
    Ghost(p): Ghost<spec_fn(EstreeNode) -> bool>,
) -> (r: Option<&'a EstreeNode>)
    requires
        forall|n: &EstreeNode| call_requires(*pred, (n,)),
    ensures
        tests_as(*pred, p) ==> deref_node(r) == first_match(*node, p),
    decreases node, 1nat, 0nat,
{
    if pred(node) {
        return Some(node);
    }
    let mut i: usize = 0;
    while i < node.fields.len()
        invariant
            i <= node.fields@.len(),
            forall|n: &EstreeNode| call_requires(*pred, (n,)),
            tests_as(*pred, p) ==> !p(*node) && first_match(*node, p) == first_match_fields(*node, i as int, p),
        decreases node.fields.len() - i,
    {
        proof {
            assert(decreases_to!(*node => node.fields));
            assert(decreases_to!(node.fields => node.fields@));
            assert(decreases_to!(node.fields@ => node.fields@[i as int]));
            assert(decreases_to!(node.fields@[i as int] => node.fields@[i as int].value));
        }
        if let Some(found) = find_first_in_value(&node.fields[i].value, pred, Ghost(p)) {
            return Some(found);
        }
        i += 1;
    }
    None
}

/// The first node inside a member value that `pred` holds of.
fn find_first_in_value<'a, F: Fn(&EstreeNode) -> bool>(
    value: &'a EstreeValue,
    pred: &F,
    Ghost(p): Ghost<spec_fn(EstreeNode) -> bool>,
) -> (r: Option<&'a EstreeNode>)
    requires
        forall|n: &EstreeNode| call_requires(*pred, (n,)),
    ensures
        tests_as(*pred, p) ==> deref_node(r) == first_match_value(*value, p),
    decreases value, 0nat, 0nat,
{
    match value {
        EstreeValue::Object(n) => find_first_node(n, pred, Ghost(p)),
        EstreeValue::Array(items) => {
            let mut i: usize = 0;
            while i < items.len()
                invariant
                    i <= items@.len(),
                    *value == EstreeValue::Array(*items),
                    forall|n: &EstreeNode| call_requires(*pred, (n,)),
                    tests_as(*pred, p) ==> first_match_items(*value, 0, p) == first_match_items(*value, i as int, p),
                decreases items.len() - i,
            {
                proof {
                    assert(decreases_to!(*value => value->Array_0));
                    assert(decreases_to!(*items => items@));
                    assert(decreases_to!(items@ => items@[i as int]));
                }
                if let Some(found) = find_first_in_value(&items[i], pred, Ghost(p)) {
                    return Some(found);
                }
                i += 1;
            }
            None
        },
        _ => None,
    }
}

} // verus!

verus! {

/// What `first_match` finds is a node that `p` holds of.
pub proof fn lemma_first_match_holds(n: EstreeNode, p: spec_fn(EstreeNode) -> bool)
    ensures
        first_match(n, p) matches Some(x) ==> p(x),
    decreases n, 1int, 0int,
{
    if !p(n) {
        lemma_first_match_fields_holds(n, 0, p);
    }
}

proof fn lemma_first_match_fields_holds(n: EstreeNode, i: int, p: spec_fn(EstreeNode) -> bool)
    ensures
        first_match_fields(n, i, p) matches Some(x) ==> p(x),
    decreases n, 0int, n.fields@.len() - i,
{
    if 0 <= i < n.fields@.len() {
        assert(decreases_to!(n => n.fields));
        assert(decreases_to!(n.fields => n.fields@));
        assert(decreases_to!(n.fields@ => n.fields@[i]));
        assert(decreases_to!(n.fields@[i] => n.fields@[i].value));
        lemma_first_match_value_holds(n.fields@[i].value, p);
        lemma_first_match_fields_holds(n, i + 1, p);
    }
}

proof fn lemma_first_match_value_holds(v: EstreeValue, p: spec_fn(EstreeNode) -> bool)
    ensures
        first_match_value(v, p) matches Some(x) ==> p(x),
    decreases v, 1int, 0int,
{
    match v {
        EstreeValue::Object(n) => lemma_first_match_holds(n, p),
        EstreeValue::Array(_) => lemma_first_match_items_holds(v, 0, p),
        _ => {},
    }
}

proof fn lemma_first_match_items_holds(v: EstreeValue, i: int, p: spec_fn(EstreeNode) -> bool)
    ensures
        first_match_items(v, i, p) matches Some(x) ==> p(x),
    decreases v, 0int, (match v {
        EstreeValue::Array(items) => items@.len() as int,
        _ => 0int,
    }) - i,
{
    match v {
        EstreeValue::Array(items) => if 0 <= i < items@.len() {
            assert(decreases_to!(v => v->Array_0));
            assert(decreases_to!(items => items@));
            assert(decreases_to!(items@ => items@[i]));
            lemma_first_match_value_holds(items@[i], p);
            lemma_first_match_items_holds(v, i + 1, p);
        },
        _ => {},
    }
}

} // verus!
