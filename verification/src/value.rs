//! The value model of the evaluator: booleans, numbers, strings and node
//! sets, the coercion rules between them, and the equality ladder.

use crate::num;
use vstd::prelude::*;
use vstd::string::StrSliceExecFns;

verus! {

/// A handle to a position in a document tree.  Two handles are equal exactly
/// when they denote the same position; the parent is a weak back-reference,
/// held as an index, and absent for a root.
#[derive(Clone, Copy, Debug)]
pub struct Node {
    pub parent: Option<usize>,
}

impl Node {
    pub fn new() -> (r: Node)
        ensures
            r.parent is None,
    {
        Node { parent: None }
    }

    pub fn new_with_parent(parent: usize) -> (r: Node)
        ensures
            r.parent == Some(parent),
    {
        Node { parent: Some(parent) }
    }
}

impl PartialEq for Node {
    fn eq(&self, other: &Self) -> (r: bool) {
        match (self.parent, other.parent) {
            (Option::None, Option::None) => true,
            (Option::Some(a), Option::Some(b)) => a == b,
            _ => false,
        }
    }
}

impl Eq for Node {

}

impl vstd::std_specs::cmp::PartialEqSpecImpl for Node {
    open spec fn obeys_eq_spec() -> bool {
        true
    }

    open spec fn eq_spec(&self, other: &Self) -> bool {
        *self == *other
    }
}

/// A duplicate-free collection of nodes that remembers the order in which
/// nodes were added (the document order of its producers).  Its `==` is set
/// equality: the order of addition never matters to it.
#[derive(Clone, Debug)]
pub struct Nodeset {
    nodes: Vec<Node>,
}

impl View for Nodeset {
    type V = Seq<Node>;

    closed spec fn view(&self) -> Seq<Node> {
        self.nodes@
    }
}

/// Two node sequences hold the same members.
pub open spec fn same_members(a: Seq<Node>, b: Seq<Node>) -> bool {
    forall|n: Node| a.contains(n) <==> b.contains(n)
}

/// Two node sets hold the same members.
pub open spec fn set_equal(a: Nodeset, b: Nodeset) -> bool {
    same_members(a@, b@)
}

impl Nodeset {
    /// No node occurs twice.
    pub open spec fn wf(&self) -> bool {
        forall|i: int, j: int| 0 <= i < j < self@.len() ==> self@[i] != self@[j]
    }

    pub fn new() -> (r: Nodeset)
        ensures
            r@ == Seq::<Node>::empty(),
            r.wf(),
    {
        Nodeset { nodes: Vec::new() }
    }

    pub fn contains(&self, node: &Node) -> (r: bool)
        ensures
            r == self@.contains(*node),
    {
        let mut i: usize = 0;
        while i < self.nodes.len()
            invariant
                i <= self.nodes.len(),
                forall|k: int| 0 <= k < i ==> self.nodes@[k] != *node,
            decreases self.nodes.len() - i,
        {
            if self.nodes[i] == *node {
                return true;
            }
            i = i + 1;
        }
        false
    }

    /// Adds a node; a node already present is not added again.
    pub fn add(&mut self, node: &Node)
        ensures
            final(self)@ == if old(self)@.contains(*node) {
                old(self)@
            } else {
                old(self)@.push(*node)
            },
            old(self).wf() ==> final(self).wf(),
    {
        if !self.contains(node) {
            self.nodes.push(*node);
        }
    }

    pub fn size(&self) -> (r: usize)
        ensures
            r == self@.len(),
    {
        self.nodes.len()
    }

    /// The node at a rank of the remembered order.
    pub fn get(&self, i: usize) -> (r: Node)
        requires
            i < self@.len(),
        ensures
            r == self@[i as int],
    {
        self.nodes[i]
    }

    /// An element-for-element copy.
    pub fn duplicate(&self) -> (r: Nodeset)
        ensures
            r@ == self@,
    {
        let mut nodes: Vec<Node> = Vec::new();
        let mut i: usize = 0;
        while i < self.nodes.len()
            invariant
                i <= self.nodes.len(),
                nodes@ == self.nodes@.subrange(0, i as int),
            decreases self.nodes.len() - i,
        {
            nodes.push(self.nodes[i]);
            i = i + 1;
        }
        proof {
            assert(nodes@ =~= self.nodes@);
        }
        Nodeset { nodes }
    }
}

impl PartialEq for Nodeset {
    fn eq(&self, other: &Self) -> (r: bool) {
        let fwd = contains_all(&self.nodes, other);
        let bwd = contains_all(&other.nodes, self);
        proof {
            if fwd && bwd {
                assert forall|n: Node| self@.contains(n) implies other@.contains(n) by {
                    let k = choose|k: int| 0 <= k < self@.len() && self@[k] == n;
                    assert(other@.contains(self@[k]));
                }
                assert forall|n: Node| other@.contains(n) implies self@.contains(n) by {
                    let k = choose|k: int| 0 <= k < other@.len() && other@[k] == n;
                    assert(self@.contains(other@[k]));
                }
            }
            if !fwd {
                let k = choose|k: int| 0 <= k < self@.len() && !other@.contains(#[trigger] self@[k]);
                assert(self@.contains(self@[k]));
            }
            if !bwd {
                let k = choose|k: int|
                    0 <= k < other@.len() && !self@.contains(#[trigger] other@[k]);
                assert(other@.contains(other@[k]));
            }
        }
        fwd && bwd
    }
}

impl Eq for Nodeset {

}

impl vstd::std_specs::cmp::PartialEqSpecImpl for Nodeset {
    open spec fn obeys_eq_spec() -> bool {
        true
    }

    open spec fn eq_spec(&self, other: &Self) -> bool {
        set_equal(*self, *other)
    }
}

fn contains_all(xs: &Vec<Node>, other: &Nodeset) -> (r: bool)
    ensures
        r == forall|k: int| 0 <= k < xs@.len() ==> other@.contains(#[trigger] xs@[k]),
{
    let mut i: usize = 0;
    while i < xs.len()
        invariant
            i <= xs.len(),
            forall|k: int| 0 <= k < i ==> other@.contains(#[trigger] xs@[k]),
        decreases xs.len() - i,
    {
        if !other.contains(&xs[i]) {
            return false;
        }
        i = i + 1;
    }
    true
}

/// Nodeset equality looks only at membership: any two sets with the same
/// members are equal, whatever order their nodes were added in.
pub proof fn lemma_nodeset_equality_order_independent(a: Nodeset, b: Nodeset)
    requires
        forall|n: Node| a@.contains(n) ==> b@.contains(n),
        forall|n: Node| b@.contains(n) ==> a@.contains(n),
    ensures
        set_equal(a, b),
        set_equal(b, a),
{
}

/// The result of an evaluation: a tagged union of the four value kinds.  A
/// number is held as the bit pattern of an IEEE 754 double (`crate::num`).
#[derive(Clone, Debug)]
pub enum Value {
    Boolean(bool),
    Number(u64),
    String(String),
    Nodes(Nodeset),
}

/// The mathematical content of a `Value`.
pub enum ValueModel {
    Boolean(bool),
    Number(u64),
    String(Seq<char>),
    Nodes(Seq<Node>),
}

impl View for Value {
    type V = ValueModel;

    open spec fn view(&self) -> ValueModel {
        match *self {
            Value::Boolean(b) => ValueModel::Boolean(b),
            Value::Number(n) => ValueModel::Number(n),
            Value::String(ref s) => ValueModel::String(s@),
            Value::Nodes(ref ns) => ValueModel::Nodes(ns@),
        }
    }
}

/// Boolean coercion: a number is true when neither NaN nor zero, a string
/// when non-empty, a node set when non-empty.
pub open spec fn bool_of(v: ValueModel) -> bool {
    match v {
        ValueModel::Boolean(b) => b,
        ValueModel::Number(n) => num::truthy(n),
        ValueModel::String(s) => s.len() > 0,
        ValueModel::Nodes(ns) => ns.len() > 0,
    }
}

/// Number coercion: true is 1 and false is 0, a string is parsed as a
/// decimal (NaN when that fails), and a node set coerces to NaN, since the
/// string value of nodes lies outside this core.
pub open spec fn num_of(v: ValueModel) -> u64 {
    match v {
        ValueModel::Number(n) => n,
        ValueModel::Boolean(b) => if b {
            num::ONE_BITS
        } else {
            num::ZERO_BITS
        },
        ValueModel::String(s) => num::spec_parse_number(s),
        ValueModel::Nodes(_) => num::NAN_BITS,
    }
}

/// String coercion for the last step of the equality ladder.  Only strings
/// and node sets can reach that step; a node set renders as the empty string
/// (the string value of nodes lies outside this core), and the boolean and
/// number renderings are given for totality.
pub open spec fn str_of(v: ValueModel) -> Seq<char> {
    match v {
        ValueModel::String(s) => s,
        ValueModel::Nodes(_) => Seq::<char>::empty(),
        ValueModel::Boolean(b) => if b {
            "true"@
        } else {
            "false"@
        },
        ValueModel::Number(_) => Seq::<char>::empty(),
    }
}

/// The equality ladder: if either side is a boolean, compare as booleans; else
/// if either side is a number, compare as numbers under IEEE equality; else
/// compare as strings.
pub open spec fn equal_values(a: ValueModel, b: ValueModel) -> bool {
    if a is Boolean || b is Boolean {
        bool_of(a) == bool_of(b)
    } else if a is Number || b is Number {
        num::eq_bits(num_of(a), num_of(b))
    } else {
        str_of(a) == str_of(b)
    }
}

/// Coercion precedence: whenever either operand is a boolean, equality is
/// decided by boolean coercion alone, whatever the other operand is.
pub proof fn lemma_equal_boolean_precedence(a: ValueModel, b: ValueModel)
    requires
        a is Boolean || b is Boolean,
    ensures
        equal_values(a, b) == (bool_of(a) == bool_of(b)),
{
}

pub fn boolean_value(v: &Value) -> (r: bool)
    ensures
        r == bool_of(v@),
{
    match v {
        Value::Boolean(b) => *b,
        Value::Number(n) => num::num_truthy(*n),
        Value::String(s) => s.as_str().unicode_len() > 0,
        Value::Nodes(ns) => ns.size() > 0,
    }
}

pub fn number_value(v: &Value) -> (r: u64)
    ensures
        r == num_of(v@),
{
    match v {
        Value::Number(n) => *n,
        Value::Boolean(b) => if *b {
            num::ONE_BITS
        } else {
            num::ZERO_BITS
        },
        Value::String(s) => num::num_parse_str(s.as_str()),
        Value::Nodes(_) => num::NAN_BITS,
    }
}

pub fn string_value(v: &Value) -> (r: String)
    ensures
        r@ == str_of(v@),
{
    match v {
        Value::String(s) => s.clone(),
        Value::Nodes(_) => String::new(),
        Value::Boolean(b) => if *b {
            "true".to_owned()
        } else {
            "false".to_owned()
        },
        Value::Number(_) => String::new(),
    }
}

/// Decides the equality ladder on two values.
pub fn value_equal(a: &Value, b: &Value) -> (r: bool)
    ensures
        r == equal_values(a@, b@),
{
    let a_bool = matches!(a, Value::Boolean(_));
    let b_bool = matches!(b, Value::Boolean(_));
    if a_bool || b_bool {
        let ba = boolean_value(a);
        let bb = boolean_value(b);
        ba == bb
    } else {
        let a_num = matches!(a, Value::Number(_));
        let b_num = matches!(b, Value::Number(_));
        if a_num || b_num {
            num::num_eq(number_value(a), number_value(b))
        } else {
            let sa = string_value(a);
            let sb = string_value(b);
            sa == sb
        }
    }
}

/// An element-for-element copy of a value.
pub fn duplicate_value(v: &Value) -> (r: Value)
    ensures
        r@ == v@,
{
    match v {
        Value::Boolean(b) => Value::Boolean(*b),
        Value::Number(n) => Value::Number(*n),
        Value::String(s) => Value::String(s.clone()),
        Value::Nodes(ns) => Value::Nodes(ns.duplicate()),
    }
}

impl PartialEq for Value {
    fn eq(&self, other: &Self) -> (r: bool) {
        match (self, other) {
            (Value::Boolean(a), Value::Boolean(b)) => *a == *b,
            (Value::Number(a), Value::Number(b)) => *a == *b,
            (Value::String(a), Value::String(b)) => <String as PartialEq>::eq(a, b),
            (Value::Nodes(a), Value::Nodes(b)) => <Nodeset as PartialEq>::eq(a, b),
            _ => false,
        }
    }
}

impl Eq for Value {

}

impl vstd::std_specs::cmp::PartialEqSpecImpl for Value {
    open spec fn obeys_eq_spec() -> bool {
        true
    }

    open spec fn eq_spec(&self, other: &Self) -> bool {
        match (self@, other@) {
            (ValueModel::Boolean(a), ValueModel::Boolean(b)) => a == b,
            (ValueModel::Number(a), ValueModel::Number(b)) => a == b,
            (ValueModel::String(a), ValueModel::String(b)) => a == b,
            (ValueModel::Nodes(a), ValueModel::Nodes(b)) => same_members(a, b),
            _ => false,
        }
    }
}

} // verus!
