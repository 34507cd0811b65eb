//! The evaluation context: the current node, the function library supplied
//! by the caller, and the position and size state used inside predicates.

use crate::token::str_eq;
use crate::value::{Node, Value};
use vstd::prelude::*;

verus! {

/// A function callable from an expression: it receives the context and the
/// already-evaluated arguments, in order.  Implementations come from the
/// surrounding application; nothing is assumed of their results.
pub trait XPathFunction: Sized {
    fn evaluate(&self, context: &EvaluationContext<'_, Self>, arguments: Vec<Value>) -> Value;
}

/// An immutable mapping from names to functions; the evaluator only reads it.
pub struct Functions<F> {
    entries: Vec<(String, F)>,
}

impl<F> Functions<F> {
    /// The set of names the library knows.
    pub closed spec fn names(&self) -> Set<Seq<char>> {
        Set::new(
            |s: Seq<char>|
                exists|i: int| 0 <= i < self.entries@.len() && (#[trigger] self.entries@[i].0)@
                    == s,
        )
    }

    pub fn new() -> (r: Functions<F>)
        ensures
            r.names() == Set::<Seq<char>>::empty(),
    {
        let r = Functions::<F> { entries: Vec::new() };
        proof {
            assert(r.names() =~= Set::<Seq<char>>::empty());
        }
        r
    }

    pub fn insert(&mut self, name: String, function: F)
        ensures
            final(self).names() == old(self).names().insert(name@),
    {
        let ghost before = self.entries@;
        self.entries.push((name, function));
        proof {
            assert forall|s: Seq<char>| #[trigger]
                self.names().contains(s) implies old(self).names().insert(name@).contains(s) by {
                let i = choose|i: int|
                    0 <= i < self.entries@.len() && (#[trigger] self.entries@[i].0)@ == s;
                if i < before.len() {
                    assert((before[i].0)@ == s);
                }
            }
            assert forall|s: Seq<char>| old(self).names().insert(name@).contains(
                s,
            ) implies #[trigger] self.names().contains(s) by {
                if old(self).names().contains(s) {
                    let i = choose|i: int| 0 <= i < before.len() && (#[trigger] before[i].0)@ == s;
                    assert((self.entries@[i].0)@ == s);
                } else {
                    assert((self.entries@[before.len() as int].0)@ == s);
                }
            }
            assert(self.names() =~= old(self).names().insert(name@));
        }
    }

    /// Finds the function registered under a name, if any.
    pub fn find<'a>(&'a self, name: &str) -> (r: Option<&'a F>)
        ensures
            r is Some <==> self.names().contains(name@),
    {
        let mut i: usize = 0;
        while i < self.entries.len()
            invariant
                i <= self.entries@.len(),
                forall|k: int| 0 <= k < i ==> (#[trigger] self.entries@[k].0)@ != name@,
            decreases self.entries@.len() - i,
        {
            if str_eq(self.entries[i].0.as_str(), name) {
                return Some(&self.entries[i].1);
            }
            i = i + 1;
        }
        None
    }
}

/// The context an expression is evaluated against: the node it applies to,
/// the function library, and, inside a predicate, the 1-based position of the
/// node under test and the size of the set being filtered (both 1 at the top
/// level).
pub struct EvaluationContext<'a, F> {
    pub node: Node,
    pub functions: &'a Functions<F>,
    pub position: usize,
    pub size: usize,
}

impl<'a, F: XPathFunction> EvaluationContext<'a, F> {
    pub fn new(node: &Node, functions: &'a Functions<F>) -> (r: EvaluationContext<'a, F>)
        ensures
            r.node == *node,
            r.functions == functions,
            r.position == 1,
            r.size == 1,
    {
        EvaluationContext { node: *node, functions, position: 1, size: 1 }
    }

    /// The child context for testing one node of a set inside a predicate.
    pub fn for_predicate(&self, node: Node, position: usize, size: usize) -> (r: EvaluationContext<
        'a,
        F,
    >)
        ensures
            r.node == node,
            r.functions == self.functions,
            r.position == position,
            r.size == size,
    {
        EvaluationContext { node, functions: self.functions, position, size }
    }
}

} // verus!
