//! The expression tree and its evaluator: literals, short-circuit
//! conjunction, the equality ladder, relational and arithmetic operators,
//! function calls, and position-sensitive predicate filtering.

use crate::context::{EvaluationContext, XPathFunction};
use crate::num;
use crate::value::{
    bool_of, boolean_value, duplicate_value, equal_values, num_of, number_value, value_equal, Node,
    Nodeset, Value, ValueModel,
};
use vstd::prelude::*;

verus! {

/// A relational operator over numbers.
#[derive(Clone, Copy, Debug, PartialEq, Eq, Structural)]
pub enum RelationalOp {
    LessThan,
    LessThanOrEqual,
    GreaterThan,
    GreaterThanOrEqual,
}

/// An arithmetic operator over numbers.
#[derive(Clone, Copy, Debug, PartialEq, Eq, Structural)]
pub enum MathOp {
    Addition,
    Subtraction,
    Multiplication,
    Division,
    Remainder,
}

/// An expression tree.  Each variant owns its children; a tree is built once
/// and may be evaluated any number of times.
pub enum Expression {
    Literal(Value),
    And(Box<Expression>, Box<Expression>),
    Equal(Box<Expression>, Box<Expression>),
    NotEqual(Box<Expression>, Box<Expression>),
    Relational(RelationalOp, Box<Expression>, Box<Expression>),
    Math(MathOp, Box<Expression>, Box<Expression>),
    Function { name: String, arguments: Vec<Expression> },
    Predicate { node_selector: Box<Expression>, predicate: Box<Expression> },
}

/// Why an evaluation failed.  Failures are reported as ordinary values, so a
/// caller can recover; nothing in the evaluator aborts.
#[derive(Clone, Debug)]
pub enum EvaluationError {
    /// A function call named a function the library does not know.
    UnknownFunction(String),
    /// A predicate was applied to a value that is not a node set.
    NotANodeset,
}

/// The mathematical content of an `EvaluationError`.
pub enum ErrorModel {
    UnknownFunction(Seq<char>),
    NotANodeset,
}

impl View for EvaluationError {
    type V = ErrorModel;

    open spec fn view(&self) -> ErrorModel {
        match *self {
            EvaluationError::UnknownFunction(ref s) => ErrorModel::UnknownFunction(s@),
            EvaluationError::NotANodeset => ErrorModel::NotANodeset,
        }
    }
}

/// What a relational operator yields on two numbers; either side NaN makes
/// every comparison false.
pub open spec fn relational_result(op: RelationalOp, a: u64, b: u64) -> bool {
    match op {
        RelationalOp::LessThan => num::lt_bits(a, b),
        RelationalOp::LessThanOrEqual => num::le_bits(a, b),
        RelationalOp::GreaterThan => num::lt_bits(b, a),
        RelationalOp::GreaterThanOrEqual => num::le_bits(b, a),
    }
}

/// What an arithmetic operator yields on two numbers.
pub open spec fn math_result(op: MathOp, a: u64, b: u64) -> u64 {
    match op {
        MathOp::Addition => num::spec_add(a, b),
        MathOp::Subtraction => num::spec_sub(a, b),
        MathOp::Multiplication => num::spec_mul(a, b),
        MathOp::Division => num::spec_div(a, b),
        MathOp::Remainder => num::spec_rem(a, b),
    }
}

/// No node occurs twice.
pub open spec fn distinct_nodes(s: Seq<Node>) -> bool {
    forall|i: int, j: int| 0 <= i < j < s.len() ==> s[i] != s[j]
}

/// Whether a predicate result keeps the node at the 1-based position `pos`:
/// a number keeps exactly the node whose position it equals, and every other
/// kind keeps by boolean coercion.
pub open spec fn keep_node(v: ValueModel, pos: int) -> bool {
    match v {
        ValueModel::Number(n) => num::integral_value(n) == Some(pos),
        _ => bool_of(v),
    }
}

/// The value an expression is owed to evaluate to, against a library that
/// knows the names in `known`.  `None` marks an outcome that passes through a
/// library function and is that function's to choose; everything else is
/// pinned exactly.
pub open spec fn spec_eval(e: Expression, known: Set<Seq<char>>) -> Option<
    Result<ValueModel, ErrorModel>,
>
    decreases e, 1int, 0int,
{
    match e {
        Expression::Literal(v) => Some(Ok(v@)),
        Expression::And(l, r) => match spec_eval(*l, known) {
            None => None,
            Some(Err(er)) => Some(Err(er)),
            Some(Ok(lv)) => if !bool_of(lv) {
                Some(Ok(ValueModel::Boolean(false)))
            } else {
                match spec_eval(*r, known) {
                    None => None,
                    Some(Err(er)) => Some(Err(er)),
                    Some(Ok(rv)) => Some(Ok(ValueModel::Boolean(bool_of(rv)))),
                }
            },
        },
        Expression::Equal(l, r) => match (spec_eval(*l, known), spec_eval(*r, known)) {
            (Some(Ok(lv)), Some(Ok(rv))) => Some(Ok(ValueModel::Boolean(equal_values(lv, rv)))),
            (Some(Err(er)), _) => Some(Err(er)),
            (Some(Ok(_)), Some(Err(er))) => Some(Err(er)),
            _ => None,
        },
        Expression::NotEqual(l, r) => match (spec_eval(*l, known), spec_eval(*r, known)) {
            (Some(Ok(lv)), Some(Ok(rv))) => Some(Ok(ValueModel::Boolean(!equal_values(lv, rv)))),
            (Some(Err(er)), _) => Some(Err(er)),
            (Some(Ok(_)), Some(Err(er))) => Some(Err(er)),
            _ => None,
        },
        Expression::Relational(op, l, r) => match (spec_eval(*l, known), spec_eval(*r, known)) {
            (Some(Ok(lv)), Some(Ok(rv))) => Some(
                Ok(ValueModel::Boolean(relational_result(op, num_of(lv), num_of(rv)))),
            ),
            (Some(Err(er)), _) => Some(Err(er)),
            (Some(Ok(_)), Some(Err(er))) => Some(Err(er)),
            _ => None,
        },
        Expression::Math(op, l, r) => match (spec_eval(*l, known), spec_eval(*r, known)) {
            (Some(Ok(lv)), Some(Ok(rv))) => Some(
                Ok(ValueModel::Number(math_result(op, num_of(lv), num_of(rv)))),
            ),
            (Some(Err(er)), _) => Some(Err(er)),
            (Some(Ok(_)), Some(Err(er))) => Some(Err(er)),
            _ => None,
        },
        Expression::Function { name, arguments } => if known.contains(name@) {
            None
        } else {
            Some(Err(ErrorModel::UnknownFunction(name@)))
        },
        Expression::Predicate { node_selector, predicate } => match spec_eval(
            *node_selector,
            known,
        ) {
            None => None,
            Some(Err(er)) => Some(Err(er)),
            Some(Ok(sv)) => match sv {
                ValueModel::Nodes(nodes) => if distinct_nodes(nodes) {
                    match spec_filter(*predicate, nodes, 0, known) {
                        None => None,
                        Some(Err(er)) => Some(Err(er)),
                        Some(Ok(kept)) => Some(Ok(ValueModel::Nodes(kept))),
                    }
                } else {
                    None
                },
                _ => Some(Err(ErrorModel::NotANodeset)),
            },
        },
    }
}

/// The nodes a predicate keeps from rank `i` on, each tested at its 1-based
/// position, in order.
pub open spec fn spec_filter(
    pred: Expression,
    nodes: Seq<Node>,
    i: int,
    known: Set<Seq<char>>,
) -> Option<Result<Seq<Node>, ErrorModel>>
    decreases pred, 2int, nodes.len() - i,
{
    if i < 0 || i >= nodes.len() {
        Some(Ok(Seq::<Node>::empty()))
    } else {
        match spec_eval(pred, known) {
            None => None,
            Some(Err(er)) => Some(Err(er)),
            Some(Ok(v)) => match spec_filter(pred, nodes, i + 1, known) {
                None => None,
                Some(Err(er)) => Some(Err(er)),
                Some(Ok(rest)) => Some(
                    Ok(
                        if keep_node(v, i + 1) {
                            seq![nodes[i]] + rest
                        } else {
                            rest
                        },
                    ),
                ),
            },
        }
    }
}

/// The nodes kept from rank `i` on when the predicate constantly evaluates
/// to `v`.
pub open spec fn kept_from(v: ValueModel, nodes: Seq<Node>, i: int) -> Seq<Node>
    decreases nodes.len() - i,
{
    if i < 0 || i >= nodes.len() {
        Seq::<Node>::empty()
    } else {
        if keep_node(v, i + 1) {
            seq![nodes[i]] + kept_from(v, nodes, i + 1)
        } else {
            kept_from(v, nodes, i + 1)
        }
    }
}

/// The nodes kept among the first `i` ranks when the predicate constantly
/// evaluates to `v`.
pub open spec fn kept_prefix(v: ValueModel, nodes: Seq<Node>, i: int) -> Seq<Node>
    decreases i,
{
    if i <= 0 || i > nodes.len() {
        Seq::<Node>::empty()
    } else {
        kept_prefix(v, nodes, i - 1) + (if keep_node(v, i) {
            seq![nodes[i - 1]]
        } else {
            Seq::<Node>::empty()
        })
    }
}

/// When the predicate's own outcome is pinned to `v`, the filter is pinned
/// to the constant-predicate selection.
pub proof fn lemma_filter_constant(
    pred: Expression,
    nodes: Seq<Node>,
    i: int,
    known: Set<Seq<char>>,
    v: ValueModel,
)
    requires
        spec_eval(pred, known) == Some(Result::<ValueModel, ErrorModel>::Ok(v)),
    ensures
        spec_filter(pred, nodes, i, known) == Some(
            Result::<Seq<Node>, ErrorModel>::Ok(kept_from(v, nodes, i)),
        ),
    decreases nodes.len() - i,
{
    if 0 <= i < nodes.len() {
        lemma_filter_constant(pred, nodes, i + 1, known, v);
    }
}

/// Splitting the constant-predicate selection at any rank.
pub proof fn lemma_kept_split(v: ValueModel, nodes: Seq<Node>, i: int)
    requires
        0 <= i <= nodes.len(),
    ensures
        kept_from(v, nodes, 0) == kept_prefix(v, nodes, i) + kept_from(v, nodes, i),
    decreases i,
{
    if i == 0 {
        assert(kept_from(v, nodes, 0) =~= kept_prefix(v, nodes, 0) + kept_from(v, nodes, 0));
    } else {
        lemma_kept_split(v, nodes, i - 1);
        assert(kept_prefix(v, nodes, i - 1) + kept_from(v, nodes, i - 1) =~= kept_prefix(
            v,
            nodes,
            i,
        ) + kept_from(v, nodes, i));
    }
}

/// Every kept node comes from the filtered prefix.
pub proof fn lemma_kept_prefix_members(v: ValueModel, nodes: Seq<Node>, i: int, n: Node)
    requires
        kept_prefix(v, nodes, i).contains(n),
    ensures
        exists|j: int| 0 <= j < i && j < nodes.len() && nodes[j] == n,
    decreases i,
{
    if 0 < i <= nodes.len() {
        if kept_prefix(v, nodes, i - 1).contains(n) {
            lemma_kept_prefix_members(v, nodes, i - 1, n);
        } else {
            assert(nodes[i - 1] == n);
        }
    }
}

impl Expression {
    /// Evaluates the expression against a context.  Wherever `spec_eval`
    /// pins the outcome, this returns exactly that value or error; where an
    /// outcome passes through a library function, the library decides it.
    #[verifier::loop_isolation(false)]
    pub fn evaluate<F: XPathFunction>(&self, context: &EvaluationContext<'_, F>) -> (r: Result<
        Value,
        EvaluationError,
    >)
        ensures
            match spec_eval(*self, context.functions.names()) {
                Some(Result::Ok(m)) => r matches Ok(v) && v@ == m,
                Some(Result::Err(em)) => r matches Err(e) && e@ == em,
                None => true,
            },
        decreases *self,
    {
        let ghost known = context.functions.names();
        match self {
            Expression::Literal(v) => Ok(duplicate_value(v)),
            Expression::And(l, r) => {
                let lv = match l.evaluate(context) {
                    Ok(v) => v,
                    Err(e) => return Err(e),
                };
                if !boolean_value(&lv) {
                    Ok(Value::Boolean(false))
                } else {
                    let rv = match r.evaluate(context) {
                        Ok(v) => v,
                        Err(e) => return Err(e),
                    };
                    Ok(Value::Boolean(boolean_value(&rv)))
                }
            },
            Expression::Equal(l, r) => {
                let lv = match l.evaluate(context) {
                    Ok(v) => v,
                    Err(e) => return Err(e),
                };
                let rv = match r.evaluate(context) {
                    Ok(v) => v,
                    Err(e) => return Err(e),
                };
                Ok(Value::Boolean(value_equal(&lv, &rv)))
            },
            Expression::NotEqual(l, r) => {
                let lv = match l.evaluate(context) {
                    Ok(v) => v,
                    Err(e) => return Err(e),
                };
                let rv = match r.evaluate(context) {
                    Ok(v) => v,
                    Err(e) => return Err(e),
                };
                Ok(Value::Boolean(!value_equal(&lv, &rv)))
            },
            Expression::Relational(op, l, r) => {
                let lv = match l.evaluate(context) {
                    Ok(v) => v,
                    Err(e) => return Err(e),
                };
                let rv = match r.evaluate(context) {
                    Ok(v) => v,
                    Err(e) => return Err(e),
                };
                let a = number_value(&lv);
                let b = number_value(&rv);
                let c = match op {
                    RelationalOp::LessThan => num::num_lt(a, b),
                    RelationalOp::LessThanOrEqual => num::num_le(a, b),
                    RelationalOp::GreaterThan => num::num_lt(b, a),
                    RelationalOp::GreaterThanOrEqual => num::num_le(b, a),
                };
                Ok(Value::Boolean(c))
            },
            Expression::Math(op, l, r) => {
                let lv = match l.evaluate(context) {
                    Ok(v) => v,
                    Err(e) => return Err(e),
                };
                let rv = match r.evaluate(context) {
                    Ok(v) => v,
                    Err(e) => return Err(e),
                };
                let a = number_value(&lv);
                let b = number_value(&rv);
                let c = match op {
                    MathOp::Addition => num::num_add(a, b),
                    MathOp::Subtraction => num::num_sub(a, b),
                    MathOp::Multiplication => num::num_mul(a, b),
                    MathOp::Division => num::num_div(a, b),
                    MathOp::Remainder => num::num_rem(a, b),
                };
                Ok(Value::Number(c))
            },
            Expression::Function { name, arguments } => {
                match context.functions.find(name.as_str()) {
                    None => Err(EvaluationError::UnknownFunction(name.clone())),
                    Some(f) => {
                        let mut args: Vec<Value> = Vec::new();
                        let mut i: usize = 0;
                        while i < arguments.len()
                            invariant
                                i <= arguments@.len(),
                                known == context.functions.names(),
                                spec_eval(*self, known) is None,
                            decreases arguments@.len() - i,
                        {
                            proof {
                                assert(decreases_to!(*self => arguments@[i as int])) by {
                                    assert((*self)->Function_arguments == *arguments);
                                    assert(decreases_to!(*self => (*self)->Function_arguments));
                                    assert(decreases_to!(*arguments => arguments@));
                                    assert(decreases_to!(arguments@ => arguments@[i as int]));
                                }
                            }
                            let av = match arguments[i].evaluate(context) {
                                Ok(v) => v,
                                Err(e) => return Err(e),
                            };
                            args.push(av);
                            i = i + 1;
                        }
                        Ok(f.evaluate(context, args))
                    },
                }
            },
            Expression::Predicate { node_selector, predicate } => {
                let sv = match node_selector.evaluate(context) {
                    Ok(v) => v,
                    Err(e) => return Err(e),
                };
                match sv {
                    Value::Nodes(ns) => {
                        let ghost pe = spec_eval(**predicate, known);
                        let n = ns.size();
                        let mut kept = Nodeset::new();
                        let mut i: usize = 0;
                        while i < n
                            invariant
                                i <= n,
                                n == ns@.len(),
                                kept.wf(),
                                known == context.functions.names(),
                                pe == spec_eval(**predicate, known),
                                i == 0 ==> kept@ == Seq::<Node>::empty(),
                                i > 0 ==> !(pe matches Some(Result::Err(_))),
                                (distinct_nodes(ns@) && pe matches Some(Result::Ok(_))) ==> kept@
                                    == kept_prefix(pe->Some_0->Ok_0, ns@, i as int),
                                spec_eval(*self, known) is Some ==> (spec_eval(
                                    **node_selector,
                                    known,
                                ) == Some(
                                    Result::<ValueModel, ErrorModel>::Ok(ValueModel::Nodes(ns@)),
                                ) && distinct_nodes(ns@)),
                            decreases n - i,
                        {
                            let node = ns.get(i);
                            let child = context.for_predicate(node, i + 1, n);
                            let pv = match predicate.evaluate(&child) {
                                Ok(v) => v,
                                Err(e) => {
                                    proof {
                                        if pe matches Some(Result::Err(_)) {
                                            assert(spec_filter(**predicate, ns@, 0, known) == Some(
                                                Result::<Seq<Node>, ErrorModel>::Err(
                                                    pe->Some_0->Err_0,
                                                ),
                                            ));
                                        }
                                    }
                                    return Err(e);
                                },
                            };
                            let keep = match &pv {
                                Value::Number(b) => match num::num_to_integral(*b) {
                                    Some(m) => m >= 1 && (m as u64) == (i + 1) as u64,
                                    None => false,
                                },
                                _ => boolean_value(&pv),
                            };
                            proof {
                                if pe matches Some(Result::Ok(_)) {
                                    let v = pe->Some_0->Ok_0;
                                    assert(pv@ == v);
                                    assert(keep == keep_node(v, (i + 1) as int));
                                    if distinct_nodes(ns@) && keep {
                                        if kept@.contains(node) {
                                            lemma_kept_prefix_members(v, ns@, i as int, node);
                                        }
                                        assert(!kept@.contains(node));
                                    }
                                }
                            }
                            if keep {
                                kept.add(&node);
                            }
                            i = i + 1;
                        }
                        proof {
                            if n == 0 {
                                assert(kept@ =~= Seq::<Node>::empty());
                                assert(spec_filter(**predicate, ns@, 0, known) == Some(
                                    Result::<Seq<Node>, ErrorModel>::Ok(Seq::<Node>::empty()),
                                ));
                            }
                            if distinct_nodes(ns@) && pe matches Some(Result::Ok(_)) {
                                let v = pe->Some_0->Ok_0;
                                lemma_filter_constant(**predicate, ns@, 0, known, v);
                                lemma_kept_split(v, ns@, n as int);
                                assert(kept@ =~= kept_from(v, ns@, 0));
                            }
                        }
                        Ok(Value::Nodes(kept))
                    },
                    _ => Err(EvaluationError::NotANodeset),
                }
            },
        }
    }
}

/// Short-circuit: a conjunction whose left operand is the false literal is
/// pinned to false, whatever expression stands on the right — including one
/// whose own evaluation would fail.
pub proof fn lemma_and_short_circuit(e: Expression, known: Set<Seq<char>>)
    requires
        e matches Expression::And(l, r) && (*l matches Expression::Literal(v) && v@
            == ValueModel::Boolean(false)),
    ensures
        spec_eval(e, known) == Some(Result::<ValueModel, ErrorModel>::Ok(ValueModel::Boolean(false))),
{
    reveal_with_fuel(spec_eval, 2);
}

/// `NotEqual` is the exact negation of `Equal`: on the same operands the two
/// yield opposite booleans, fail with the same error, and are undetermined
/// only together.
pub proof fn lemma_not_equal_negates_equal(eq: Expression, ne: Expression, known: Set<Seq<char>>)
    requires
        eq matches Expression::Equal(l1, r1) && (ne matches Expression::NotEqual(l2, r2) && l1 == l2
            && r1 == r2),
    ensures
        match (spec_eval(eq, known), spec_eval(ne, known)) {
            (Some(Result::Ok(a)), Some(Result::Ok(b))) => a matches ValueModel::Boolean(x) && (
            b matches ValueModel::Boolean(y) && y == !x),
            (Some(Result::Err(e1)), Some(Result::Err(e2))) => e1 == e2,
            (None, None) => true,
            _ => false,
        },
{
}

/// A numeric predicate selects by position, not by truthiness: on any node
/// sequence a predicate pinned to the number `p`, with `1 <= p <= len`, keeps
/// exactly the node of rank `p`.
pub proof fn lemma_numeric_predicate_selects_position(v: ValueModel, nodes: Seq<Node>, p: int)
    requires
        v matches ValueModel::Number(b) && num::integral_value(b) == Some(p),
        1 <= p <= nodes.len(),
    ensures
        kept_from(v, nodes, 0) == seq![nodes[p - 1]],
{
    lemma_numeric_from(v, nodes, p, 0);
}

proof fn lemma_numeric_from(v: ValueModel, nodes: Seq<Node>, p: int, j: int)
    requires
        v matches ValueModel::Number(b) && num::integral_value(b) == Some(p),
        1 <= p <= nodes.len(),
        0 <= j <= nodes.len(),
    ensures
        kept_from(v, nodes, j) == if j <= p - 1 {
            seq![nodes[p - 1]]
        } else {
            Seq::<Node>::empty()
        },
    decreases nodes.len() - j,
{
    if j < nodes.len() {
        lemma_numeric_from(v, nodes, p, j + 1);
        if j == p - 1 {
            assert(kept_from(v, nodes, j) =~= seq![nodes[p - 1]]);
        }
    }
}

/// A predicate pinned to a non-numeric value that coerces to false keeps no
/// node at all, whatever the input set.
pub proof fn lemma_false_predicate_selects_nothing(v: ValueModel, nodes: Seq<Node>)
    requires
        !(v is Number),
        !bool_of(v),
    ensures
        kept_from(v, nodes, 0) == Seq::<Node>::empty(),
{
    lemma_false_from(v, nodes, 0);
}

proof fn lemma_false_from(v: ValueModel, nodes: Seq<Node>, j: int)
    requires
        !(v is Number),
        !bool_of(v),
        0 <= j <= nodes.len(),
    ensures
        kept_from(v, nodes, j) == Seq::<Node>::empty(),
    decreases nodes.len() - j,
{
    if j < nodes.len() {
        lemma_false_from(v, nodes, j + 1);
    }
}

} // verus!
