use xpath::context::{EvaluationContext, Functions, XPathFunction};
use xpath::expression::{EvaluationError, Expression, MathOp, RelationalOp};
use xpath::value::{Node, Nodeset, Value};

struct StubFunction {
    value: Value,
}

impl XPathFunction for StubFunction {
    fn evaluate(&self, _: &EvaluationContext<'_, Self>, _: Vec<Value>) -> Value {
        self.value.clone()
    }
}

fn literal(value: Value) -> Box<Expression> {
    Box::new(Expression::Literal(value))
}

#[test]
fn expression_and_returns_logical_and() {
    let left = literal(Value::Boolean(true));
    let right = literal(Value::Boolean(true));

    let node = Node::new();
    let funs: Functions<StubFunction> = Functions::new();
    let context = EvaluationContext::new(&node, &funs);
    let expr = Expression::And(left, right);

    let res = expr.evaluate(&context);

    assert_eq!(res.unwrap(), Value::Boolean(true));
}

#[test]
fn expression_and_short_circuits_when_left_argument_is_false() {
    let left = literal(Value::Boolean(false));
    // Evaluating this operand would fail: the library knows no function.
    let right = Box::new(Expression::Function { name: "explode".to_string(), arguments: vec![] });

    let node = Node::new();
    let funs: Functions<StubFunction> = Functions::new();
    let context = EvaluationContext::new(&node, &funs);
    let expr = Expression::And(left, right);

    let res = expr.evaluate(&context);

    assert_eq!(res.unwrap(), Value::Boolean(false));
}

#[test]
fn expression_equal_compares_as_boolean_if_one_argument_is_a_boolean() {
    let actual_bool = literal(Value::Boolean(false));
    let truthy_str = literal(Value::String("hello".to_string()));

    let node = Node::new();
    let funs: Functions<StubFunction> = Functions::new();
    let context = EvaluationContext::new(&node, &funs);
    let expr = Expression::Equal(actual_bool, truthy_str);

    let res = expr.evaluate(&context);

    assert_eq!(res.unwrap(), Value::Boolean(false));
}

#[test]
fn expression_equal_compares_as_number_if_one_argument_is_a_number() {
    let actual_number = literal(Value::Number((-42.0f64).to_bits()));
    let number_str = literal(Value::String("-42.0".to_string()));

    let node = Node::new();
    let funs: Functions<StubFunction> = Functions::new();
    let context = EvaluationContext::new(&node, &funs);
    let expr = Expression::Equal(number_str, actual_number);

    let res = expr.evaluate(&context);
    assert_eq!(res.unwrap(), Value::Boolean(true));
}

#[test]
fn expression_equal_compares_as_string_otherwise() {
    let a_str = literal(Value::String("hello".to_string()));
    let b_str = literal(Value::String("World".to_string()));

    let node = Node::new();
    let funs: Functions<StubFunction> = Functions::new();
    let context = EvaluationContext::new(&node, &funs);
    let expr = Expression::Equal(a_str, b_str);

    let res = expr.evaluate(&context);
    assert_eq!(res.unwrap(), Value::Boolean(false));
}

#[test]
fn expression_not_equal_negates_equality() {
    let a_str = literal(Value::Boolean(true));
    let b_str = literal(Value::Boolean(false));

    let node = Node::new();
    let funs: Functions<StubFunction> = Functions::new();
    let context = EvaluationContext::new(&node, &funs);
    let expr = Expression::NotEqual(a_str, b_str);

    let res = expr.evaluate(&context);
    assert_eq!(res.unwrap(), Value::Boolean(true));
}

#[test]
fn expression_function_evaluates_input_arguments() {
    let arg_expr = Expression::Literal(Value::Boolean(true));
    let fun = StubFunction { value: Value::String("the function ran".to_string()) };

    let node = Node::new();
    let mut funs: Functions<StubFunction> = Functions::new();
    funs.insert("test-fn".to_string(), fun);
    let context = EvaluationContext::new(&node, &funs);
    let expr = Expression::Function { name: "test-fn".to_string(), arguments: vec![arg_expr] };

    let res = expr.evaluate(&context);
    assert_eq!(res.unwrap(), Value::String("the function ran".to_string()));
}

#[test]
fn expression_function_unknown_function_is_reported_as_an_error() {
    let node = Node::new();
    let funs: Functions<StubFunction> = Functions::new();
    let context = EvaluationContext::new(&node, &funs);
    let expr = Expression::Function { name: "unknown-fn".to_string(), arguments: vec![] };

    let res = expr.evaluate(&context);
    match res {
        Err(EvaluationError::UnknownFunction(name)) => assert_eq!(name.as_str(), "unknown-fn"),
        other => panic!("expected an unknown-function error, got {:?}", other),
    }
}

#[test]
fn expression_math_does_basic_math() {
    let left = literal(Value::Number(10.0f64.to_bits()));
    let right = literal(Value::Number(5.0f64.to_bits()));

    let node = Node::new();
    let funs: Functions<StubFunction> = Functions::new();
    let context = EvaluationContext::new(&node, &funs);
    let expr = Expression::Math(MathOp::Multiplication, left, right);

    let res = expr.evaluate(&context);
    assert_eq!(res.unwrap(), Value::Number(50.0f64.to_bits()));
}

#[test]
fn expression_step_numeric_predicate_selects_that_node() {
    let input_node_1 = Node::new_with_parent(1);
    let input_node_2 = Node::new_with_parent(2);
    let mut input_nodeset = Nodeset::new();
    input_nodeset.add(&input_node_1);
    input_nodeset.add(&input_node_2);

    let selected_nodes = literal(Value::Nodes(input_nodeset));
    let predicate = literal(Value::Number(1.0f64.to_bits()));

    let node = Node::new();
    let funs: Functions<StubFunction> = Functions::new();
    let context = EvaluationContext::new(&node, &funs);
    let expr = Expression::Predicate { node_selector: selected_nodes, predicate };

    let res = expr.evaluate(&context);

    match res.unwrap() {
        Value::Nodes(ns) => {
            let mut e = Nodeset::new();
            e.add(&input_node_1);

            assert_eq!(ns, e);
        },
        _ => panic!("Not a nodeset"),
    }
}

#[test]
fn expression_step_false_predicate_selects_no_nodes() {
    let input_node_1 = Node::new_with_parent(1);
    let input_node_2 = Node::new_with_parent(2);
    let mut input_nodeset = Nodeset::new();
    input_nodeset.add(&input_node_1);
    input_nodeset.add(&input_node_2);

    let selected_nodes = literal(Value::Nodes(input_nodeset));
    let predicate = literal(Value::Boolean(false));

    let node = Node::new();
    let funs: Functions<StubFunction> = Functions::new();
    let context = EvaluationContext::new(&node, &funs);
    let expr = Expression::Predicate { node_selector: selected_nodes, predicate };

    let res = expr.evaluate(&context);

    match res.unwrap() {
        Value::Nodes(ns) => {
            let e = Nodeset::new();

            assert_eq!(ns, e);
        },
        _ => panic!("Not a nodeset"),
    }
}

#[test]
fn expression_relational_does_basic_comparisons() {
    let left = literal(Value::Number(10.0f64.to_bits()));
    let right = literal(Value::Number(5.0f64.to_bits()));

    let node = Node::new();
    let funs: Functions<StubFunction> = Functions::new();
    let context = EvaluationContext::new(&node, &funs);
    let expr = Expression::Relational(RelationalOp::LessThan, left, right);

    let res = expr.evaluate(&context);
    assert_eq!(res.unwrap(), Value::Boolean(false));
}

#[test]
fn boolean_coercion_takes_precedence_over_numeric_coercion() {
    // Boolean(true) against Number(0.0): compared as booleans, not numbers.
    let node = Node::new();
    let funs: Functions<StubFunction> = Functions::new();
    let context = EvaluationContext::new(&node, &funs);
    let expr = Expression::Equal(
        literal(Value::Boolean(true)),
        literal(Value::Number(0.0f64.to_bits())),
    );

    assert_eq!(expr.evaluate(&context).unwrap(), Value::Boolean(false));
}

#[test]
fn division_by_zero_yields_infinity_not_an_error() {
    let node = Node::new();
    let funs: Functions<StubFunction> = Functions::new();
    let context = EvaluationContext::new(&node, &funs);
    let expr = Expression::Math(
        MathOp::Division,
        literal(Value::Number(10.0f64.to_bits())),
        literal(Value::Number(0.0f64.to_bits())),
    );

    assert_eq!(expr.evaluate(&context).unwrap(), Value::Number(f64::INFINITY.to_bits()));
}

#[test]
fn zero_divided_by_zero_yields_nan() {
    let node = Node::new();
    let funs: Functions<StubFunction> = Functions::new();
    let context = EvaluationContext::new(&node, &funs);
    let expr = Expression::Math(
        MathOp::Division,
        literal(Value::Number(0.0f64.to_bits())),
        literal(Value::Number(0.0f64.to_bits())),
    );

    match expr.evaluate(&context).unwrap() {
        Value::Number(n) => {
            assert!(xpath::num::num_is_nan(n));
            assert!(f64::from_bits(n).is_nan());
        },
        other => panic!("expected a number, got {:?}", other),
    }
}

#[test]
fn arithmetic_covers_the_other_operators() {
    let node = Node::new();
    let funs: Functions<StubFunction> = Functions::new();
    let context = EvaluationContext::new(&node, &funs);

    let cases: Vec<(MathOp, f64, f64, f64)> = vec![
        (MathOp::Addition, 10.0, 5.0, 15.0),
        (MathOp::Subtraction, 10.0, 5.0, 5.0),
        (MathOp::Division, 10.0, 2.0, 5.0),
        (MathOp::Remainder, 10.0, 3.0, 1.0),
    ];
    for (op, a, b, expected) in cases {
        let expr = Expression::Math(
            op,
            literal(Value::Number(a.to_bits())),
            literal(Value::Number(b.to_bits())),
        );
        assert_eq!(expr.evaluate(&context).unwrap(), Value::Number(expected.to_bits()));
    }
}

#[test]
fn relational_comparison_involving_nan_is_false() {
    let node = Node::new();
    let funs: Functions<StubFunction> = Functions::new();
    let context = EvaluationContext::new(&node, &funs);
    // The string does not parse as a number, so it coerces to NaN.
    let expr = Expression::Relational(
        RelationalOp::LessThanOrEqual,
        literal(Value::String("pear".to_string())),
        literal(Value::Number(5.0f64.to_bits())),
    );

    assert_eq!(expr.evaluate(&context).unwrap(), Value::Boolean(false));
}

#[test]
fn predicate_over_non_nodeset_is_reported_as_an_error() {
    let node = Node::new();
    let funs: Functions<StubFunction> = Functions::new();
    let context = EvaluationContext::new(&node, &funs);
    let expr = Expression::Predicate {
        node_selector: literal(Value::String("not nodes".to_string())),
        predicate: literal(Value::Boolean(true)),
    };

    match expr.evaluate(&context) {
        Err(EvaluationError::NotANodeset) => (),
        other => panic!("expected a nodeset error, got {:?}", other),
    }
}

#[test]
fn predicate_over_empty_nodeset_is_empty_and_never_evaluates_the_predicate() {
    let node = Node::new();
    let funs: Functions<StubFunction> = Functions::new();
    let context = EvaluationContext::new(&node, &funs);
    // A failing predicate: with an empty input set it is never evaluated.
    let expr = Expression::Predicate {
        node_selector: literal(Value::Nodes(Nodeset::new())),
        predicate: Box::new(
            Expression::Function { name: "explode".to_string(), arguments: vec![] },
        ),
    };

    match expr.evaluate(&context).unwrap() {
        Value::Nodes(ns) => assert_eq!(ns.size(), 0),
        other => panic!("expected a nodeset, got {:?}", other),
    }
}

#[test]
fn relational_covers_the_other_operators() {
    let node = Node::new();
    let funs: Functions<StubFunction> = Functions::new();
    let context = EvaluationContext::new(&node, &funs);

    let cases: Vec<(RelationalOp, f64, f64, bool)> = vec![
        (RelationalOp::LessThan, 5.0, 10.0, true),
        (RelationalOp::LessThanOrEqual, 5.0, 5.0, true),
        (RelationalOp::GreaterThan, 10.0, 5.0, true),
        (RelationalOp::GreaterThan, 5.0, 10.0, false),
        (RelationalOp::GreaterThanOrEqual, 5.0, 10.0, false),
    ];
    for (op, a, b, expected) in cases {
        let expr = Expression::Relational(
            op,
            literal(Value::Number(a.to_bits())),
            literal(Value::Number(b.to_bits())),
        );
        assert_eq!(expr.evaluate(&context).unwrap(), Value::Boolean(expected));
    }
}

#[test]
fn numeric_equality_follows_ieee_rules() {
    let node = Node::new();
    let funs: Functions<StubFunction> = Functions::new();
    let context = EvaluationContext::new(&node, &funs);

    // NaN is unequal to everything, itself included.
    let nan = Expression::Equal(
        literal(Value::Number(f64::NAN.to_bits())),
        literal(Value::Number(f64::NAN.to_bits())),
    );
    assert_eq!(nan.evaluate(&context).unwrap(), Value::Boolean(false));

    // The two zeros are equal.
    let zeros = Expression::Equal(
        literal(Value::Number((-0.0f64).to_bits())),
        literal(Value::Number(0.0f64.to_bits())),
    );
    assert_eq!(zeros.evaluate(&context).unwrap(), Value::Boolean(true));
}

#[test]
fn nodeset_membership_is_duplicate_free_and_equality_ignores_order() {
    let n1 = Node::new_with_parent(1);
    let n2 = Node::new_with_parent(2);

    let mut a = Nodeset::new();
    a.add(&n1);
    a.add(&n2);
    a.add(&n1);
    assert_eq!(a.size(), 2);

    let mut b = Nodeset::new();
    b.add(&n2);
    b.add(&n1);
    assert_eq!(a, b);
}
