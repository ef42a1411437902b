use std::rc::Rc;

use rinha_eval::ast::{BinOp, FuncNode, Term, TermList};
use rinha_eval::errors::{EvalError, Operation, ValueKind};
use rinha_eval::eval::{evaluate, startInterpret, Interpreter};
use rinha_eval::memo::{make_key, key_eq, ArgKey, CallKey, MemoTable};
use rinha_eval::ops::{
    add_two_primitives, and_two_primitives, div_two_primitives, eq_two_primitives,
    gt_two_primitives, gte_two_primitives, lt_two_primitives, lte_two_primitives,
    mul_two_primitives, neq_two_primitives, or_two_primitives, rem_two_primitives,
    sub_two_primitives,
};
use rinha_eval::render::{bool_to_string, int_to_string, render_value};
use rinha_eval::value::{Environment, Primitive};

fn lit_int(v: i32) -> Term {
    Term::Int(v)
}

fn text(s: &str) -> Term {
    Term::Str(s.to_string())
}

fn boolean(b: bool) -> Term {
    Term::Bool(b)
}

fn var(name: &str) -> Term {
    Term::Var(name.to_string())
}

fn bin(op: BinOp, lhs: Term, rhs: Term) -> Term {
    Term::Binary { op, lhs: Box::new(lhs), rhs: Box::new(rhs) }
}

fn let_in(name: &str, value: Term, next: Term) -> Term {
    Term::Let { name: name.to_string(), value: Box::new(value), next: Box::new(next) }
}

fn func(params: &[&str], body: Term) -> Term {
    Term::Function(Rc::new(FuncNode {
        parameters: params.iter().map(|p| p.to_string()).collect(),
        value: body,
    }))
}

fn args_list(args: Vec<Term>) -> TermList {
    let mut list = TermList::Nil;
    for t in args.into_iter().rev() {
        list = TermList::Cons(t, Box::new(list));
    }
    list
}

fn call(callee: Term, args: Vec<Term>) -> Term {
    Term::Call { callee: Box::new(callee), arguments: Box::new(args_list(args)) }
}

fn cond(c: Term, t: Term, e: Term) -> Term {
    Term::If { condition: Box::new(c), then: Box::new(t), otherwise: Box::new(e) }
}

fn pair(a: Term, b: Term) -> Term {
    Term::Tuple { first: Box::new(a), second: Box::new(b) }
}

fn first(t: Term) -> Term {
    Term::First(Box::new(t))
}

fn second(t: Term) -> Term {
    Term::Second(Box::new(t))
}

fn print_term(t: Term) -> Term {
    Term::Print(Box::new(t))
}

fn run_ok(t: Term) -> (Primitive, Vec<String>) {
    let (r, out) = startInterpret(&t);
    match r {
        Ok(v) => (v, out),
        Err(_) => panic!("evaluation was expected to succeed"),
    }
}

fn run_err(t: Term) -> (EvalError, Vec<String>) {
    let (r, out) = startInterpret(&t);
    match r {
        Ok(_) => panic!("evaluation was expected to fail"),
        Err(e) => (e, out),
    }
}

fn as_int(p: &Primitive) -> i32 {
    match p {
        Primitive::Int(v) => *v,
        _ => panic!("expected an integer value"),
    }
}

fn as_text(p: &Primitive) -> String {
    match p {
        Primitive::Str(s) => s.clone(),
        _ => panic!("expected a string value"),
    }
}

fn as_bool(p: &Primitive) -> bool {
    match p {
        Primitive::Bool(b) => *b,
        _ => panic!("expected a boolean value"),
    }
}

#[test]
fn literals_evaluate_to_themselves() {
    let (v, out) = run_ok(lit_int(42));
    assert_eq!(as_int(&v), 42);
    assert!(out.is_empty());
    let (v, _) = run_ok(text("hello"));
    assert_eq!(as_text(&v), "hello");
    let (v, _) = run_ok(boolean(true));
    assert!(as_bool(&v));
}

#[test]
fn division_truncates_toward_zero() {
    let cases = [(7, 2, 3), (-7, 2, -3), (7, -2, -3), (-7, -2, 3), (0, 5, 0), (1, 5, 0)];
    for (a, b, q) in cases {
        let (v, _) = run_ok(bin(BinOp::Div, lit_int(a), lit_int(b)));
        assert_eq!(as_int(&v), q);
    }
}

#[test]
fn remainder_pairs_with_division() {
    let cases = [(7, 2), (-7, 2), (7, -2), (-7, -2), (13, 5), (-13, 5)];
    for (a, b) in cases {
        let (q, _) = run_ok(bin(BinOp::Div, lit_int(a), lit_int(b)));
        let (r, _) = run_ok(bin(BinOp::Rem, lit_int(a), lit_int(b)));
        assert_eq!(as_int(&q) * b + as_int(&r), a);
    }
    let (r, _) = run_ok(bin(BinOp::Rem, lit_int(7), lit_int(2)));
    assert_eq!(as_int(&r), 1);
    let (r, _) = run_ok(bin(BinOp::Rem, lit_int(-7), lit_int(2)));
    assert_eq!(as_int(&r), -1);
}

#[test]
fn division_by_zero_is_fatal() {
    let (e, _) = run_err(bin(BinOp::Div, lit_int(1), lit_int(0)));
    assert!(matches!(e, EvalError::DivisionByZero));
    let (e, _) = run_err(bin(BinOp::Rem, lit_int(1), lit_int(0)));
    assert!(matches!(e, EvalError::DivisionByZero));
}

#[test]
fn division_overflow_wraps() {
    let (v, _) = run_ok(bin(BinOp::Div, lit_int(i32::MIN), lit_int(-1)));
    assert_eq!(as_int(&v), i32::MIN);
    let (v, _) = run_ok(bin(BinOp::Rem, lit_int(i32::MIN), lit_int(-1)));
    assert_eq!(as_int(&v), 0);
}

#[test]
fn addition_of_integers_is_the_sum() {
    let (v, _) = run_ok(bin(BinOp::Add, lit_int(2), lit_int(3)));
    assert_eq!(as_int(&v), 5);
    let (v, _) = run_ok(bin(BinOp::Add, lit_int(-10), lit_int(4)));
    assert_eq!(as_int(&v), -6);
}

#[test]
fn addition_wraps_on_overflow() {
    let (v, _) = run_ok(bin(BinOp::Add, lit_int(i32::MAX), lit_int(1)));
    assert_eq!(as_int(&v), i32::MIN);
    let (v, _) = run_ok(bin(BinOp::Sub, lit_int(i32::MIN), lit_int(1)));
    assert_eq!(as_int(&v), i32::MAX);
    let (v, _) = run_ok(bin(BinOp::Mul, lit_int(1 << 30), lit_int(4)));
    assert_eq!(as_int(&v), 0);
}

#[test]
fn addition_concatenates_with_strings_preserving_order() {
    let (v, _) = run_ok(bin(BinOp::Add, lit_int(1), text("x")));
    assert_eq!(as_text(&v), "1x");
    let (v, _) = run_ok(bin(BinOp::Add, text("x"), lit_int(1)));
    assert_eq!(as_text(&v), "x1");
    let (v, _) = run_ok(bin(BinOp::Add, text("a"), text("b")));
    assert_eq!(as_text(&v), "ab");
    let (v, _) = run_ok(bin(BinOp::Add, lit_int(-12), text("!")));
    assert_eq!(as_text(&v), "-12!");
}

#[test]
fn comparisons_order_integers() {
    let (v, _) = run_ok(bin(BinOp::Lt, lit_int(1), lit_int(2)));
    assert!(as_bool(&v));
    let (v, _) = run_ok(bin(BinOp::Gt, lit_int(1), lit_int(2)));
    assert!(!as_bool(&v));
    let (v, _) = run_ok(bin(BinOp::Lte, lit_int(2), lit_int(2)));
    assert!(as_bool(&v));
    let (v, _) = run_ok(bin(BinOp::Gte, lit_int(1), lit_int(2)));
    assert!(!as_bool(&v));
}

#[test]
fn equality_is_same_variant_only() {
    let (v, _) = run_ok(bin(BinOp::Eq, lit_int(3), lit_int(3)));
    assert!(as_bool(&v));
    let (v, _) = run_ok(bin(BinOp::Neq, text("a"), text("b")));
    assert!(as_bool(&v));
    let (v, _) = run_ok(bin(BinOp::Eq, boolean(true), boolean(false)));
    assert!(!as_bool(&v));
    // Cross-variant comparison is a type error, not `false`.
    let (e, _) = run_err(bin(BinOp::Eq, lit_int(1), text("1")));
    assert!(matches!(
        e,
        EvalError::TypeMismatch { operation: Operation::Binary(BinOp::Eq), .. }
    ));
}

#[test]
fn logic_operators_combine_booleans() {
    let (v, _) = run_ok(bin(BinOp::And, boolean(true), boolean(false)));
    assert!(!as_bool(&v));
    let (v, _) = run_ok(bin(BinOp::Or, boolean(true), boolean(false)));
    assert!(as_bool(&v));
}

#[test]
fn logic_operators_do_not_short_circuit() {
    // `or` with a true left side still evaluates the right side: the type
    // error in it is raised.
    let (e, _) = run_err(bin(BinOp::Or, boolean(true), bin(BinOp::Lt, lit_int(1), text("x"))));
    assert!(matches!(
        e,
        EvalError::TypeMismatch { operation: Operation::Binary(BinOp::Lt), .. }
    ));
    // The right side's print effect fires even though `and` on false is
    // already decided.
    let probe = bin(
        BinOp::And,
        boolean(false),
        let_in("u", print_term(text("probe")), boolean(true)),
    );
    let (v, out) = run_ok(probe);
    assert!(!as_bool(&v));
    assert_eq!(out, vec!["probe".to_string()]);
}

#[test]
fn out_of_type_operations_raise_type_mismatch() {
    let (e, _) = run_err(bin(BinOp::Add, boolean(true), lit_int(1)));
    assert!(matches!(
        e,
        EvalError::TypeMismatch {
            operation: Operation::Binary(BinOp::Add),
            expected: ValueKind::Int,
            actual: ValueKind::Bool,
        }
    ));
    let (e, _) = run_err(bin(BinOp::Sub, text("a"), text("b")));
    assert!(matches!(
        e,
        EvalError::TypeMismatch {
            operation: Operation::Binary(BinOp::Sub),
            expected: ValueKind::Int,
            actual: ValueKind::Str,
        }
    ));
    let (e, _) = run_err(bin(BinOp::Lt, lit_int(1), text("x")));
    assert!(matches!(
        e,
        EvalError::TypeMismatch {
            operation: Operation::Binary(BinOp::Lt),
            expected: ValueKind::Int,
            actual: ValueKind::Str,
        }
    ));
    let (e, _) = run_err(bin(BinOp::And, boolean(true), lit_int(1)));
    assert!(matches!(
        e,
        EvalError::TypeMismatch { operation: Operation::Binary(BinOp::And), .. }
    ));
}

#[test]
fn left_operand_is_evaluated_first() {
    // Both operand effects fire, left before right.
    let t = bin(
        BinOp::Add,
        let_in("u", print_term(text("left")), lit_int(1)),
        let_in("u", print_term(text("right")), lit_int(2)),
    );
    let (v, out) = run_ok(t);
    assert_eq!(as_int(&v), 3);
    assert_eq!(out, vec!["left".to_string(), "right".to_string()]);
}

#[test]
fn let_binds_and_returns_the_body() {
    let (v, _) = run_ok(let_in("x", lit_int(10), bin(BinOp::Add, var("x"), lit_int(5))));
    assert_eq!(as_int(&v), 15);
}

#[test]
fn later_bindings_shadow_earlier_ones() {
    let t = let_in("x", lit_int(1), let_in("x", bin(BinOp::Add, var("x"), lit_int(1)), var("x")));
    let (v, _) = run_ok(t);
    assert_eq!(as_int(&v), 2);
}

#[test]
fn unbound_variable_is_fatal() {
    let (e, _) = run_err(var("y"));
    match e {
        EvalError::UnboundVariable { name } => assert_eq!(name, "y"),
        _ => panic!("expected UnboundVariable"),
    }
}

#[test]
fn closures_capture_their_defining_scope() {
    // The closure sees the binding at definition time; a later shadowing
    // does not reach it.
    let t = let_in(
        "x",
        lit_int(1),
        let_in(
            "f",
            func(&[], var("x")),
            let_in("x", lit_int(2), call(var("f"), vec![])),
        ),
    );
    let (v, _) = run_ok(t);
    assert_eq!(as_int(&v), 1);
}

#[test]
fn conditional_takes_exactly_one_branch() {
    let (v, out) = run_ok(cond(boolean(true), lit_int(1), print_term(text("never"))));
    assert_eq!(as_int(&v), 1);
    assert!(out.is_empty());
    let (v, out) = run_ok(cond(boolean(false), print_term(text("never")), lit_int(2)));
    assert_eq!(as_int(&v), 2);
    assert!(out.is_empty());
}

#[test]
fn non_boolean_condition_is_fatal() {
    let (e, _) = run_err(cond(lit_int(1), lit_int(2), lit_int(3)));
    assert!(matches!(e, EvalError::NonBooleanCondition));
}

#[test]
fn calls_bind_parameters_in_order() {
    let body = bin(BinOp::Sub, var("a"), var("b"));
    let t = let_in("f", func(&["a", "b"], body), call(var("f"), vec![lit_int(10), lit_int(4)]));
    let (v, _) = run_ok(t);
    assert_eq!(as_int(&v), 6);
}

#[test]
fn anonymous_closure_calls_work() {
    let (v, _) = run_ok(call(func(&["x"], bin(BinOp::Mul, var("x"), lit_int(3))), vec![lit_int(7)]));
    assert_eq!(as_int(&v), 21);
}

#[test]
fn recursive_closures_can_call_themselves() {
    // sum(n) = n + sum(n - 1), sum(0) = 0.
    let body = cond(
        bin(BinOp::Eq, var("n"), lit_int(0)),
        lit_int(0),
        bin(BinOp::Add, var("n"), call(var("sum"), vec![bin(BinOp::Sub, var("n"), lit_int(1))])),
    );
    let t = let_in("sum", func(&["n"], body), call(var("sum"), vec![lit_int(5)]));
    let (v, _) = run_ok(t);
    assert_eq!(as_int(&v), 15);
}

#[test]
fn memoization_keeps_recursion_fast_and_exact() {
    // fib(30) finishes quickly only because equal calls are cached.
    let body = cond(
        bin(BinOp::Lt, var("n"), lit_int(2)),
        var("n"),
        bin(
            BinOp::Add,
            call(var("fib"), vec![bin(BinOp::Sub, var("n"), lit_int(1))]),
            call(var("fib"), vec![bin(BinOp::Sub, var("n"), lit_int(2))]),
        ),
    );
    let t = let_in("fib", func(&["n"], body), call(var("fib"), vec![lit_int(30)]));
    let (v, _) = run_ok(t);
    assert_eq!(as_int(&v), 832040);
}

#[test]
fn repeated_call_returns_cached_value_and_prints_once() {
    // The diagnostic inside the body is printed on the first call only;
    // both calls return 5.
    let body = let_in("u", print_term(text("diag")), bin(BinOp::Add, var("a"), var("b")));
    let t = let_in(
        "add2",
        func(&["a", "b"], body),
        pair(
            call(var("add2"), vec![lit_int(2), lit_int(3)]),
            call(var("add2"), vec![lit_int(2), lit_int(3)]),
        ),
    );
    let (v, out) = run_ok(t);
    match v {
        Primitive::Tuple(a, b) => {
            assert_eq!(as_int(&a), 5);
            assert_eq!(as_int(&b), 5);
        },
        _ => panic!("expected a tuple"),
    }
    assert_eq!(out, vec!["diag".to_string()]);
}

#[test]
fn calls_with_closure_arguments_are_not_cached() {
    // Two calls of the same function on different closure arguments must
    // not share a cache entry.
    let apply = func(&["h"], call(var("h"), vec![]));
    let t = let_in(
        "apply",
        apply,
        pair(
            call(var("apply"), vec![func(&[], lit_int(1))]),
            call(var("apply"), vec![func(&[], lit_int(2))]),
        ),
    );
    let (v, _) = run_ok(t);
    match v {
        Primitive::Tuple(a, b) => {
            assert_eq!(as_int(&a), 1);
            assert_eq!(as_int(&b), 2);
        },
        _ => panic!("expected a tuple"),
    }
}

#[test]
fn arity_mismatch_names_expected_and_actual() {
    let t = let_in(
        "f",
        func(&["a", "b"], bin(BinOp::Add, var("a"), var("b"))),
        call(var("f"), vec![lit_int(1)]),
    );
    let (e, _) = run_err(t);
    match e {
        EvalError::ArityMismatch { function, expected_count, actual_count } => {
            assert_eq!(function, "f");
            assert_eq!(expected_count, 2);
            assert_eq!(actual_count, 1);
        },
        _ => panic!("expected ArityMismatch"),
    }
}

#[test]
fn calling_a_non_function_is_a_type_error() {
    let (e, _) = run_err(call(lit_int(1), vec![lit_int(2)]));
    assert!(matches!(
        e,
        EvalError::TypeMismatch {
            operation: Operation::Call,
            expected: ValueKind::Function,
            actual: ValueKind::Int,
        }
    ));
}

#[test]
fn tuples_project_their_elements() {
    let (v, _) = run_ok(first(pair(lit_int(1), text("x"))));
    assert_eq!(as_int(&v), 1);
    let (v, _) = run_ok(second(pair(lit_int(1), text("x"))));
    assert_eq!(as_text(&v), "x");
    // The operand is evaluated: projection works through a variable too.
    let t = let_in("p", pair(lit_int(7), lit_int(8)), second(var("p")));
    let (v, _) = run_ok(t);
    assert_eq!(as_int(&v), 8);
}

#[test]
fn projecting_a_non_tuple_is_fatal() {
    let (e, _) = run_err(first(lit_int(5)));
    assert!(matches!(e, EvalError::ProjectionOnNonTuple));
    let (e, _) = run_err(second(text("s")));
    assert!(matches!(e, EvalError::ProjectionOnNonTuple));
}

#[test]
fn print_renders_and_returns_unit() {
    // `let x = 10 in print(x + 5)` prints 15 and the run returns unit.
    let t = let_in("x", lit_int(10), print_term(bin(BinOp::Add, var("x"), lit_int(5))));
    let (v, out) = run_ok(t);
    assert!(matches!(v, Primitive::Unit));
    assert_eq!(out, vec!["15".to_string()]);
}

#[test]
fn print_renders_every_kind_canonically() {
    let (_, out) = run_ok(print_term(boolean(true)));
    assert_eq!(out, vec!["true".to_string()]);
    let (_, out) = run_ok(print_term(boolean(false)));
    assert_eq!(out, vec!["false".to_string()]);
    let (_, out) = run_ok(print_term(text("verbatim")));
    assert_eq!(out, vec!["verbatim".to_string()]);
    let (_, out) = run_ok(print_term(lit_int(-42)));
    assert_eq!(out, vec!["-42".to_string()]);
    let (_, out) = run_ok(print_term(func(&["x"], var("x"))));
    assert_eq!(out, vec!["<#closure>".to_string()]);
    let (_, out) = run_ok(print_term(pair(lit_int(1), pair(lit_int(2), text("x")))));
    assert_eq!(out, vec!["(1, (2, x))".to_string()]);
}

#[test]
fn already_printed_lines_survive_a_fatal_error() {
    let t = let_in("u", print_term(text("kept")), bin(BinOp::Div, lit_int(1), lit_int(0)));
    let (e, out) = run_err(t);
    assert!(matches!(e, EvalError::DivisionByZero));
    assert_eq!(out, vec!["kept".to_string()]);
}

#[test]
fn the_recursion_budget_bounds_call_depth() {
    // With a zero budget a call cannot start; literals still evaluate.
    let t = call(func(&[], lit_int(1)), vec![]);
    let (r, _) = evaluate(&t, 0);
    match r {
        Err(EvalError::DepthLimit) => {},
        _ => panic!("expected DepthLimit"),
    }
    let (r, _) = evaluate(&lit_int(9), 0);
    match r {
        Ok(v) => assert_eq!(as_int(&v), 9),
        Err(_) => panic!("a literal needs no budget"),
    }
    // Unbounded recursion stops at the budget instead of overrunning the
    // stack.
    let body = call(var("loops"), vec![]);
    let t = let_in("loops", func(&[], body), call(var("loops"), vec![]));
    let (r, _) = evaluate(&t, 100);
    match r {
        Err(EvalError::DepthLimit) => {},
        _ => panic!("expected DepthLimit"),
    }
}

#[test]
fn integer_rendering_is_exact_decimal_text() {
    let cases: [(i32, &str); 7] = [
        (0, "0"),
        (7, "7"),
        (-1, "-1"),
        (123456789, "123456789"),
        (-123456, "-123456"),
        (i32::MAX, "2147483647"),
        (i32::MIN, "-2147483648"),
    ];
    for (v, s) in cases {
        assert_eq!(int_to_string(v), s.to_string());
    }
    assert_eq!(bool_to_string(true), "true".to_string());
    assert_eq!(bool_to_string(false), "false".to_string());
}

#[test]
fn render_value_spells_tuples_recursively() {
    let v = Primitive::Tuple(
        Rc::new(Primitive::Str("a".to_string())),
        Rc::new(Primitive::Tuple(Rc::new(Primitive::Int(1)), Rc::new(Primitive::Bool(true)))),
    );
    assert_eq!(render_value(&v), "(a, (1, true))".to_string());
}

#[test]
fn operator_table_works_on_values_directly() {
    match add_two_primitives(Primitive::Int(2), Primitive::Str("x".to_string())) {
        Ok(Primitive::Str(s)) => assert_eq!(s, "2x"),
        _ => panic!("expected a string"),
    }
    match sub_two_primitives(Primitive::Int(5), Primitive::Int(2)) {
        Ok(Primitive::Int(v)) => assert_eq!(v, 3),
        _ => panic!("expected an integer"),
    }
    match mul_two_primitives(Primitive::Int(5), Primitive::Int(2)) {
        Ok(Primitive::Int(v)) => assert_eq!(v, 10),
        _ => panic!("expected an integer"),
    }
    match div_two_primitives(Primitive::Int(-9), Primitive::Int(2)) {
        Ok(Primitive::Int(v)) => assert_eq!(v, -4),
        _ => panic!("expected an integer"),
    }
    match rem_two_primitives(Primitive::Int(-9), Primitive::Int(2)) {
        Ok(Primitive::Int(v)) => assert_eq!(v, -1),
        _ => panic!("expected an integer"),
    }
    match eq_two_primitives(Primitive::Str("a".to_string()), Primitive::Str("a".to_string())) {
        Ok(Primitive::Bool(b)) => assert!(b),
        _ => panic!("expected a boolean"),
    }
    match neq_two_primitives(Primitive::Bool(true), Primitive::Bool(true)) {
        Ok(Primitive::Bool(b)) => assert!(!b),
        _ => panic!("expected a boolean"),
    }
    match lt_two_primitives(Primitive::Int(1), Primitive::Int(2)) {
        Ok(Primitive::Bool(b)) => assert!(b),
        _ => panic!("expected a boolean"),
    }
    match gt_two_primitives(Primitive::Int(1), Primitive::Int(2)) {
        Ok(Primitive::Bool(b)) => assert!(!b),
        _ => panic!("expected a boolean"),
    }
    match lte_two_primitives(Primitive::Int(2), Primitive::Int(2)) {
        Ok(Primitive::Bool(b)) => assert!(b),
        _ => panic!("expected a boolean"),
    }
    match gte_two_primitives(Primitive::Int(1), Primitive::Int(2)) {
        Ok(Primitive::Bool(b)) => assert!(!b),
        _ => panic!("expected a boolean"),
    }
    match and_two_primitives(Primitive::Bool(true), Primitive::Bool(true)) {
        Ok(Primitive::Bool(b)) => assert!(b),
        _ => panic!("expected a boolean"),
    }
    match or_two_primitives(Primitive::Bool(false), Primitive::Bool(false)) {
        Ok(Primitive::Bool(b)) => assert!(!b),
        _ => panic!("expected a boolean"),
    }
}

#[test]
fn environments_are_persistent() {
    let base = Environment::empty();
    let one = base.bind("x".to_string(), Primitive::Int(1));
    let two = one.bind("x".to_string(), Primitive::Int(2));
    match one.get(&"x".to_string()) {
        Some(p) => assert_eq!(as_int(p), 1),
        None => panic!("x must be bound"),
    }
    match two.get(&"x".to_string()) {
        Some(p) => assert_eq!(as_int(p), 2),
        None => panic!("x must be bound"),
    }
    assert!(base.get(&"x".to_string()).is_none());
}

#[test]
fn memo_table_stores_and_finds_keys() {
    let mut table = MemoTable::new();
    let k1 = CallKey { name: "f".to_string(), args: vec![ArgKey::Int(1)] };
    let k2 = CallKey { name: "f".to_string(), args: vec![ArgKey::Int(2)] };
    assert!(table.get(&k1).is_none());
    table.insert(
        CallKey { name: "f".to_string(), args: vec![ArgKey::Int(1)] },
        Primitive::Int(10),
    );
    match table.get(&k1) {
        Some(p) => assert_eq!(as_int(p), 10),
        None => panic!("stored key must be found"),
    }
    assert!(table.get(&k2).is_none());
    assert!(key_eq(
        &CallKey { name: "g".to_string(), args: vec![ArgKey::Str("s".to_string())] },
        &CallKey { name: "g".to_string(), args: vec![ArgKey::Str("s".to_string())] },
    ));
    assert!(!key_eq(
        &CallKey { name: "g".to_string(), args: vec![ArgKey::Bool(true)] },
        &CallKey { name: "g".to_string(), args: vec![ArgKey::Bool(false)] },
    ));
}

#[test]
fn make_key_rejects_non_primitive_arguments() {
    let name = "f".to_string();
    let prim_args = vec![Primitive::Int(1), Primitive::Str("a".to_string())];
    assert!(make_key(&name, &prim_args).is_some());
    let with_tuple = vec![Primitive::Tuple(
        Rc::new(Primitive::Int(1)),
        Rc::new(Primitive::Int(2)),
    )];
    assert!(make_key(&name, &with_tuple).is_none());
}

#[test]
fn independent_runs_share_no_cache() {
    // Two interpreters each see the first call of the same program.
    let body = let_in("u", print_term(text("ran")), lit_int(1));
    let t = let_in("f", func(&[], body), call(var("f"), vec![]));
    let mut first_run = Interpreter::new();
    let mut second_run = Interpreter::new();
    assert!(first_run.interpret(&t, 100).is_ok());
    assert!(second_run.interpret(&t, 100).is_ok());
    assert_eq!(first_run.output, vec!["ran".to_string()]);
    assert_eq!(second_run.output, vec!["ran".to_string()]);
}

#[test]
fn an_alias_of_a_recursive_function_still_recurses() {
    // `g` is bound to the closure already named `f`; calling it through
    // the alias keeps the self-reference alive.
    let body = cond(
        bin(BinOp::Eq, var("n"), lit_int(0)),
        lit_int(0),
        call(var("f"), vec![bin(BinOp::Sub, var("n"), lit_int(1))]),
    );
    let t = let_in(
        "f",
        func(&["n"], body),
        let_in("g", var("f"), call(var("g"), vec![lit_int(3)])),
    );
    let (v, _) = run_ok(t);
    assert_eq!(as_int(&v), 0);
}

#[test]
fn printing_a_unit_value_emits_no_line() {
    // The inner print emits "1"; the outer one sees a unit value and emits
    // nothing, returning unit itself.
    let (v, out) = run_ok(print_term(print_term(lit_int(1))));
    assert!(matches!(v, Primitive::Unit));
    assert_eq!(out, vec!["1".to_string()]);
}
