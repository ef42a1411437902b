//! Laws of the semantics, each proved once and for all inputs: how division
//! truncates and relates to the remainder, what `add` returns on every
//! operand mix, that a conditional never consults the untaken branch, how a
//! bound closure finds itself, that a repeated memoized call returns the
//! cached value without printing again, exactly when an operator raises a
//! type error, how tuple projection behaves, and when a call raises an
//! arity error.

use vstd::prelude::*;
use vstd::arithmetic::div_mod::{
    lemma_div_is_ordered, lemma_div_is_ordered_by_denominator, lemma_div_nonincreasing,
    lemma_div_pos_is_pos, lemma_fundamental_div_mod,
};
use crate::ast::{BinOp, TermX};
use crate::errors::ErrX;
use crate::eval::{
    ArgsStepX, StateX, StepX, bind_params, eval_args, eval_step, fixup_x,
};
use crate::memo::{KeyX, all_primitive, args_key, memo_lookup};
use crate::ops::{add_x, binop_x, int_arith_x};
use crate::render::{int_dec, render_x};
use crate::value::{EnvX, ValueX, lookup_x};

verus! {

/// Integer division truncating toward zero, stated over the unbounded
/// integers. (The `/` of specifications is Euclidean, so the negative cases
/// are spelled out through the magnitudes.)
pub open spec fn trunc_div(a: int, b: int) -> int {
    if a >= 0 && b > 0 {
        a / b
    } else if a <= 0 && b < 0 {
        (-a) / (-b)
    } else if a < 0 {
        -((-a) / b)
    } else {
        -(a / (-b))
    }
}

/// The remainder that pairs with truncating division.
pub open spec fn trunc_rem(a: int, b: int) -> int {
    a - trunc_div(a, b) * b
}

/// Division of two integers evaluates to the quotient truncated toward
/// zero, whenever the divisor is not zero and the quotient is
/// representable (everything but `i32::MIN / -1`).
pub proof fn lemma_div_truncates(a: i32, b: i32)
    requires
        b != 0,
        !(a == i32::MIN && b == -1),
    ensures
        i32::MIN <= trunc_div(a as int, b as int) <= i32::MAX,
        int_arith_x(BinOp::Div, a, b) == Result::<ValueX, ErrX>::Ok(
            ValueX::Int(trunc_div(a as int, b as int) as i32),
        ),
{
    let x = a as int;
    let d = b as int;
    let q = trunc_div(x, d);
    if x >= 0 && d > 0 {
        lemma_div_pos_is_pos(x, d);
        lemma_div_nonincreasing(x, d);
    } else if x <= 0 && d < 0 {
        lemma_div_pos_is_pos(-x, -d);
        lemma_div_nonincreasing(-x, -d);
        if d == -1 {
            assert(a != i32::MIN);
            assert(-x <= i32::MAX);
            assert(q <= i32::MAX);
        } else {
            assert(-d >= 2);
            lemma_div_is_ordered_by_denominator(-x, 2, -d);
            lemma_div_is_ordered(-x, 0x8000_0000, 2);
            assert(0x8000_0000int / 2 == 0x4000_0000) by {
                vstd::arithmetic::div_mod::lemma_div_by_multiple(0x4000_0000, 2);
            };
            assert(q <= 0x4000_0000);
        }
    } else if x < 0 {
        lemma_div_pos_is_pos(-x, d);
        lemma_div_nonincreasing(-x, d);
    } else {
        lemma_div_pos_is_pos(x, -d);
        lemma_div_nonincreasing(x, -d);
    }
}

/// The remainder of two integers evaluates to `a - q * b` for the
/// truncated quotient `q`: exactly the value that makes `q * b + r == a`.
pub proof fn lemma_rem_truncates(a: i32, b: i32)
    requires
        b != 0,
        !(a == i32::MIN && b == -1),
    ensures
        i32::MIN <= trunc_rem(a as int, b as int) <= i32::MAX,
        int_arith_x(BinOp::Rem, a, b) == Result::<ValueX, ErrX>::Ok(
            ValueX::Int(trunc_rem(a as int, b as int) as i32),
        ),
{
    let x = a as int;
    let d = b as int;
    let q = trunc_div(x, d);
    if x >= 0 && d > 0 {
        lemma_fundamental_div_mod(x, d);
    } else if x <= 0 && d < 0 {
        let m = (-x) / (-d);
        lemma_fundamental_div_mod(-x, -d);
        assert(-x == (-d) * m + (-x) % (-d));
        assert((-d) * m == -(m * d)) by (nonlinear_arith);
        assert(q == m);
        assert(x - q * d == -((-x) % (-d)));
    } else if x < 0 {
        let m = (-x) / d;
        lemma_fundamental_div_mod(-x, d);
        assert(-x == d * m + (-x) % d);
        assert(d * m == m * d) by (nonlinear_arith);
        assert((-m) * d == -(m * d)) by (nonlinear_arith);
        assert(q == -m);
        assert(x - q * d == -((-x) % d));
    } else {
        let m = x / (-d);
        lemma_fundamental_div_mod(x, -d);
        assert(x == (-d) * m + x % (-d));
        assert((-d) * m == -(m * d)) by (nonlinear_arith);
        assert((-m) * d == -(m * d)) by (nonlinear_arith);
        assert(q == -m);
        assert(x - q * d == x % (-d));
    }
}

/// Together: on every pair with a nonzero divisor and a representable
/// quotient, evaluating `a / b` and `a % b` yields values `q` and `r` with
/// `q * b + r == a`.
pub proof fn lemma_div_rem_identity(a: i32, b: i32)
    requires
        b != 0,
        !(a == i32::MIN && b == -1),
    ensures
        match (int_arith_x(BinOp::Div, a, b), int_arith_x(BinOp::Rem, a, b)) {
            (Result::Ok(ValueX::Int(q)), Result::Ok(ValueX::Int(r))) => q as int * (b as int) + (
            r as int) == a as int,
            _ => false,
        },
{
    lemma_div_truncates(a, b);
    lemma_rem_truncates(a, b);
}

/// `add` on two integers whose arithmetic sum is representable evaluates
/// to that sum.
pub proof fn lemma_add_ints(a: i32, b: i32)
    requires
        i32::MIN <= a as int + b as int <= i32::MAX,
    ensures
        add_x(ValueX::Int(a), ValueX::Int(b)) == Result::<ValueX, ErrX>::Ok(
            ValueX::Int((a + b) as i32),
        ),
{
}

/// `add` with a string on either side concatenates, rendering the integer
/// operand as decimal text and keeping the operand order.
pub proof fn lemma_add_strings(a: i32, s: Seq<char>, t: Seq<char>)
    ensures
        add_x(ValueX::Int(a), ValueX::Str(s)) == Result::<ValueX, ErrX>::Ok(
            ValueX::Str(int_dec(a as int) + s),
        ),
        add_x(ValueX::Str(s), ValueX::Int(a)) == Result::<ValueX, ErrX>::Ok(
            ValueX::Str(s + int_dec(a as int)),
        ),
        add_x(ValueX::Str(s), ValueX::Str(t)) == Result::<ValueX, ErrX>::Ok(ValueX::Str(s + t)),
{
}

/// At the evaluator: dividing two integer literals yields the quotient
/// truncated toward zero, the remainder completes it to `q * b + r == a`,
/// and neither touches the cache or the output.
pub proof fn lemma_eval_div_rem(fuel: nat, a: i32, b: i32, env: EnvX, st: StateX)
    requires
        b != 0,
        !(a == i32::MIN && b == -1),
    ensures
        eval_step(
            fuel,
            TermX::Binary(BinOp::Div, Box::new(TermX::Int(a)), Box::new(TermX::Int(b))),
            env,
            st,
        ) == StepX::Done(ValueX::Int(trunc_div(a as int, b as int) as i32), st),
        eval_step(
            fuel,
            TermX::Binary(BinOp::Rem, Box::new(TermX::Int(a)), Box::new(TermX::Int(b))),
            env,
            st,
        ) == StepX::Done(ValueX::Int(trunc_rem(a as int, b as int) as i32), st),
        trunc_div(a as int, b as int) * (b as int) + trunc_rem(a as int, b as int) == a as int,
{
    reveal_with_fuel(eval_step, 2);
    lemma_div_truncates(a, b);
    lemma_rem_truncates(a, b);
}

/// At the evaluator: adding two integer literals whose arithmetic sum is
/// representable yields that sum; adding an integer literal and a string
/// literal concatenates, rendering the integer as decimal text and keeping
/// the operand order.
pub proof fn lemma_eval_add(fuel: nat, a: i32, b: i32, s: Seq<char>, env: EnvX, st: StateX)
    ensures
        i32::MIN <= a as int + b as int <= i32::MAX ==> eval_step(
            fuel,
            TermX::Binary(BinOp::Add, Box::new(TermX::Int(a)), Box::new(TermX::Int(b))),
            env,
            st,
        ) == StepX::Done(ValueX::Int((a + b) as i32), st),
        eval_step(
            fuel,
            TermX::Binary(BinOp::Add, Box::new(TermX::Int(a)), Box::new(TermX::Str(s))),
            env,
            st,
        ) == StepX::Done(ValueX::Str(int_dec(a as int) + s), st),
        eval_step(
            fuel,
            TermX::Binary(BinOp::Add, Box::new(TermX::Str(s)), Box::new(TermX::Int(a))),
            env,
            st,
        ) == StepX::Done(ValueX::Str(s + int_dec(a as int)), st),
{
    reveal_with_fuel(eval_step, 2);
    if i32::MIN <= a as int + b as int <= i32::MAX {
        lemma_add_ints(a, b);
    }
    lemma_add_strings(a, s, s);
}

/// A conditional on a true literal is exactly the evaluation of its `then`
/// branch: the result, cache and output never depend on the untaken
/// branch, so that branch is never evaluated.
pub proof fn lemma_if_true_takes_then(
    fuel: nat,
    then: TermX,
    otherwise: TermX,
    env: EnvX,
    st: StateX,
)
    ensures
        eval_step(
            fuel,
            TermX::If(Box::new(TermX::Bool(true)), Box::new(then), Box::new(otherwise)),
            env,
            st,
        ) == eval_step(fuel, then, env, st),
{
    reveal_with_fuel(eval_step, 2);
}

/// The mirror image: a conditional on a false literal is exactly the
/// evaluation of its `otherwise` branch.
pub proof fn lemma_if_false_takes_otherwise(
    fuel: nat,
    then: TermX,
    otherwise: TermX,
    env: EnvX,
    st: StateX,
)
    ensures
        eval_step(
            fuel,
            TermX::If(Box::new(TermX::Bool(false)), Box::new(then), Box::new(otherwise)),
            env,
            st,
        ) == eval_step(fuel, otherwise, env, st),
{
    reveal_with_fuel(eval_step, 2);
}

/// Binding parameters over an environment cannot hide a name that is not
/// among the parameters.
proof fn lemma_bind_params_keeps(
    params: Seq<Seq<char>>,
    vals: Seq<ValueX>,
    env: EnvX,
    name: Seq<char>,
)
    requires
        params.len() == vals.len(),
        !params.contains(name),
    ensures
        lookup_x(bind_params(params, vals, env), name) == lookup_x(env, name),
    decreases params.len(),
{
    if params.len() == 0 {
    } else {
        let extended = seq![(params[0], vals[0])] + env;
        assert(params[0] != name);
        assert(extended[0].0 == params[0]);
        assert(extended.drop_first() =~= env);
        assert(lookup_x(extended, name) == lookup_x(env, name));
        assert(!params.drop_first().contains(name)) by {
            assert(forall|i: int|
                0 <= i < params.drop_first().len() ==> params.drop_first()[i] == params[i + 1]);
        };
        lemma_bind_params_keeps(params.drop_first(), vals.drop_first(), extended, name);
    }
}

/// Inside the execution environment of a call to a named closure, the
/// closure's own name resolves to the closure itself, as long as no
/// parameter shadows it: this is what lets a `let`-bound function call
/// itself without `UnboundVariable`.
pub proof fn lemma_closure_self_reference(
    name: Seq<char>,
    parameters: Seq<Seq<char>>,
    body: TermX,
    cenv: EnvX,
    vals: Seq<ValueX>,
)
    requires
        name.len() > 0,
        parameters.len() == vals.len(),
        !parameters.contains(name),
    ensures
        ({
            let f = ValueX::Function { name, parameters, body, env: cenv };
            lookup_x(bind_params(parameters, vals, seq![(name, f)] + cenv), name) == Option::Some(
                f,
            )
        }),
{
    let f = ValueX::Function { name, parameters, body, env: cenv };
    let inner = seq![(name, f)] + cenv;
    lemma_bind_params_keeps(parameters, vals, inner, name);
    assert(inner[0].0 == name);
    assert(lookup_x(inner, name) == Option::Some(f));
}

/// The environment model: a new binding resolves to its value, shadows an
/// older binding of the same name, and leaves every other name untouched —
/// while the old environment object itself still resolves the name as
/// before.
pub proof fn lemma_bind_lookup(name: Seq<char>, v: ValueX, other: Seq<char>, env: EnvX)
    ensures
        lookup_x(seq![(name, v)] + env, name) == Option::Some(v),
        other != name ==> lookup_x(seq![(name, v)] + env, other) == lookup_x(env, other),
{
    let extended = seq![(name, v)] + env;
    assert(extended[0] == (name, v));
    assert(extended.drop_first() =~= env);
}

/// Whether a term is a literal of a primitive kind.
pub open spec fn is_lit(t: TermX) -> bool {
    t is Int || t is Str || t is Bool
}

/// The value of such a literal.
pub open spec fn lit_val(t: TermX) -> ValueX {
    match t {
        TermX::Int(v) => ValueX::Int(v),
        TermX::Str(s) => ValueX::Str(s),
        TermX::Bool(b) => ValueX::Bool(b),
        _ => ValueX::Unit,
    }
}

/// The values of a list of literals.
pub open spec fn lit_vals(args: Seq<TermX>) -> Seq<ValueX> {
    args.map_values(|t: TermX| lit_val(t))
}

/// Literal arguments evaluate to their values and touch neither the cache
/// nor the output.
proof fn lemma_eval_lit_args(fuel: nat, args: Seq<TermX>, i: int, env: EnvX, st: StateX)
    requires
        0 <= i <= args.len(),
        forall|j: int| 0 <= j < args.len() ==> is_lit(#[trigger] args[j]),
    ensures
        eval_args(fuel, args, i, env, st) == ArgsStepX::Done(lit_vals(args).skip(i), st),
    decreases args.len() - i,
{
    if i >= args.len() {
        assert(lit_vals(args).skip(i) =~= Seq::<ValueX>::empty());
    } else {
        assert(is_lit(args[i]));
        assert(eval_step(fuel, args[i], env, st) == StepX::Done(lit_val(args[i]), st));
        lemma_eval_lit_args(fuel, args, i + 1, env, st);
        assert(seq![lit_val(args[i])] + lit_vals(args).skip(i + 1) =~= lit_vals(args).skip(i));
    }
}

/// The cache returns the value just stored under the same key.
proof fn lemma_memo_lookup_push(m: Seq<(KeyX, ValueX)>, k: KeyX, v: ValueX)
    ensures
        memo_lookup(m.push((k, v)), k) == Option::Some(v),
{
    assert(m.push((k, v)).last() == (k, v));
}

/// Calling the same named closure twice with the same primitive literal
/// arguments: once the first call has produced its value, the second call
/// returns that same value out of the cache, with any recursion budget,
/// and changes nothing — in particular, a print inside the body runs only
/// during the first call; the second emits no output.
pub proof fn lemma_repeated_call_cached(
    fuel1: nat,
    fuel2: nat,
    x: Seq<char>,
    args: Seq<TermX>,
    name: Seq<char>,
    parameters: Seq<Seq<char>>,
    body: TermX,
    cenv: EnvX,
    env: EnvX,
    st0: StateX,
    v: ValueX,
    st1: StateX,
)
    requires
        forall|j: int| 0 <= j < args.len() ==> is_lit(#[trigger] args[j]),
        lookup_x(env, x) == Option::Some(
            ValueX::Function { name, parameters, body, env: cenv },
        ),
        name.len() > 0,
        parameters.len() == args.len(),
        eval_step(fuel1, TermX::Call(Box::new(TermX::Var(x)), args), env, st0) == StepX::Done(
            v,
            st1,
        ),
    ensures
        eval_step(fuel2, TermX::Call(Box::new(TermX::Var(x)), args), env, st1) == StepX::Done(
            v,
            st1,
        ),
{
    reveal_with_fuel(eval_step, 3);
    let f = ValueX::Function { name, parameters, body, env: cenv };
    let vs = lit_vals(args);
    let k = KeyX { name, args: args_key(vs) };
    assert(all_primitive(vs)) by {
        assert(forall|j: int| 0 <= j < vs.len() ==> crate::memo::is_primitive(#[trigger] vs[j]))
            by {
            assert(forall|j: int| 0 <= j < args.len() ==> is_lit(#[trigger] args[j]));
        };
    };
    lemma_eval_lit_args(fuel1, args, 0, env, st0);
    lemma_eval_lit_args(fuel2, args, 0, env, st1);
    assert(vs.skip(0) =~= vs);
    assert(vs.len() == parameters.len());
    match memo_lookup(st0.memo, k) {
        Option::Some(w) => {
            assert(st1 == st0);
            assert(v == w);
        },
        Option::None => {
            assert(fuel1 > 0);
            let env_call = bind_params(parameters, vs, seq![(name, f)] + cenv);
            match eval_step((fuel1 - 1) as nat, body, env_call, st0) {
                StepX::Done(w, st3) => {
                    assert(v == w);
                    assert(st1 == StateX { memo: st3.memo.push((k, v)), out: st3.out });
                    lemma_memo_lookup_push(st3.memo, k, v);
                    assert(memo_lookup(st1.memo, k) == Option::Some(v));
                },
                StepX::Fail(_, _) => {
                    assert(false);
                },
            }
        },
    }
}

/// Which operand kinds each operator accepts.
pub open spec fn binop_type_ok(op: BinOp, l: ValueX, r: ValueX) -> bool {
    match op {
        BinOp::Add => (l is Int || l is Str) && (r is Int || r is Str),
        BinOp::Sub | BinOp::Mul | BinOp::Div | BinOp::Rem => l is Int && r is Int,
        BinOp::Eq | BinOp::Neq => (l is Int && r is Int) || (l is Str && r is Str) || (l is Bool
            && r is Bool),
        BinOp::Lt | BinOp::Gt | BinOp::Lte | BinOp::Gte => l is Int && r is Int,
        BinOp::And | BinOp::Or => l is Bool && r is Bool,
    }
}

/// An operator raises `TypeMismatch` exactly on the operand kinds it does
/// not accept — never a silent default, and never a type error on operands
/// it does accept.
pub proof fn lemma_type_mismatch_exact(op: BinOp, l: ValueX, r: ValueX)
    ensures
        (binop_x(op, l, r) matches Result::Err(e) && e is TypeMismatch) <==> !binop_type_ok(
            op,
            l,
            r,
        ),
{
}

/// Projection `first` on a term that evaluates to a tuple yields the first
/// element, with the same cache and output.
pub proof fn lemma_first_projects(
    fuel: nat,
    inner: TermX,
    env: EnvX,
    st: StateX,
    a: ValueX,
    b: ValueX,
    st1: StateX,
)
    requires
        eval_step(fuel, inner, env, st) == StepX::Done(
            ValueX::Tuple(Box::new(a), Box::new(b)),
            st1,
        ),
    ensures
        eval_step(fuel, TermX::First(Box::new(inner)), env, st) == StepX::Done(a, st1),
        eval_step(fuel, TermX::Second(Box::new(inner)), env, st) == StepX::Done(b, st1),
{
}

/// Projecting a value that is not a tuple is the fatal error
/// `ProjectionOnNonTuple`.
pub proof fn lemma_projection_on_non_tuple(
    fuel: nat,
    inner: TermX,
    env: EnvX,
    st: StateX,
    v: ValueX,
    st1: StateX,
)
    requires
        eval_step(fuel, inner, env, st) == StepX::Done(v, st1),
        !(v is Tuple),
    ensures
        eval_step(fuel, TermX::First(Box::new(inner)), env, st) == StepX::Fail(
            ErrX::ProjectionOnNonTuple,
            st1,
        ),
        eval_step(fuel, TermX::Second(Box::new(inner)), env, st) == StepX::Fail(
            ErrX::ProjectionOnNonTuple,
            st1,
        ),
{
}

/// A call whose argument count differs from the callee's parameter count
/// fails with `ArityMismatch`, naming the function and both counts.
pub proof fn lemma_arity_mismatch(
    fuel: nat,
    callee: TermX,
    args: Seq<TermX>,
    env: EnvX,
    st: StateX,
    name: Seq<char>,
    parameters: Seq<Seq<char>>,
    body: TermX,
    cenv: EnvX,
    st1: StateX,
    vs: Seq<ValueX>,
    st2: StateX,
)
    requires
        eval_step(fuel, callee, env, st) == StepX::Done(
            ValueX::Function { name, parameters, body, env: cenv },
            st1,
        ),
        eval_args(fuel, args, 0, env, st1) == ArgsStepX::Done(vs, st2),
        vs.len() != parameters.len(),
    ensures
        eval_step(fuel, TermX::Call(Box::new(callee), args), env, st) == StepX::Fail(
            ErrX::ArityMismatch(name, parameters.len(), vs.len()),
            st2,
        ),
{
}

/// A sequence is a prefix of itself.
proof fn lemma_prefix_refl(s: Seq<Seq<char>>)
    ensures
        s.is_prefix_of(s),
{
    assert(s =~= s.subrange(0, s.len() as int));
}

/// A sequence is a prefix of itself extended by one element.
proof fn lemma_prefix_push(s: Seq<Seq<char>>, x: Seq<char>)
    ensures
        s.is_prefix_of(s.push(x)),
{
    assert(s =~= s.push(x).subrange(0, s.len() as int));
}

/// Being a prefix is transitive.
proof fn lemma_prefix_trans(a: Seq<Seq<char>>, b: Seq<Seq<char>>, c: Seq<Seq<char>>)
    requires
        a.is_prefix_of(b),
        b.is_prefix_of(c),
    ensures
        a.is_prefix_of(c),
{
    assert(a =~= c.subrange(0, a.len() as int)) by {
        assert(forall|i: int| 0 <= i < a.len() ==> a[i] == b.subrange(0, a.len() as int)[i]);
        assert(forall|i: int| 0 <= i < b.len() ==> b[i] == c.subrange(0, b.len() as int)[i]);
    };
}

/// The printed lines before a step are a prefix of those after it.
pub open spec fn keeps_output(st: StateX, s: StepX) -> bool {
    match s {
        StepX::Done(_, st1) => st.out.is_prefix_of(st1.out),
        StepX::Fail(_, st1) => st.out.is_prefix_of(st1.out),
    }
}

/// No rule of the semantics ever retracts a printed line: whatever one
/// evaluation step does — succeed or abort — the lines printed before it
/// stay, in order, at the front of the lines printed after it.
pub proof fn lemma_output_never_retracted(fuel: nat, t: TermX, env: EnvX, st: StateX)
    ensures
        keeps_output(st, eval_step(fuel, t, env, st)),
    decreases fuel, t, 0int,
{
    match t {
        TermX::Int(_) => lemma_prefix_refl(st.out),
        TermX::Str(_) => lemma_prefix_refl(st.out),
        TermX::Bool(_) => lemma_prefix_refl(st.out),
        TermX::Var(_) => lemma_prefix_refl(st.out),
        TermX::Function(_, _) => lemma_prefix_refl(st.out),
        TermX::Binary(_, lhs, rhs) => {
            lemma_output_never_retracted(fuel, *lhs, env, st);
            match eval_step(fuel, *lhs, env, st) {
                StepX::Done(_, st1) => {
                    lemma_output_never_retracted(fuel, *rhs, env, st1);
                    match eval_step(fuel, *rhs, env, st1) {
                        StepX::Done(_, st2) => lemma_prefix_trans(st.out, st1.out, st2.out),
                        StepX::Fail(_, st2) => lemma_prefix_trans(st.out, st1.out, st2.out),
                    }
                },
                StepX::Fail(_, _) => {},
            }
        },
        TermX::Let(name, value, next) => {
            lemma_output_never_retracted(fuel, *value, env, st);
            match eval_step(fuel, *value, env, st) {
                StepX::Done(v, st1) => {
                    let env1 = seq![(name, fixup_x(name, v))] + env;
                    lemma_output_never_retracted(fuel, *next, env1, st1);
                    match eval_step(fuel, *next, env1, st1) {
                        StepX::Done(_, st2) => lemma_prefix_trans(st.out, st1.out, st2.out),
                        StepX::Fail(_, st2) => lemma_prefix_trans(st.out, st1.out, st2.out),
                    }
                },
                StepX::Fail(_, _) => {},
            }
        },
        TermX::Call(callee, args) => {
            lemma_output_never_retracted(fuel, *callee, env, st);
            match eval_step(fuel, *callee, env, st) {
                StepX::Done(f, st1) => match f {
                    ValueX::Function { name, parameters, body, env: cenv } => {
                        lemma_output_args_never_retracted(fuel, args, 0, env, st1);
                        match eval_args(fuel, args, 0, env, st1) {
                            ArgsStepX::Done(vs, st2) => {
                                lemma_prefix_trans(st.out, st1.out, st2.out);
                                if vs.len() == parameters.len() && fuel > 0 {
                                    let env_call = bind_params(
                                        parameters,
                                        vs,
                                        if name.len() > 0 {
                                            seq![(name, f)] + cenv
                                        } else {
                                            cenv
                                        },
                                    );
                                    lemma_output_never_retracted(
                                        (fuel - 1) as nat,
                                        body,
                                        env_call,
                                        st2,
                                    );
                                    match eval_step((fuel - 1) as nat, body, env_call, st2) {
                                        StepX::Done(_, st3) => lemma_prefix_trans(
                                            st.out,
                                            st2.out,
                                            st3.out,
                                        ),
                                        StepX::Fail(_, st3) => lemma_prefix_trans(
                                            st.out,
                                            st2.out,
                                            st3.out,
                                        ),
                                    }
                                }
                            },
                            ArgsStepX::Fail(_, st2) => lemma_prefix_trans(st.out, st1.out, st2.out),
                        }
                    },
                    _ => {},
                },
                StepX::Fail(_, _) => {},
            }
        },
        TermX::If(condition, then, otherwise) => {
            lemma_output_never_retracted(fuel, *condition, env, st);
            match eval_step(fuel, *condition, env, st) {
                StepX::Done(v, st1) => {
                    if v == ValueX::Bool(true) {
                        lemma_output_never_retracted(fuel, *then, env, st1);
                        match eval_step(fuel, *then, env, st1) {
                            StepX::Done(_, st2) => lemma_prefix_trans(st.out, st1.out, st2.out),
                            StepX::Fail(_, st2) => lemma_prefix_trans(st.out, st1.out, st2.out),
                        }
                    } else if v == ValueX::Bool(false) {
                        lemma_output_never_retracted(fuel, *otherwise, env, st1);
                        match eval_step(fuel, *otherwise, env, st1) {
                            StepX::Done(_, st2) => lemma_prefix_trans(st.out, st1.out, st2.out),
                            StepX::Fail(_, st2) => lemma_prefix_trans(st.out, st1.out, st2.out),
                        }
                    }
                },
                StepX::Fail(_, _) => {},
            }
        },
        TermX::Tuple(first, second) => {
            lemma_output_never_retracted(fuel, *first, env, st);
            match eval_step(fuel, *first, env, st) {
                StepX::Done(_, st1) => {
                    lemma_output_never_retracted(fuel, *second, env, st1);
                    match eval_step(fuel, *second, env, st1) {
                        StepX::Done(_, st2) => lemma_prefix_trans(st.out, st1.out, st2.out),
                        StepX::Fail(_, st2) => lemma_prefix_trans(st.out, st1.out, st2.out),
                    }
                },
                StepX::Fail(_, _) => {},
            }
        },
        TermX::First(inner) => {
            lemma_output_never_retracted(fuel, *inner, env, st);
        },
        TermX::Second(inner) => {
            lemma_output_never_retracted(fuel, *inner, env, st);
        },
        TermX::Print(inner) => {
            lemma_output_never_retracted(fuel, *inner, env, st);
            match eval_step(fuel, *inner, env, st) {
                StepX::Done(v, st1) => {
                    if !(v is Unit) {
                        lemma_prefix_push(st1.out, render_x(v));
                        lemma_prefix_trans(st.out, st1.out, st1.out.push(render_x(v)));
                    }
                },
                StepX::Fail(_, _) => {},
            }
        },
    }
}

/// The same, for the evaluation of an argument list.
proof fn lemma_output_args_never_retracted(
    fuel: nat,
    args: Seq<TermX>,
    i: int,
    env: EnvX,
    st: StateX,
)
    ensures
        match eval_args(fuel, args, i, env, st) {
            ArgsStepX::Done(_, st1) => st.out.is_prefix_of(st1.out),
            ArgsStepX::Fail(_, st1) => st.out.is_prefix_of(st1.out),
        },
    decreases fuel, args, args.len() - i,
{
    if i < 0 || i >= args.len() {
        lemma_prefix_refl(st.out);
    } else {
        lemma_output_never_retracted(fuel, args[i], env, st);
        match eval_step(fuel, args[i], env, st) {
            StepX::Done(_, st1) => {
                lemma_output_args_never_retracted(fuel, args, i + 1, env, st1);
                match eval_args(fuel, args, i + 1, env, st1) {
                    ArgsStepX::Done(_, st2) => lemma_prefix_trans(st.out, st1.out, st2.out),
                    ArgsStepX::Fail(_, st2) => lemma_prefix_trans(st.out, st1.out, st2.out),
                }
            },
            StepX::Fail(_, _) => {},
        }
    }
}

/// Whether a step was cut short by the recursion budget.
pub open spec fn budget_exhausted(s: StepX) -> bool {
    s matches StepX::Fail(ErrX::DepthLimit, _)
}

/// The recursion budget is only a resource limit, not part of the meaning
/// of a program: a step that was not cut short by the budget comes out the
/// same — value, error, cache and output — under every larger budget.
pub proof fn lemma_budget_immaterial(fuel: nat, more: nat, t: TermX, env: EnvX, st: StateX)
    requires
        fuel <= more,
        !budget_exhausted(eval_step(fuel, t, env, st)),
    ensures
        eval_step(more, t, env, st) == eval_step(fuel, t, env, st),
    decreases fuel, t, 0int,
{
    match t {
        TermX::Int(_) => {},
        TermX::Str(_) => {},
        TermX::Bool(_) => {},
        TermX::Var(_) => {},
        TermX::Function(_, _) => {},
        TermX::Binary(_, lhs, rhs) => {
            lemma_budget_immaterial(fuel, more, *lhs, env, st);
            match eval_step(fuel, *lhs, env, st) {
                StepX::Done(_, st1) => {
                    lemma_budget_immaterial(fuel, more, *rhs, env, st1);
                },
                StepX::Fail(_, _) => {},
            }
        },
        TermX::Let(name, value, next) => {
            lemma_budget_immaterial(fuel, more, *value, env, st);
            match eval_step(fuel, *value, env, st) {
                StepX::Done(v, st1) => {
                    let env1 = seq![(name, fixup_x(name, v))] + env;
                    lemma_budget_immaterial(fuel, more, *next, env1, st1);
                },
                StepX::Fail(_, _) => {},
            }
        },
        TermX::Call(callee, args) => {
            lemma_budget_immaterial(fuel, more, *callee, env, st);
            match eval_step(fuel, *callee, env, st) {
                StepX::Done(f, st1) => match f {
                    ValueX::Function { name, parameters, body, env: cenv } => {
                        lemma_budget_args_immaterial(fuel, more, args, 0, env, st1);
                        match eval_args(fuel, args, 0, env, st1) {
                            ArgsStepX::Done(vs, st2) => {
                                if vs.len() == parameters.len() {
                                    let env_call = bind_params(
                                        parameters,
                                        vs,
                                        if name.len() > 0 {
                                            seq![(name, f)] + cenv
                                        } else {
                                            cenv
                                        },
                                    );
                                    let hit = name.len() > 0 && all_primitive(vs)
                                        && memo_lookup(
                                        st2.memo,
                                        KeyX { name, args: args_key(vs) },
                                    ) is Some;
                                    if !hit {
                                        assert(fuel > 0);
                                        lemma_budget_immaterial(
                                            (fuel - 1) as nat,
                                            (more - 1) as nat,
                                            body,
                                            env_call,
                                            st2,
                                        );
                                    }
                                }
                            },
                            ArgsStepX::Fail(_, _) => {},
                        }
                    },
                    _ => {},
                },
                StepX::Fail(_, _) => {},
            }
        },
        TermX::If(condition, then, otherwise) => {
            lemma_budget_immaterial(fuel, more, *condition, env, st);
            match eval_step(fuel, *condition, env, st) {
                StepX::Done(v, st1) => {
                    if v == ValueX::Bool(true) {
                        lemma_budget_immaterial(fuel, more, *then, env, st1);
                    } else if v == ValueX::Bool(false) {
                        lemma_budget_immaterial(fuel, more, *otherwise, env, st1);
                    }
                },
                StepX::Fail(_, _) => {},
            }
        },
        TermX::Tuple(first, second) => {
            lemma_budget_immaterial(fuel, more, *first, env, st);
            match eval_step(fuel, *first, env, st) {
                StepX::Done(_, st1) => {
                    lemma_budget_immaterial(fuel, more, *second, env, st1);
                },
                StepX::Fail(_, _) => {},
            }
        },
        TermX::First(inner) => {
            lemma_budget_immaterial(fuel, more, *inner, env, st);
        },
        TermX::Second(inner) => {
            lemma_budget_immaterial(fuel, more, *inner, env, st);
        },
        TermX::Print(inner) => {
            lemma_budget_immaterial(fuel, more, *inner, env, st);
        },
    }
}

/// The same, for the evaluation of an argument list.
proof fn lemma_budget_args_immaterial(
    fuel: nat,
    more: nat,
    args: Seq<TermX>,
    i: int,
    env: EnvX,
    st: StateX,
)
    requires
        fuel <= more,
        !(eval_args(fuel, args, i, env, st) matches ArgsStepX::Fail(ErrX::DepthLimit, _)),
    ensures
        eval_args(more, args, i, env, st) == eval_args(fuel, args, i, env, st),
    decreases fuel, args, args.len() - i,
{
    if i < 0 || i >= args.len() {
    } else {
        lemma_budget_immaterial(fuel, more, args[i], env, st);
        match eval_step(fuel, args[i], env, st) {
            StepX::Done(_, st1) => {
                lemma_budget_args_immaterial(fuel, more, args, i + 1, env, st1);
            },
            StepX::Fail(_, _) => {},
        }
    }
}

} // verus!
