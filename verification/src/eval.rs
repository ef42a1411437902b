//! The evaluator. `eval_step` is the definition of the language's runtime
//! semantics, written as a total specification function over the abstract
//! syntax: it threads the memoization cache and the output lines through
//! every rule, and consumes one unit of recursion budget per call frame.
//! The executable `Interpreter` is proved to return, and to leave its cache
//! and output in, exactly what `eval_step` says.
//!
//! Evaluation order is fixed: operands left before right, both always;
//! exactly one branch of a conditional; a call evaluates the callee, checks
//! that it is a closure, evaluates every argument in the caller's
//! environment, checks the arity, and only then consults the cache.
//!
//! A `let` whose bound value is a still-anonymous closure stamps the bound
//! name onto it; a call brings that name back into scope inside the callee,
//! which is what lets a closure call itself.

use std::rc::Rc;
use vstd::prelude::*;
use crate::ast::{Term, TermList, TermX, term_list_view, term_view};
use crate::errors::{ErrX, EvalError, Operation, ValueKind, err_view, kind_of};
use crate::memo::{
    KeyX, MemoTable, all_primitive, args_key, make_key, memo_lookup, vals_view,
};
use crate::ops::{apply_binop, binop_x};
use crate::render::{render_value, render_x};
use crate::value::{ClosureData, EnvX, Environment, Primitive, ValueX, lookup_x, prim_view, rc_dup};

verus! {

/// The recursion budget that the plain entry points hand to the evaluator:
/// it bounds the depth of nested calls, standing in for the call stack of
/// the host.
pub const DEFAULT_FUEL: u64 = 1000000;

/// The state an evaluation threads along: the memoization cache and the
/// lines printed so far.
#[verifier::ext_equal]
pub struct StateX {
    pub memo: Seq<(KeyX, ValueX)>,
    pub out: Seq<Seq<char>>,
}

/// The outcome of evaluating one term: a value, or a fatal error. Either
/// way the state records what was printed before; printed lines are never
/// retracted.
#[verifier::ext_equal]
pub enum StepX {
    Done(ValueX, StateX),
    Fail(ErrX, StateX),
}

/// The outcome of evaluating an argument list, left to right.
#[verifier::ext_equal]
pub enum ArgsStepX {
    Done(Seq<ValueX>, StateX),
    Fail(ErrX, StateX),
}

/// The name stamped onto a closure by `let`: a closure that is still
/// anonymous takes the bound name; one that already carries a name keeps
/// it, so that a rebinding does not cut its recursion off.
pub open spec fn fixup_x(name: Seq<char>, v: ValueX) -> ValueX {
    match v {
        ValueX::Function { name: n, parameters, body, env } => if n.len() == 0 {
            ValueX::Function { name, parameters, body, env }
        } else {
            v
        },
        _ => v,
    }
}

/// The callee's execution environment: the captured environment, extended
/// with the parameters bound to the argument values, first parameter
/// innermost last, so that a later parameter of the same name shadows an
/// earlier one.
pub open spec fn bind_params(params: Seq<Seq<char>>, vals: Seq<ValueX>, env: EnvX) -> EnvX
    decreases params.len(),
{
    if params.len() == 0 {
        env
    } else {
        bind_params(params.drop_first(), vals.drop_first(), seq![(params[0], vals[0])] + env)
    }
}

/// The runtime semantics, one rule per syntax node.
pub open spec fn eval_step(fuel: nat, t: TermX, env: EnvX, st: StateX) -> StepX
    decreases fuel, t, 0int,
{
    match t {
        TermX::Int(v) => StepX::Done(ValueX::Int(v), st),
        TermX::Str(s) => StepX::Done(ValueX::Str(s), st),
        TermX::Bool(b) => StepX::Done(ValueX::Bool(b), st),
        TermX::Var(name) => match lookup_x(env, name) {
            Option::Some(v) => StepX::Done(v, st),
            Option::None => StepX::Fail(ErrX::UnboundVariable(name), st),
        },
        TermX::Binary(op, lhs, rhs) => match eval_step(fuel, *lhs, env, st) {
            StepX::Fail(e, st1) => StepX::Fail(e, st1),
            StepX::Done(l, st1) => match eval_step(fuel, *rhs, env, st1) {
                StepX::Fail(e, st2) => StepX::Fail(e, st2),
                StepX::Done(r, st2) => match binop_x(op, l, r) {
                    Result::Ok(v) => StepX::Done(v, st2),
                    Result::Err(e) => StepX::Fail(e, st2),
                },
            },
        },
        TermX::Let(name, value, next) => match eval_step(fuel, *value, env, st) {
            StepX::Fail(e, st1) => StepX::Fail(e, st1),
            StepX::Done(v, st1) => eval_step(
                fuel,
                *next,
                seq![(name, fixup_x(name, v))] + env,
                st1,
            ),
        },
        TermX::Function(params, body) => StepX::Done(
            ValueX::Function { name: Seq::empty(), parameters: params, body: *body, env },
            st,
        ),
        TermX::Call(callee, args) => match eval_step(fuel, *callee, env, st) {
            StepX::Fail(e, st1) => StepX::Fail(e, st1),
            StepX::Done(f, st1) => match f {
                ValueX::Function { name, parameters, body, env: cenv } => match eval_args(
                    fuel,
                    args,
                    0,
                    env,
                    st1,
                ) {
                    ArgsStepX::Fail(e, st2) => StepX::Fail(e, st2),
                    ArgsStepX::Done(vs, st2) => if vs.len() != parameters.len() {
                        StepX::Fail(ErrX::ArityMismatch(name, parameters.len(), vs.len()), st2)
                    } else {
                        let env_call = bind_params(
                            parameters,
                            vs,
                            if name.len() > 0 {
                                seq![(name, f)] + cenv
                            } else {
                                cenv
                            },
                        );
                        if name.len() > 0 && all_primitive(vs) {
                            let k = KeyX { name, args: args_key(vs) };
                            match memo_lookup(st2.memo, k) {
                                Option::Some(v) => StepX::Done(v, st2),
                                Option::None => if fuel == 0 {
                                    StepX::Fail(ErrX::DepthLimit, st2)
                                } else {
                                    match eval_step((fuel - 1) as nat, body, env_call, st2) {
                                        StepX::Done(v, st3) => StepX::Done(
                                            v,
                                            StateX { memo: st3.memo.push((k, v)), out: st3.out },
                                        ),
                                        StepX::Fail(e, st3) => StepX::Fail(e, st3),
                                    }
                                },
                            }
                        } else {
                            if fuel == 0 {
                                StepX::Fail(ErrX::DepthLimit, st2)
                            } else {
                                eval_step((fuel - 1) as nat, body, env_call, st2)
                            }
                        }
                    },
                },
                _ => StepX::Fail(
                    ErrX::TypeMismatch(Operation::Call, ValueKind::Function, kind_of(f)),
                    st1,
                ),
            },
        },
        TermX::If(condition, then, otherwise) => match eval_step(fuel, *condition, env, st) {
            StepX::Fail(e, st1) => StepX::Fail(e, st1),
            StepX::Done(v, st1) => match v {
                ValueX::Bool(true) => eval_step(fuel, *then, env, st1),
                ValueX::Bool(false) => eval_step(fuel, *otherwise, env, st1),
                _ => StepX::Fail(ErrX::NonBooleanCondition, st1),
            },
        },
        TermX::Tuple(first, second) => match eval_step(fuel, *first, env, st) {
            StepX::Fail(e, st1) => StepX::Fail(e, st1),
            StepX::Done(a, st1) => match eval_step(fuel, *second, env, st1) {
                StepX::Fail(e, st2) => StepX::Fail(e, st2),
                StepX::Done(b, st2) => StepX::Done(
                    ValueX::Tuple(Box::new(a), Box::new(b)),
                    st2,
                ),
            },
        },
        TermX::First(inner) => match eval_step(fuel, *inner, env, st) {
            StepX::Fail(e, st1) => StepX::Fail(e, st1),
            StepX::Done(v, st1) => match v {
                ValueX::Tuple(a, _) => StepX::Done(*a, st1),
                _ => StepX::Fail(ErrX::ProjectionOnNonTuple, st1),
            },
        },
        TermX::Second(inner) => match eval_step(fuel, *inner, env, st) {
            StepX::Fail(e, st1) => StepX::Fail(e, st1),
            StepX::Done(v, st1) => match v {
                ValueX::Tuple(_, b) => StepX::Done(*b, st1),
                _ => StepX::Fail(ErrX::ProjectionOnNonTuple, st1),
            },
        },
        TermX::Print(inner) => match eval_step(fuel, *inner, env, st) {
            StepX::Fail(e, st1) => StepX::Fail(e, st1),
            StepX::Done(v, st1) => StepX::Done(
                ValueX::Unit,
                StateX {
                    memo: st1.memo,
                    out: if v is Unit {
                        st1.out
                    } else {
                        st1.out.push(render_x(v))
                    },
                },
            ),
        },
    }
}

/// Evaluating the arguments of a call from position `i` on, left to right,
/// in the caller's environment.
pub open spec fn eval_args(fuel: nat, args: Seq<TermX>, i: int, env: EnvX, st: StateX) -> ArgsStepX
    decreases fuel, args, args.len() - i,
{
    if i < 0 || i >= args.len() {
        ArgsStepX::Done(Seq::empty(), st)
    } else {
        match eval_step(fuel, args[i], env, st) {
            StepX::Fail(e, st1) => ArgsStepX::Fail(e, st1),
            StepX::Done(v, st1) => match eval_args(fuel, args, i + 1, env, st1) {
                ArgsStepX::Fail(e, st2) => ArgsStepX::Fail(e, st2),
                ArgsStepX::Done(vs, st2) => ArgsStepX::Done(seq![v] + vs, st2),
            },
        }
    }
}

/// Shifting the start index past a prepended head leaves an argument
/// evaluation unchanged.
proof fn lemma_eval_args_shift(fuel: nat, h: TermX, rest: Seq<TermX>, i: int, env: EnvX, st: StateX)
    requires
        0 <= i <= rest.len(),
    ensures
        eval_args(fuel, seq![h] + rest, i + 1, env, st) == eval_args(fuel, rest, i, env, st),
    decreases rest.len() - i,
{
    let full = seq![h] + rest;
    if i >= rest.len() {
        assert(i + 1 >= full.len());
    } else {
        assert(full[i + 1] == rest[i]);
        match eval_step(fuel, rest[i], env, st) {
            StepX::Done(v, st1) => {
                lemma_eval_args_shift(fuel, h, rest, i + 1, env, st1);
            },
            StepX::Fail(_, _) => {},
        }
    }
}

/// How an executable result and final state realize a specification step.
pub open spec fn step_match(s: StepX, r: Result<Primitive, EvalError>, st: StateX) -> bool {
    match r {
        Result::Ok(p) => s == StepX::Done(prim_view(p), st),
        Result::Err(e) => s == StepX::Fail(err_view(e), st),
    }
}

/// How an executable argument-list result realizes a specification step.
pub open spec fn args_match(s: ArgsStepX, r: Result<Vec<Primitive>, EvalError>, st: StateX) -> bool {
    match r {
        Result::Ok(vs) => s == ArgsStepX::Done(vals_view(vs@), st),
        Result::Err(e) => s == ArgsStepX::Fail(err_view(e), st),
    }
}

/// The abstraction of the printed lines.
pub open spec fn out_view(out: Seq<String>) -> Seq<Seq<char>> {
    out.map_values(|s: String| s@)
}

/// The evaluator: the memoization cache and the output lines of one run.
/// The cache is owned by this instance, so independent runs share nothing.
pub struct Interpreter {
    pub memo: MemoTable,
    pub output: Vec<String>,
}

impl View for Interpreter {
    type V = StateX;

    open spec fn view(&self) -> StateX {
        StateX { memo: self.memo@, out: out_view(self.output@) }
    }
}

/// The callee's execution environment, built binding by binding.
fn bind_params_exec(params: &Vec<String>, vals: &Vec<Primitive>, env: Environment) -> (r:
    Environment)
    requires
        params@.len() == vals@.len(),
    ensures
        r@ == bind_params(crate::ast::params_view(params@), vals_view(vals@), env@),
{
    let ghost pv = crate::ast::params_view(params@);
    let ghost vv = vals_view(vals@);
    let ghost env0 = env@;
    let n = params.len();
    let mut cur = env;
    let mut i: usize = 0;
    proof {
        assert(pv.skip(0) =~= pv);
        assert(vv.skip(0) =~= vv);
    }
    while i < n
        invariant
            i <= n,
            n == params@.len(),
            params@.len() == vals@.len(),
            pv == crate::ast::params_view(params@),
            vv == vals_view(vals@),
            bind_params(pv, vv, env0) == bind_params(pv.skip(i as int), vv.skip(i as int), cur@),
        decreases n - i,
    {
        let name = params[i].clone();
        let v = vals[i].dup();
        proof {
            assert(pv.skip(i as int)[0] == pv[i as int]);
            assert(vv.skip(i as int)[0] == vv[i as int]);
            assert(pv.skip(i as int).drop_first() =~= pv.skip(i as int + 1));
            assert(vv.skip(i as int).drop_first() =~= vv.skip(i as int + 1));
            assert(name@ == pv[i as int]);
            assert(prim_view(v) == vv[i as int]);
        }
        cur = cur.bind(name, v);
        i += 1;
    }
    proof {
        assert(pv.skip(n as int).len() == 0);
    }
    cur
}

impl Interpreter {
    /// A fresh evaluator: empty cache, no output yet.
    pub fn new() -> (r: Interpreter)
        ensures
            r@ == (StateX { memo: Seq::empty(), out: Seq::empty() }),
    {
        let r = Interpreter { memo: MemoTable::new(), output: Vec::new() };
        proof {
            assert(out_view(r.output@) =~= Seq::<Seq<char>>::empty());
            assert(r@ =~= StateX { memo: Seq::empty(), out: Seq::empty() });
        }
        r
    }

    /// One rule of the semantics, dispatched on the node kind. Returns and
    /// changes this evaluator exactly as `eval_step` says.
    pub fn visit(&mut self, term: &Term, env: &Environment, fuel: u64) -> (r: Result<
        Primitive,
        EvalError,
    >)
        ensures
            step_match(eval_step(fuel as nat, term@, env@, old(self)@), r, final(self)@),
        decreases fuel, *term, 1int,
    {
        match term {
            Term::Int(v) => Ok(Primitive::Int(*v)),
            Term::Str(s) => Ok(Primitive::Str(s.clone())),
            Term::Bool(b) => Ok(Primitive::Bool(*b)),
            Term::Var(name) => self.visit_var(name, env),
            Term::Binary { op, lhs, rhs } => {
                let l = match self.visit(lhs, env, fuel) {
                    Ok(l) => l,
                    Err(e) => {
                        return Err(e);
                    },
                };
                let r = match self.visit(rhs, env, fuel) {
                    Ok(r) => r,
                    Err(e) => {
                        return Err(e);
                    },
                };
                apply_binop(*op, l, r)
            },
            Term::Let { name, value, next } => {
                let bound = match self.visit(value, env, fuel) {
                    Ok(v) => v,
                    Err(e) => {
                        return Err(e);
                    },
                };
                let fixed = fixup(name, bound);
                let extended = env.bind(name.clone(), fixed);
                self.visit(next, &extended, fuel)
            },
            Term::Function(f) => Ok(
                Primitive::Function(
                    Rc::new(ClosureData { name: String::new(), func: rc_dup(f), env: env.dup() }),
                ),
            ),
            Term::Call { .. } => self.visit_call(term, env, fuel),
            Term::If { condition, then, otherwise } => {
                let c = match self.visit(condition, env, fuel) {
                    Ok(v) => v,
                    Err(e) => {
                        return Err(e);
                    },
                };
                match c {
                    Primitive::Bool(true) => self.visit(then, env, fuel),
                    Primitive::Bool(false) => self.visit(otherwise, env, fuel),
                    _ => Err(EvalError::NonBooleanCondition),
                }
            },
            Term::Tuple { first, second } => {
                let a = match self.visit(first, env, fuel) {
                    Ok(v) => v,
                    Err(e) => {
                        return Err(e);
                    },
                };
                let b = match self.visit(second, env, fuel) {
                    Ok(v) => v,
                    Err(e) => {
                        return Err(e);
                    },
                };
                Ok(Primitive::Tuple(Rc::new(a), Rc::new(b)))
            },
            Term::First(inner) => {
                let v = match self.visit(inner, env, fuel) {
                    Ok(v) => v,
                    Err(e) => {
                        return Err(e);
                    },
                };
                match v {
                    Primitive::Tuple(a, _) => Ok(a.dup()),
                    _ => Err(EvalError::ProjectionOnNonTuple),
                }
            },
            Term::Second(inner) => {
                let v = match self.visit(inner, env, fuel) {
                    Ok(v) => v,
                    Err(e) => {
                        return Err(e);
                    },
                };
                match v {
                    Primitive::Tuple(_, b) => Ok(b.dup()),
                    _ => Err(EvalError::ProjectionOnNonTuple),
                }
            },
            Term::Print(inner) => {
                let v = match self.visit(inner, env, fuel) {
                    Ok(v) => v,
                    Err(e) => {
                        return Err(e);
                    },
                };
                match &v {
                    Primitive::Unit => {},
                    _ => {
                        let line = render_value(&v);
                        let ghost before = out_view(self.output@);
                        self.output.push(line);
                        proof {
                            assert(out_view(self.output@) =~= before.push(render_x(prim_view(v))));
                        }
                    },
                }
                Ok(Primitive::Unit)
            },
        }
    }

    /// The variable rule: look the name up; an unbound name is fatal.
    fn visit_var(&mut self, name: &String, env: &Environment) -> (r: Result<Primitive, EvalError>)
        ensures
            step_match(
                eval_step(0, TermX::Var(name@), env@, old(self)@),
                r,
                final(self)@,
            ),
            old(self)@ == final(self)@,
    {
        match env.get(name) {
            Some(p) => Ok(p.dup()),
            None => Err(EvalError::UnboundVariable { name: name.clone() }),
        }
    }

    /// The call rule: callee, then arguments, then arity, then the cache.
    fn visit_call(&mut self, term: &Term, env: &Environment, fuel: u64) -> (r: Result<
        Primitive,
        EvalError,
    >)
        requires
            term is Call,
        ensures
            step_match(eval_step(fuel as nat, term@, env@, old(self)@), r, final(self)@),
        decreases fuel, *term, 0int,
    {
        match term {
            Term::Call { callee, arguments } => {
                let f = match self.visit(callee, env, fuel) {
                    Ok(v) => v,
                    Err(e) => {
                        return Err(e);
                    },
                };
                let c = match f {
                    Primitive::Function(c) => c,
                    other => {
                        let k = other.kind();
                        return Err(EvalError::TypeMismatch {
                            operation: Operation::Call,
                            expected: ValueKind::Function,
                            actual: k,
                        });
                    },
                };
                let vals = match self.visit_args(arguments, env, fuel) {
                    Ok(vs) => vs,
                    Err(e) => {
                        return Err(e);
                    },
                };
                if vals.len() != c.func.parameters.len() {
                    return Err(EvalError::ArityMismatch {
                        function: c.name.clone(),
                        expected_count: c.func.parameters.len(),
                        actual_count: vals.len(),
                    });
                }
                let named = !c.name.as_str().is_empty();
                let env_self = if named {
                    c.env.bind(c.name.clone(), Primitive::Function(rc_dup(&c)))
                } else {
                    c.env.dup()
                };
                let env_call = bind_params_exec(&c.func.parameters, &vals, env_self);
                if named {
                    match make_key(&c.name, &vals) {
                        Some(k) => {
                            let cached = match self.memo.get(&k) {
                                Some(p) => Some(p.dup()),
                                None => None,
                            };
                            match cached {
                                Some(v) => Ok(v),
                                None => {
                                    if fuel == 0 {
                                        return Err(EvalError::DepthLimit);
                                    }
                                    match self.visit(&c.func.value, &env_call, fuel - 1) {
                                        Ok(v) => {
                                            self.memo.insert(k, v.dup());
                                            Ok(v)
                                        },
                                        Err(e) => Err(e),
                                    }
                                },
                            }
                        },
                        None => {
                            if fuel == 0 {
                                return Err(EvalError::DepthLimit);
                            }
                            self.visit(&c.func.value, &env_call, fuel - 1)
                        },
                    }
                } else {
                    if fuel == 0 {
                        return Err(EvalError::DepthLimit);
                    }
                    self.visit(&c.func.value, &env_call, fuel - 1)
                }
            },
            _ => unreached(),
        }
    }

    /// The arguments of a call, evaluated left to right in the caller's
    /// environment.
    fn visit_args(&mut self, l: &TermList, env: &Environment, fuel: u64) -> (r: Result<
        Vec<Primitive>,
        EvalError,
    >)
        ensures
            args_match(
                eval_args(fuel as nat, term_list_view(*l), 0, env@, old(self)@),
                r,
                final(self)@,
            ),
        decreases fuel, *l, 0int,
    {
        match l {
            TermList::Nil => {
                let vs: Vec<Primitive> = Vec::new();
                proof {
                    assert(vals_view(vs@) =~= Seq::<ValueX>::empty());
                }
                Ok(vs)
            },
            TermList::Cons(h, t) => {
                let ghost full = term_list_view(*l);
                let ghost tv = term_list_view(**t);
                proof {
                    assert(full == seq![term_view(*h)] + tv);
                    assert(full[0] == term_view(*h));
                    assert(full.len() == 1 + tv.len());
                }
                let v = match self.visit(h, env, fuel) {
                    Ok(v) => v,
                    Err(e) => {
                        return Err(e);
                    },
                };
                let ghost st1 = self@;
                let mut rest = match self.visit_args(t, env, fuel) {
                    Ok(vs) => vs,
                    Err(e) => {
                        proof {
                            lemma_eval_args_shift(
                                fuel as nat,
                                term_view(*h),
                                tv,
                                0,
                                env@,
                                st1,
                            );
                        }
                        return Err(e);
                    },
                };
                proof {
                    lemma_eval_args_shift(fuel as nat, term_view(*h), tv, 0, env@, st1);
                }
                let ghost rest_vals = vals_view(rest@);
                rest.insert(0, v);
                proof {
                    assert(vals_view(rest@) =~= seq![prim_view(v)] + rest_vals);
                }
                Ok(rest)
            },
        }
    }

    /// Evaluate one whole program: the root expression in the empty
    /// environment, with the given recursion budget.
    pub fn interpret(&mut self, ast: &Term, fuel: u64) -> (r: Result<Primitive, EvalError>)
        ensures
            step_match(
                eval_step(fuel as nat, ast@, Seq::empty(), old(self)@),
                r,
                final(self)@,
            ),
    {
        let env = Environment::empty();
        self.visit(ast, &env, fuel)
    }
}

/// The name stamped onto a just-bound closure (see `fixup_x`).
fn fixup(name: &String, v: Primitive) -> (r: Primitive)
    ensures
        prim_view(r) == fixup_x(name@, prim_view(v)),
{
    match v {
        Primitive::Function(c) => {
            if c.name.as_str().is_empty() {
                Primitive::Function(
                    Rc::new(
                        ClosureData {
                            name: name.clone(),
                            func: rc_dup(&c.func),
                            env: c.env.dup(),
                        },
                    ),
                )
            } else {
                Primitive::Function(c)
            }
        },
        other => other,
    }
}

/// How one whole run relates to the semantics: the result and the printed
/// lines are the ones `eval_step` gives on the empty environment, empty
/// cache and empty output.
pub open spec fn run_match(
    fuel: nat,
    t: TermX,
    r: Result<Primitive, EvalError>,
    out: Seq<Seq<char>>,
) -> bool {
    match eval_step(fuel, t, Seq::empty(), StateX { memo: Seq::empty(), out: Seq::empty() }) {
        StepX::Done(v, st) => r matches Result::Ok(p) && prim_view(p) == v && out == st.out,
        StepX::Fail(e, st) => r matches Result::Err(x) && err_view(x) == e && out == st.out,
    }
}

/// Run one program on a fresh evaluator with the given recursion budget;
/// the result and the lines it printed, in order.
pub fn evaluate(t: &Term, fuel: u64) -> (r: (Result<Primitive, EvalError>, Vec<String>))
    ensures
        run_match(fuel as nat, t@, r.0, out_view(r.1@)),
{
    let mut interpreter = Interpreter::new();
    let result = interpreter.interpret(t, fuel);
    (result, interpreter.output)
}

/// Run one program with the default recursion budget.
#[allow(non_snake_case)]
pub fn startInterpret(t: &Term) -> (r: (Result<Primitive, EvalError>, Vec<String>))
    ensures
        run_match(DEFAULT_FUEL as nat, t@, r.0, out_view(r.1@)),
{
    evaluate(t, DEFAULT_FUEL)
}

} // verus!
