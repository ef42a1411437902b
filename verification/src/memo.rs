//! The call memoization cache. A call is cached under the callee's bound
//! name together with the evaluated argument values, and only when every
//! argument is of a primitive kind (integer, string, boolean) and the
//! callee has a name; a call with a closure or tuple argument, or to an
//! anonymous closure, is never cached. This restriction is what keeps the
//! cache from conflating calls that differ in an argument a key cannot
//! express: two calls share an entry only when their keys pin down the same
//! primitive argument values.
//!
//! For caching, a closure's identity is the name `let` bound it to: the
//! design assumes each name stands for one function over a run. A program
//! that rebinds an already-used name to a different function and repeats an
//! already-cached argument list gets the earlier entry.
//!
//! The cache lives for a whole evaluation run and is never evicted: it
//! trades memory for time so that naively recursive numeric programs finish
//! in reasonable time.

use vstd::prelude::*;
use crate::value::{Primitive, ValueX, prim_view};

verus! {

/// One cached argument: the primitive kinds only.
pub enum ArgKey {
    Int(i32),
    Str(String),
    Bool(bool),
}

/// The identity of a memoized call: the callee's bound name and its
/// evaluated primitive arguments, in order.
pub struct CallKey {
    pub name: String,
    pub args: Vec<ArgKey>,
}

/// Specification-level twin of `ArgKey`.
#[verifier::ext_equal]
pub enum ArgX {
    Int(i32),
    Str(Seq<char>),
    Bool(bool),
}

/// Specification-level twin of `CallKey`.
#[verifier::ext_equal]
pub struct KeyX {
    pub name: Seq<char>,
    pub args: Seq<ArgX>,
}

/// The abstraction of one cached argument.
pub open spec fn arg_view(a: ArgKey) -> ArgX {
    match a {
        ArgKey::Int(v) => ArgX::Int(v),
        ArgKey::Str(s) => ArgX::Str(s@),
        ArgKey::Bool(b) => ArgX::Bool(b),
    }
}

impl View for CallKey {
    type V = KeyX;

    open spec fn view(&self) -> KeyX {
        KeyX { name: self.name@, args: self.args@.map_values(|a: ArgKey| arg_view(a)) }
    }
}

/// The cache key of one value; meaningful only for the primitive kinds.
pub open spec fn arg_of(v: ValueX) -> ArgX {
    match v {
        ValueX::Int(i) => ArgX::Int(i),
        ValueX::Str(s) => ArgX::Str(s),
        ValueX::Bool(b) => ArgX::Bool(b),
        _ => ArgX::Int(0),
    }
}

/// Whether a value is of a primitive kind, so that it can stand in a key.
pub open spec fn is_primitive(v: ValueX) -> bool {
    v is Int || v is Str || v is Bool
}

/// Whether every argument is of a primitive kind.
pub open spec fn all_primitive(vs: Seq<ValueX>) -> bool {
    forall|i: int| 0 <= i < vs.len() ==> is_primitive(#[trigger] vs[i])
}

/// The key part of a list of primitive argument values.
pub open spec fn args_key(vs: Seq<ValueX>) -> Seq<ArgX> {
    vs.map_values(|v: ValueX| arg_of(v))
}

/// The abstraction of a list of runtime values.
pub open spec fn vals_view(vs: Seq<Primitive>) -> Seq<ValueX> {
    vs.map_values(|p: Primitive| prim_view(p))
}

/// Looking a key up in the cache model: the most recent store wins.
pub open spec fn memo_lookup(m: Seq<(KeyX, ValueX)>, k: KeyX) -> Option<ValueX>
    decreases m.len(),
{
    if m.len() == 0 {
        Option::None
    } else if m.last().0 == k {
        Option::Some(m.last().1)
    } else {
        memo_lookup(m.drop_last(), k)
    }
}

/// Whether two cached arguments are the same.
fn arg_eq(x: &ArgKey, y: &ArgKey) -> (r: bool)
    ensures
        r == (arg_view(*x) == arg_view(*y)),
{
    match (x, y) {
        (ArgKey::Int(a), ArgKey::Int(b)) => *a == *b,
        (ArgKey::Str(s), ArgKey::Str(t)) => *s == *t,
        (ArgKey::Bool(a), ArgKey::Bool(b)) => *a == *b,
        _ => false,
    }
}

/// Whether two call keys are the same.
pub fn key_eq(a: &CallKey, b: &CallKey) -> (r: bool)
    ensures
        r == (a@ == b@),
{
    if !(a.name == b.name) {
        return false;
    }
    if a.args.len() != b.args.len() {
        assert(a@.args.len() != b@.args.len());
        return false;
    }
    let n = a.args.len();
    let mut i: usize = 0;
    while i < n
        invariant
            i <= n,
            n == a.args.len(),
            n == b.args.len(),
            forall|j: int| 0 <= j < i ==> arg_view(a.args@[j]) == arg_view(b.args@[j]),
        decreases n - i,
    {
        if !arg_eq(&a.args[i], &b.args[i]) {
            assert(a@.args[i as int] != b@.args[i as int]);
            return false;
        }
        i += 1;
    }
    proof {
        assert(a@.args =~= b@.args);
        assert(a@ =~= b@);
    }
    true
}

/// The cache: a list of stores, most recent last.
pub struct MemoTable {
    pub entries: Vec<(CallKey, Primitive)>,
}

impl View for MemoTable {
    type V = Seq<(KeyX, ValueX)>;

    open spec fn view(&self) -> Seq<(KeyX, ValueX)> {
        self.entries@.map_values(|e: (CallKey, Primitive)| (e.0@, prim_view(e.1)))
    }
}

impl MemoTable {
    /// The empty cache, built at the start of an evaluation run.
    pub fn new() -> (r: MemoTable)
        ensures
            r@ == Seq::<(KeyX, ValueX)>::empty(),
    {
        let r = MemoTable { entries: Vec::new() };
        proof {
            assert(r@ =~= Seq::<(KeyX, ValueX)>::empty());
        }
        r
    }

    /// The value cached under `k`, if any.
    pub fn get(&self, k: &CallKey) -> (r: Option<&Primitive>)
        ensures
            match r {
                Option::Some(p) => memo_lookup(self@, k@) == Option::Some(prim_view(*p)),
                Option::None => memo_lookup(self@, k@) is None,
            },
    {
        let ghost full = self@;
        let n = self.entries.len();
        proof {
            assert(self.entries@.take(n as int) =~= self.entries@);
        }
        let mut i: usize = n;
        while i > 0
            invariant
                i <= n,
                n == self.entries.len(),
                full == self@,
                memo_lookup(full, k@) == memo_lookup(
                    self.entries@.take(i as int).map_values(
                        |e: (CallKey, Primitive)| (e.0@, prim_view(e.1)),
                    ),
                    k@,
                ),
            decreases i,
        {
            let entry = &self.entries[i - 1];
            let ghost prefix = self.entries@.take(i as int).map_values(
                |e: (CallKey, Primitive)| (e.0@, prim_view(e.1)),
            );
            proof {
                assert(prefix.last() == (entry.0@, prim_view(entry.1)));
                assert(prefix.drop_last() =~= self.entries@.take(i - 1).map_values(
                    |e: (CallKey, Primitive)| (e.0@, prim_view(e.1)),
                ));
            }
            if key_eq(&entry.0, k) {
                return Some(&entry.1);
            }
            i -= 1;
        }
        proof {
            assert(self.entries@.take(0).map_values(
                |e: (CallKey, Primitive)| (e.0@, prim_view(e.1)),
            ) =~= Seq::<(KeyX, ValueX)>::empty());
        }
        None
    }

    /// Store a result; an existing entry for the same key is superseded.
    pub fn insert(&mut self, k: CallKey, v: Primitive)
        ensures
            final(self)@ == old(self)@.push((k@, prim_view(v))),
    {
        let ghost gk = k@;
        let ghost gv = prim_view(v);
        self.entries.push((k, v));
        proof {
            assert(self@ =~= old(self)@.push((gk, gv)));
        }
    }
}

/// The cache key for a call of `name` on `args`, or `None` when some
/// argument is not of a primitive kind and the call must not be cached.
pub fn make_key(name: &String, args: &Vec<Primitive>) -> (r: Option<CallKey>)
    ensures
        match r {
            Option::Some(k) => all_primitive(vals_view(args@)) && k@ == (KeyX {
                name: name@,
                args: args_key(vals_view(args@)),
            }),
            Option::None => !all_primitive(vals_view(args@)),
        },
{
    let mut out: Vec<ArgKey> = Vec::new();
    let n = args.len();
    let mut i: usize = 0;
    while i < n
        invariant
            i <= n,
            n == args.len(),
            out@.len() == i,
            forall|j: int| 0 <= j < i ==> is_primitive(vals_view(args@)[j]),
            forall|j: int| 0 <= j < i ==> arg_view(#[trigger] out@[j]) == arg_of(
                vals_view(args@)[j],
            ),
        decreases n - i,
    {
        match &args[i] {
            Primitive::Int(v) => out.push(ArgKey::Int(*v)),
            Primitive::Str(s) => out.push(ArgKey::Str(s.clone())),
            Primitive::Bool(b) => out.push(ArgKey::Bool(*b)),
            _ => {
                assert(!is_primitive(vals_view(args@)[i as int]));
                return None;
            },
        }
        i += 1;
    }
    let k = CallKey { name: name.clone(), args: out };
    proof {
        assert(k@.args =~= args_key(vals_view(args@)));
        assert(k@ =~= KeyX { name: name@, args: args_key(vals_view(args@)) });
    }
    Some(k)
}

} // verus!
