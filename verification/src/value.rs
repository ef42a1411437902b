//! Runtime values and environments. A value is immutable once constructed;
//! environments are persistent: extending one builds a new environment and
//! leaves every environment captured earlier untouched.

use std::rc::Rc;
use vstd::prelude::*;
use crate::ast::{FuncNode, TermX, params_view, term_view};

verus! {

/// A closure: the name it was bound to by `let` (empty while anonymous),
/// the shared function literal, and a snapshot of the environment that was
/// in effect when the literal was evaluated.
pub struct ClosureData {
    pub name: String,
    pub func: Rc<FuncNode>,
    pub env: Environment,
}

/// A runtime value: the result of evaluating a term.
pub enum Primitive {
    Int(i32),
    Str(String),
    Bool(bool),
    Function(Rc<ClosureData>),
    Tuple(Rc<Primitive>, Rc<Primitive>),
    Unit,
}

/// A persistent mapping from names to values, as a shared linked list.
/// The binding nearest the head shadows any later binding of the same name.
pub struct Environment {
    pub head: Option<Rc<EnvNode>>,
}

pub struct EnvNode {
    pub name: String,
    pub value: Primitive,
    pub rest: Environment,
}

/// The specification-level model of an environment: bindings from the most
/// recent to the oldest.
pub type EnvX = Seq<(Seq<char>, ValueX)>;

/// Specification-level twin of `Primitive`.
#[verifier::ext_equal]
pub enum ValueX {
    Int(i32),
    Str(Seq<char>),
    Bool(bool),
    Function { name: Seq<char>, parameters: Seq<Seq<char>>, body: TermX, env: EnvX },
    Tuple(Box<ValueX>, Box<ValueX>),
    Unit,
}

/// The abstraction of a runtime value.
pub open spec fn prim_view(p: Primitive) -> ValueX
    decreases p,
{
    match p {
        Primitive::Int(v) => ValueX::Int(v),
        Primitive::Str(s) => ValueX::Str(s@),
        Primitive::Bool(b) => ValueX::Bool(b),
        Primitive::Function(c) => ValueX::Function {
            name: c.name@,
            parameters: params_view(c.func.parameters@),
            body: term_view(c.func.value),
            env: env_view(c.env),
        },
        Primitive::Tuple(a, b) => ValueX::Tuple(Box::new(prim_view(*a)), Box::new(prim_view(*b))),
        Primitive::Unit => ValueX::Unit,
    }
}

/// The abstraction of an environment.
pub open spec fn env_view(e: Environment) -> EnvX
    decreases e,
{
    match e.head {
        Option::None => Seq::empty(),
        Option::Some(node) => seq![(node.name@, prim_view(node.value))] + env_view(node.rest),
    }
}

impl View for Primitive {
    type V = ValueX;

    open spec fn view(&self) -> ValueX {
        prim_view(*self)
    }
}

impl View for Environment {
    type V = EnvX;

    open spec fn view(&self) -> EnvX {
        env_view(*self)
    }
}

/// Looking a name up in the model: the first binding from the front wins.
pub open spec fn lookup_x(env: EnvX, name: Seq<char>) -> Option<ValueX>
    decreases env.len(),
{
    if env.len() == 0 {
        Option::None
    } else if env[0].0 == name {
        Option::Some(env[0].1)
    } else {
        lookup_x(env.drop_first(), name)
    }
}

/// Relies on `Rc::clone`: it returns a second handle to the same shared
/// value, without copying it.
#[verifier::external_body]
pub fn rc_dup<T>(rc: &Rc<T>) -> (r: Rc<T>)
    ensures
        r == *rc,
{
    rc.clone()
}

impl Primitive {
    /// An owned value equal to this one; closures and tuple elements are
    /// shared, not copied.
    pub fn dup(&self) -> (r: Primitive)
        ensures
            r == *self,
    {
        match self {
            Primitive::Int(v) => Primitive::Int(*v),
            Primitive::Str(s) => Primitive::Str(s.clone()),
            Primitive::Bool(b) => Primitive::Bool(*b),
            Primitive::Function(c) => Primitive::Function(rc_dup(c)),
            Primitive::Tuple(a, b) => Primitive::Tuple(rc_dup(a), rc_dup(b)),
            Primitive::Unit => Primitive::Unit,
        }
    }
}

impl Primitive {
    /// The string inside a `Str` value.
    pub fn extract_str(&self) -> (r: String)
        requires
            self@ is Str,
        ensures
            r@ == self@->Str_0,
    {
        match self {
            Primitive::Str(s) => s.clone(),
            _ => unreached(),
        }
    }

    /// The integer inside an `Int` value.
    pub fn extract_int(&self) -> (r: i32)
        requires
            self@ is Int,
        ensures
            r == self@->Int_0,
    {
        match self {
            Primitive::Int(v) => *v,
            _ => unreached(),
        }
    }

    /// The boolean inside a `Bool` value.
    pub fn extract_bool(&self) -> (r: bool)
        requires
            self@ is Bool,
        ensures
            r == self@->Bool_0,
    {
        match self {
            Primitive::Bool(b) => *b,
            _ => unreached(),
        }
    }
}

impl Environment {
    /// The environment with no bindings.
    pub fn empty() -> (r: Environment)
        ensures
            r@ == Seq::<(Seq<char>, ValueX)>::empty(),
    {
        Environment { head: None }
    }

    /// A second handle to the same environment.
    pub fn dup(&self) -> (r: Environment)
        ensures
            r == *self,
    {
        match &self.head {
            None => Environment { head: None },
            Some(node) => Environment { head: Some(rc_dup(node)) },
        }
    }

    /// The environment extended with one binding. The old environment is
    /// unaffected: a closure that captured it still sees its own bindings.
    pub fn bind(&self, name: String, value: Primitive) -> (r: Environment)
        ensures
            r@ == seq![(name@, prim_view(value))] + self@,
    {
        Environment {
            head: Some(Rc::new(EnvNode { name, value, rest: self.dup() })),
        }
    }

    /// The value bound to `name`, or `None` if `name` is unbound.
    pub fn get<'a>(&'a self, name: &String) -> (r: Option<&'a Primitive>)
        ensures
            match r {
                Option::Some(p) => lookup_x(self@, name@) == Option::Some(prim_view(*p)),
                Option::None => lookup_x(self@, name@) is None,
            },
        decreases self@.len(),
    {
        match &self.head {
            None => None,
            Some(node) => {
                if node.name == *name {
                    Some(&node.value)
                } else {
                    let r = node.rest.get(name);
                    proof {
                        assert(self@.drop_first() =~= node.rest@);
                    }
                    r
                }
            },
        }
    }
}

} // verus!
