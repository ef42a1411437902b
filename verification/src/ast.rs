//! The abstract syntax tree that the evaluator consumes, together with its
//! specification-level twin over mathematical sequences.

use vstd::prelude::*;

verus! {

/// The tag of a binary operator. Shared between the executable syntax tree
/// and its specification-level twin.
#[derive(Clone, Copy, Debug, PartialEq, Eq, Structural)]
pub enum BinOp {
    Add,
    Sub,
    Mul,
    Div,
    Rem,
    Eq,
    Neq,
    Lt,
    Gt,
    Lte,
    Gte,
    And,
    Or,
}

/// A function literal: an ordered list of parameter names and a body.
/// Held behind `Rc` so that evaluating the literal captures it without
/// copying the body.
pub struct FuncNode {
    pub parameters: Vec<String>,
    pub value: Term,
}

/// One node of the syntax tree. The evaluator consumes an already-built
/// tree; no parsing or validation of source text happens here.
pub enum Term {
    Int(i32),
    Str(String),
    Bool(bool),
    Binary { op: BinOp, lhs: Box<Term>, rhs: Box<Term> },
    Let { name: String, value: Box<Term>, next: Box<Term> },
    Var(String),
    Function(std::rc::Rc<FuncNode>),
    Call { callee: Box<Term>, arguments: Box<TermList> },
    If { condition: Box<Term>, then: Box<Term>, otherwise: Box<Term> },
    Tuple { first: Box<Term>, second: Box<Term> },
    First(Box<Term>),
    Second(Box<Term>),
    Print(Box<Term>),
}

/// The argument list of a call, as a structurally recursive list.
pub enum TermList {
    Nil,
    Cons(Term, Box<TermList>),
}

/// Specification-level twin of `Term`: strings become `Seq<char>`,
/// parameter lists become `Seq<Seq<char>>`, argument lists become
/// `Seq<TermX>`.
#[verifier::ext_equal]
pub enum TermX {
    Int(i32),
    Str(Seq<char>),
    Bool(bool),
    Binary(BinOp, Box<TermX>, Box<TermX>),
    Let(Seq<char>, Box<TermX>, Box<TermX>),
    Var(Seq<char>),
    Function(Seq<Seq<char>>, Box<TermX>),
    Call(Box<TermX>, Seq<TermX>),
    If(Box<TermX>, Box<TermX>, Box<TermX>),
    Tuple(Box<TermX>, Box<TermX>),
    First(Box<TermX>),
    Second(Box<TermX>),
    Print(Box<TermX>),
}

/// The abstraction of a parameter-name list.
pub open spec fn params_view(ps: Seq<String>) -> Seq<Seq<char>> {
    ps.map_values(|p: String| p@)
}

/// The abstraction of one `Term` node as a `TermX`.
pub open spec fn term_view(t: Term) -> TermX
    decreases t,
{
    match t {
        Term::Int(v) => TermX::Int(v),
        Term::Str(s) => TermX::Str(s@),
        Term::Bool(b) => TermX::Bool(b),
        Term::Binary { op, lhs, rhs } => TermX::Binary(
            op,
            Box::new(term_view(*lhs)),
            Box::new(term_view(*rhs)),
        ),
        Term::Let { name, value, next } => TermX::Let(
            name@,
            Box::new(term_view(*value)),
            Box::new(term_view(*next)),
        ),
        Term::Var(name) => TermX::Var(name@),
        Term::Function(f) => TermX::Function(
            params_view(f.parameters@),
            Box::new(term_view(f.value)),
        ),
        Term::Call { callee, arguments } => TermX::Call(
            Box::new(term_view(*callee)),
            term_list_view(*arguments),
        ),
        Term::If { condition, then, otherwise } => TermX::If(
            Box::new(term_view(*condition)),
            Box::new(term_view(*then)),
            Box::new(term_view(*otherwise)),
        ),
        Term::Tuple { first, second } => TermX::Tuple(
            Box::new(term_view(*first)),
            Box::new(term_view(*second)),
        ),
        Term::First(t) => TermX::First(Box::new(term_view(*t))),
        Term::Second(t) => TermX::Second(Box::new(term_view(*t))),
        Term::Print(t) => TermX::Print(Box::new(term_view(*t))),
    }
}

/// The abstraction of an argument list as a sequence of `TermX`.
pub open spec fn term_list_view(l: TermList) -> Seq<TermX>
    decreases l,
{
    match l {
        TermList::Nil => Seq::empty(),
        TermList::Cons(head, tail) => seq![term_view(head)] + term_list_view(*tail),
    }
}

impl View for Term {
    type V = TermX;

    open spec fn view(&self) -> TermX {
        term_view(*self)
    }
}

impl View for TermList {
    type V = Seq<TermX>;

    open spec fn view(&self) -> Seq<TermX> {
        term_list_view(*self)
    }
}

impl View for FuncNode {
    type V = (Seq<Seq<char>>, TermX);

    open spec fn view(&self) -> (Seq<Seq<char>>, TermX) {
        (params_view(self.parameters@), term_view(self.value))
    }
}

} // verus!
