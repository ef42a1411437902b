//! Canonical text renderings: integers as decimal text, booleans as
//! `true`/`false`, strings verbatim, closures as an opaque placeholder,
//! tuples as `(a, b)`. Used by the print rule and by the string coercion
//! of `add`.

use vstd::prelude::*;
use vstd::string::StringExecFns;
use crate::value::{Primitive, ValueX, prim_view};

verus! {

/// The character for one decimal digit.
pub open spec fn digit_char(d: nat) -> char {
    if d == 0 {
        '0'
    } else if d == 1 {
        '1'
    } else if d == 2 {
        '2'
    } else if d == 3 {
        '3'
    } else if d == 4 {
        '4'
    } else if d == 5 {
        '5'
    } else if d == 6 {
        '6'
    } else if d == 7 {
        '7'
    } else if d == 8 {
        '8'
    } else {
        '9'
    }
}

/// The decimal digits of a natural number, most significant first.
pub open spec fn dec_digits(n: nat) -> Seq<char>
    decreases n,
{
    if n < 10 {
        seq![digit_char(n)]
    } else {
        dec_digits(n / 10) + seq![digit_char(n % 10)]
    }
}

/// The canonical decimal text of an integer: a minus sign for negative
/// values, then the digits of the magnitude.
pub open spec fn int_dec(i: int) -> Seq<char> {
    if i < 0 {
        seq!['-'] + dec_digits((-i) as nat)
    } else {
        dec_digits(i as nat)
    }
}

/// The canonical text of a boolean.
pub open spec fn bool_text(b: bool) -> Seq<char> {
    if b {
        seq!['t', 'r', 'u', 'e']
    } else {
        seq!['f', 'a', 'l', 's', 'e']
    }
}

/// The canonical text of a value: what one `print` emits for it.
/// A closure is opaque; a unit value renders as nothing.
pub open spec fn render_x(v: ValueX) -> Seq<char>
    decreases v,
{
    match v {
        ValueX::Int(i) => int_dec(i as int),
        ValueX::Str(s) => s,
        ValueX::Bool(b) => bool_text(b),
        ValueX::Function { .. } => seq!['<', '#', 'c', 'l', 'o', 's', 'u', 'r', 'e', '>'],
        ValueX::Tuple(a, b) => seq!['('] + render_x(*a) + seq![',', ' '] + render_x(*b) + seq![')'],
        ValueX::Unit => Seq::empty(),
    }
}

/// One decimal digit as text.
fn digit_str(d: u64) -> (s: &'static str)
    requires
        d < 10,
    ensures
        s@ == seq![digit_char(d as nat)],
{
    let s: &'static str = if d == 0 {
        "0"
    } else if d == 1 {
        "1"
    } else if d == 2 {
        "2"
    } else if d == 3 {
        "3"
    } else if d == 4 {
        "4"
    } else if d == 5 {
        "5"
    } else if d == 6 {
        "6"
    } else if d == 7 {
        "7"
    } else if d == 8 {
        "8"
    } else {
        "9"
    };
    proof {
        reveal_strlit("0");
        reveal_strlit("1");
        reveal_strlit("2");
        reveal_strlit("3");
        reveal_strlit("4");
        reveal_strlit("5");
        reveal_strlit("6");
        reveal_strlit("7");
        reveal_strlit("8");
        reveal_strlit("9");
        assert(s@ =~= seq![digit_char(d as nat)]);
    }
    s
}

/// The decimal digits of `n`, most significant first.
fn u64_dec(n: u64) -> (s: String)
    ensures
        s@ == dec_digits(n as nat),
    decreases n,
{
    if n < 10 {
        let mut s = String::new();
        s.append(digit_str(n));
        s
    } else {
        let mut s = u64_dec(n / 10);
        s.append(digit_str(n % 10));
        s
    }
}

/// The canonical decimal text of an integer.
pub fn int_to_string(i: i32) -> (s: String)
    ensures
        s@ == int_dec(i as int),
{
    if i >= 0 {
        u64_dec(i as u64)
    } else {
        let mag: u64 = (-(i as i64)) as u64;
        let mut s = String::from_str("-");
        proof {
            reveal_strlit("-");
            assert(s@ =~= seq!['-']);
        }
        let digits = u64_dec(mag);
        s.append(digits.as_str());
        s
    }
}

/// The canonical text of a boolean.
pub fn bool_to_string(b: bool) -> (s: String)
    ensures
        s@ == bool_text(b),
{
    if b {
        let s = String::from_str("true");
        proof {
            reveal_strlit("true");
            assert(s@ =~= bool_text(true));
        }
        s
    } else {
        let s = String::from_str("false");
        proof {
            reveal_strlit("false");
            assert(s@ =~= bool_text(false));
        }
        s
    }
}

/// The canonical text of a value, as `print` shows it.
pub fn render_value(v: &Primitive) -> (s: String)
    ensures
        s@ == render_x(prim_view(*v)),
    decreases *v,
{
    match v {
        Primitive::Int(i) => int_to_string(*i),
        Primitive::Str(t) => t.clone(),
        Primitive::Bool(b) => bool_to_string(*b),
        Primitive::Function(_) => {
            let s = String::from_str("<#closure>");
            proof {
                reveal_strlit("<#closure>");
                assert(s@ =~= seq!['<', '#', 'c', 'l', 'o', 's', 'u', 'r', 'e', '>']);
            }
            s
        },
        Primitive::Tuple(a, b) => {
            let mut s = String::from_str("(");
            let fst = render_value(&**a);
            let snd = render_value(&**b);
            s.append(fst.as_str());
            s.append(", ");
            s.append(snd.as_str());
            s.append(")");
            proof {
                reveal_strlit("(");
                reveal_strlit(", ");
                reveal_strlit(")");
                assert(s@ =~= render_x(prim_view(*v)));
            }
            s
        },
        Primitive::Unit => {
            let s = String::new();
            s
        },
    }
}

} // verus!
