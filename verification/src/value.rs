//! Runtime values and the rules that look at a single value or a pair of
//! them: truthiness, equality and the text a value is printed as.
use vstd::prelude::*;
use vstd::string::*;
use crate::number::{Number, is_whole, same};

verus! {

/// A value as the contracts see it: a number is its bits, a string its
/// characters.
pub enum Datum {
    Nil,
    Number(u64),
    Bool(bool),
    Text(Seq<char>),
}

/// A runtime value. Values are plain data: none refers to another.
#[derive(Clone, Debug)]
pub enum Value {
    Nil,
    Number(Number),
    Bool(bool),
    String(String),
}

impl View for Value {
    type V = Datum;

    open spec fn view(&self) -> Datum {
        match self {
            Value::Nil => Datum::Nil,
            Value::Number(n) => Datum::Number(n.bits),
            Value::Bool(b) => Datum::Bool(*b),
            Value::String(s) => Datum::Text(s@),
        }
    }
}

/// `nil` and `false` are falsy; every other value is truthy, zero and the
/// empty string included.
pub open spec fn truthy(d: Datum) -> bool {
    match d {
        Datum::Nil => false,
        Datum::Bool(b) => b,
        _ => true,
    }
}

/// The language's `==`: values of one kind are compared by what they hold,
/// numbers numerically; values of different kinds are never equal.
pub open spec fn equal(a: Datum, b: Datum) -> bool {
    match (a, b) {
        (Datum::Nil, Datum::Nil) => true,
        (Datum::Bool(x), Datum::Bool(y)) => x == y,
        (Datum::Number(x), Datum::Number(y)) => same(x, y),
        (Datum::Text(x), Datum::Text(y)) => x == y,
        _ => false,
    }
}

/// Whether two values are of one kind.
pub open spec fn same_kind(a: Datum, b: Datum) -> bool {
    match (a, b) {
        (Datum::Nil, Datum::Nil) => true,
        (Datum::Bool(_), Datum::Bool(_)) => true,
        (Datum::Number(_), Datum::Number(_)) => true,
        (Datum::Text(_), Datum::Text(_)) => true,
        _ => false,
    }
}

/// The text a value is printed as, given the decimal text of its number
/// where it is one: `nil`, `true` or `false`, a string as it is, and a
/// number as its decimal text, followed by `.0` where it has no fractional
/// part.
pub open spec fn display(d: Datum, numeral: Seq<char>) -> Seq<char> {
    match d {
        Datum::Nil => seq!['n', 'i', 'l'],
        Datum::Number(bits) => if is_whole(bits) {
            numeral + seq!['.', '0']
        } else {
            numeral
        },
        Datum::Bool(b) => if b {
            seq!['t', 'r', 'u', 'e']
        } else {
            seq!['f', 'a', 'l', 's', 'e']
        },
        Datum::Text(s) => s,
    }
}

impl Value {
    /// Whether the value counts as true in a condition.
    pub fn is_truthy(&self) -> (r: bool)
        ensures
            r == truthy(self@),
    {
        match self {
            Value::Nil => false,
            Value::Bool(b) => *b,
            _ => true,
        }
    }

    /// The printed form of the value. `numeral` is the decimal text of the
    /// number where the value is one, and is not looked at otherwise.
    pub fn to_display(&self, numeral: &str) -> (text: String)
        ensures
            text@ == display(self@, numeral@),
    {
        match self {
            Value::Nil => {
                proof {
                    reveal_strlit("nil");
                }
                assert("nil"@ =~= seq!['n', 'i', 'l']);
                String::from_str("nil")
            },
            Value::Number(n) => {
                if n.is_whole() {
                    proof {
                        reveal_strlit(".0");
                    }
                    assert(".0"@ =~= seq!['.', '0']);
                    String::from_str(numeral).concat(".0")
                } else {
                    String::from_str(numeral)
                }
            },
            Value::Bool(b) => {
                if *b {
                    proof {
                        reveal_strlit("true");
                    }
                    assert("true"@ =~= seq!['t', 'r', 'u', 'e']);
                    String::from_str("true")
                } else {
                    proof {
                        reveal_strlit("false");
                    }
                    assert("false"@ =~= seq!['f', 'a', 'l', 's', 'e']);
                    String::from_str("false")
                }
            },
            Value::String(s) => s.clone(),
        }
    }

    /// A copy of the value.
    pub fn duplicate(&self) -> (copy: Value)
        ensures
            copy@ == self@,
    {
        match self {
            Value::Nil => Value::Nil,
            Value::Number(n) => Value::Number(*n),
            Value::Bool(b) => Value::Bool(*b),
            Value::String(s) => Value::String(s.clone()),
        }
    }

    /// The language's `==` on two values.
    pub fn equals(&self, other: &Value) -> (r: bool)
        ensures
            r == equal(self@, other@),
    {
        match (self, other) {
            (Value::Nil, Value::Nil) => true,
            (Value::Bool(x), Value::Bool(y)) => *x == *y,
            (Value::Number(x), Value::Number(y)) => x.equals(y),
            (Value::String(x), Value::String(y)) => *x == *y,
            _ => false,
        }
    }
}

/// Equality holds between two values only if they are of one kind; `nil` is
/// not equal to `false`.
pub proof fn equal_needs_same_kind(a: Datum, b: Datum)
    ensures
        !same_kind(a, b) ==> !equal(a, b),
        !equal(Datum::Nil, Datum::Bool(false)),
{
}

/// Equality is symmetric, and every value but a NaN is equal to itself.
pub proof fn equal_is_symmetric(a: Datum, b: Datum)
    ensures
        equal(a, b) == equal(b, a),
        equal(a, a) == !(a matches Datum::Number(bits) && crate::number::is_nan(bits)),
{
}

} // verus!
