//! Runtime values and the coercions the global built-ins need.
//!
//! Numbers are modelled exactly: a number is either not-a-number, one of the
//! two infinities, or a finite integer. Coercions on that model are total
//! verified functions; what a full IEEE double would add (fractions, string
//! parsing) stays outside the verified core.

use vstd::prelude::*;

verus! {

/// The numeric tower of the value model.
#[derive(Clone, Copy, Debug, PartialEq, Eq, Structural)]
pub enum NumberValue {
    NotANumber,
    PositiveInfinity,
    NegativeInfinity,
    Finite(i64),
}

/// A runtime value: the sum of everything a property can hold or a call can
/// return. `Object` carries the arena index of the object it refers to.
#[derive(Clone, Debug)]
pub enum Value {
    Undefined,
    Null,
    Bool(bool),
    Number(NumberValue),
    String(Vec<u8>),
    Object(usize),
}

/// Whether two values are the same value.
pub open spec fn value_eq(a: Value, b: Value) -> bool {
    match (a, b) {
        (Value::Undefined, Value::Undefined) => true,
        (Value::Null, Value::Null) => true,
        (Value::Bool(x), Value::Bool(y)) => x == y,
        (Value::Number(x), Value::Number(y)) => x == y,
        (Value::String(x), Value::String(y)) => x@ == y@,
        (Value::Object(x), Value::Object(y)) => x == y,
        _ => false,
    }
}

/// Whether two values are the same value.
pub fn value_matches(a: &Value, b: &Value) -> (r: bool)
    ensures
        r == value_eq(*a, *b),
{
    match (a, b) {
        (Value::Undefined, Value::Undefined) => true,
        (Value::Null, Value::Null) => true,
        (Value::Bool(x), Value::Bool(y)) => *x == *y,
        (Value::Number(x), Value::Number(y)) => *x == *y,
        (Value::String(x), Value::String(y)) => crate::names::bytes_eq(x, y),
        (Value::Object(x), Value::Object(y)) => *x == *y,
        _ => false,
    }
}

/// Whether two optional values are the same.
pub open spec fn opt_value_eq(a: Option<Value>, b: Option<Value>) -> bool {
    match (a, b) {
        (Some(x), Some(y)) => value_eq(x, y),
        (None, None) => true,
        _ => false,
    }
}

/// Whether two lists hold the same values at the same places.
pub open spec fn values_eq(a: Seq<Value>, b: Seq<Value>) -> bool {
    a.len() == b.len() && forall|i: int| 0 <= i < a.len() ==> value_eq(#[trigger] a[i], b[i])
}

/// Copy a value.
pub fn value_clone(a: &Value) -> (r: Value)
    ensures
        value_eq(r, *a),
{
    match a {
        Value::Undefined => Value::Undefined,
        Value::Null => Value::Null,
        Value::Bool(x) => Value::Bool(*x),
        Value::Number(x) => Value::Number(*x),
        Value::String(x) => Value::String(crate::names::bytes_clone(x)),
        Value::Object(x) => Value::Object(*x),
    }
}

/// Copy a list of values.
pub fn values_clone(a: &Vec<Value>) -> (r: Vec<Value>)
    ensures
        values_eq(r@, a@),
{
    let mut r: Vec<Value> = Vec::new();
    let n = a.len();
    let mut i: usize = 0;
    while i < n
        invariant
            n == a@.len(),
            i <= n,
            r@.len() == i,
            forall|j: int| 0 <= j < i ==> value_eq(#[trigger] r@[j], a@[j]),
        decreases n - i,
    {
        r.push(value_clone(&a[i]));
        i += 1;
    }
    r
}

/// Every object reference a value carries points into an arena of `len`
/// objects.
pub open spec fn value_ok(v: Value, len: nat) -> bool {
    match v {
        Value::Object(id) => id < len,
        _ => true,
    }
}

/// Every object reference in an argument list points into an arena of `len`
/// objects.
pub open spec fn values_ok(vs: Seq<Value>, len: nat) -> bool {
    forall|i: int| 0 <= i < vs.len() ==> value_ok(#[trigger] vs[i], len)
}

/// The number a value coerces to. Booleans coerce to zero and one; the
/// nothing-values, strings and objects coerce to not-a-number.
pub open spec fn spec_coerce_to_number(v: Value) -> NumberValue {
    match v {
        Value::Undefined => NumberValue::NotANumber,
        Value::Null => NumberValue::NotANumber,
        Value::Bool(b) => if b {
            NumberValue::Finite(1)
        } else {
            NumberValue::Finite(0)
        },
        Value::Number(n) => n,
        Value::String(_) => NumberValue::NotANumber,
        Value::Object(_) => NumberValue::NotANumber,
    }
}

/// Coerce a value to a number.
pub fn coerce_to_number(v: &Value) -> (r: NumberValue)
    ensures
        r == spec_coerce_to_number(*v),
{
    match v {
        Value::Undefined => NumberValue::NotANumber,
        Value::Null => NumberValue::NotANumber,
        Value::Bool(b) => if *b {
            NumberValue::Finite(1)
        } else {
            NumberValue::Finite(0)
        },
        Value::Number(n) => *n,
        Value::String(_) => NumberValue::NotANumber,
        Value::Object(_) => NumberValue::NotANumber,
    }
}

/// The 32-bit integer a value coerces to: not-a-number, the infinities and
/// finite numbers outside the 32-bit range all coerce to zero.
pub open spec fn spec_coerce_to_i32(v: Value) -> i32 {
    match spec_coerce_to_number(v) {
        NumberValue::Finite(i) => if i32::MIN <= i <= i32::MAX {
            i as i32
        } else {
            0
        },
        _ => 0,
    }
}

/// Coerce a value to a 32-bit integer.
pub fn coerce_to_i32(v: &Value) -> (r: i32)
    ensures
        r == spec_coerce_to_i32(*v),
{
    match coerce_to_number(v) {
        NumberValue::Finite(i) => if i32::MIN as i64 <= i && i <= i32::MAX as i64 {
            i as i32
        } else {
            0
        },
        _ => 0,
    }
}

/// The decimal digits of `n`, most significant first.
pub open spec fn decimal_digits(n: nat) -> Seq<u8>
    decreases n,
{
    if n < 10 {
        seq![(48 + n) as u8]
    } else {
        decimal_digits(n / 10).push((48 + n % 10) as u8)
    }
}

/// Render an unsigned number in decimal.
pub fn u64_decimal(n: u64) -> (r: Vec<u8>)
    ensures
        r@ == decimal_digits(n as nat),
    decreases n,
{
    if n < 10 {
        let mut v: Vec<u8> = Vec::new();
        v.push(48 + n as u8);
        proof {
            assert(v@ =~= decimal_digits(n as nat));
        }
        v
    } else {
        let mut v = u64_decimal(n / 10);
        v.push(48 + (n % 10) as u8);
        proof {
            assert(v@ =~= decimal_digits(n as nat));
        }
        v
    }
}

/// The text a number renders as: `NaN`, `Infinity`, `-Infinity`, or the
/// signed decimal digits of a finite number.
pub open spec fn spec_number_text(n: NumberValue) -> Seq<u8> {
    match n {
        NumberValue::NotANumber => seq![78u8, 97u8, 78u8],
        NumberValue::PositiveInfinity => seq![
            73u8, 110u8, 102u8, 105u8, 110u8, 105u8, 116u8, 121u8,
        ],
        NumberValue::NegativeInfinity => seq![
            45u8, 73u8, 110u8, 102u8, 105u8, 110u8, 105u8, 116u8, 121u8,
        ],
        NumberValue::Finite(i) => if i >= 0 {
            decimal_digits(i as nat)
        } else {
            seq![45u8] + decimal_digits((-(i as int)) as nat)
        },
    }
}

/// Render a number as text.
pub fn number_text(n: NumberValue) -> (r: Vec<u8>)
    ensures
        r@ == spec_number_text(n),
{
    match n {
        NumberValue::NotANumber => {
            let v: Vec<u8> = vec![78u8, 97u8, 78u8];
            assert(v@ =~= spec_number_text(n));
            v
        },
        NumberValue::PositiveInfinity => {
            let v: Vec<u8> = vec![73u8, 110u8, 102u8, 105u8, 110u8, 105u8, 116u8, 121u8];
            assert(v@ =~= spec_number_text(n));
            v
        },
        NumberValue::NegativeInfinity => {
            let v: Vec<u8> = vec![45u8, 73u8, 110u8, 102u8, 105u8, 110u8, 105u8, 116u8, 121u8];
            assert(v@ =~= spec_number_text(n));
            v
        },
        NumberValue::Finite(i) => {
            if i >= 0 {
                u64_decimal(i as u64)
            } else {
                let mag: u64 = ((-(i + 1)) as u64) + 1;
                assert(mag as nat == (-(i as int)) as nat);
                let digits = u64_decimal(mag);
                let mut v: Vec<u8> = vec![45u8];
                let mut j: usize = 0;
                let dn = digits.len();
                while j < dn
                    invariant
                        dn == digits@.len(),
                        j <= dn,
                        v@ == seq![45u8] + digits@.subrange(0, j as int),
                    decreases dn - j,
                {
                    v.push(digits[j]);
                    assert(v@ =~= seq![45u8] + digits@.subrange(0, j + 1 as int));
                    j += 1;
                }
                proof {
                    assert(digits@.subrange(0, dn as int) =~= digits@);
                }
                v
            }
        },
    }
}

/// The text a value coerces to. Strings coerce to themselves; the
/// nothing-values and booleans to their names; numbers to their rendering;
/// objects to a generic tag (running an object's own conversion method is
/// invocation, which the coercion model does not perform).
pub open spec fn spec_coerce_to_string(v: Value) -> Seq<u8> {
    match v {
        Value::Undefined => seq![
            117u8, 110u8, 100u8, 101u8, 102u8, 105u8, 110u8, 101u8, 100u8,
        ],
        Value::Null => seq![110u8, 117u8, 108u8, 108u8],
        Value::Bool(b) => if b {
            seq![116u8, 114u8, 117u8, 101u8]
        } else {
            seq![102u8, 97u8, 108u8, 115u8, 101u8]
        },
        Value::Number(n) => spec_number_text(n),
        Value::String(s) => s@,
        Value::Object(_) => seq![
            91u8, 116u8, 121u8, 112u8, 101u8, 32u8, 79u8, 98u8, 106u8, 101u8, 99u8, 116u8, 93u8,
        ],
    }
}

/// Coerce a value to text.
pub fn coerce_to_string(v: &Value) -> (r: Vec<u8>)
    ensures
        r@ == spec_coerce_to_string(*v),
{
    match v {
        Value::Undefined => {
            let out: Vec<u8> = vec![117u8, 110u8, 100u8, 101u8, 102u8, 105u8, 110u8, 101u8, 100u8];
            assert(out@ =~= spec_coerce_to_string(*v));
            out
        },
        Value::Null => {
            let out: Vec<u8> = vec![110u8, 117u8, 108u8, 108u8];
            assert(out@ =~= spec_coerce_to_string(*v));
            out
        },
        Value::Bool(b) => {
            if *b {
                let out: Vec<u8> = vec![116u8, 114u8, 117u8, 101u8];
                assert(out@ =~= spec_coerce_to_string(*v));
                out
            } else {
                let out: Vec<u8> = vec![102u8, 97u8, 108u8, 115u8, 101u8];
                assert(out@ =~= spec_coerce_to_string(*v));
                out
            }
        },
        Value::Number(n) => number_text(*n),
        Value::String(s) => crate::names::bytes_clone(s),
        Value::Object(_) => {
            let out: Vec<u8> = vec![
                91u8, 116u8, 121u8, 112u8, 101u8, 32u8, 79u8, 98u8, 106u8, 101u8, 99u8, 116u8, 93u8,
            ];
            assert(out@ =~= spec_coerce_to_string(*v));
            out
        },
    }
}

} // verus!
