//! Scalars and the arithmetic unit.
//!
//! A scalar is an IEEE-754 single-precision number, carried as its 32 bits. The engine itself
//! only moves scalars, negates them and tests whether they are positive, all of which is exact
//! on the bit pattern. Everything that rounds is a request to the arithmetic unit: a function
//! from [`Op`] to the bits of the answer.

use vstd::prelude::*;

verus! {

/// The bits of `0.0`.
pub const ZERO: u32 = 0;

/// The bits of `1.0`.
pub const ONE: u32 = 0x3F80_0000;

/// The bits of `0.01`, the slope of the leaky rectifier on non-positive inputs.
pub const LEAK: u32 = 0x3C23_D70A;

/// The sign bit of a scalar.
pub const SIGN: u32 = 0x8000_0000;

/// The bits of positive infinity, the largest pattern that is positive and a number.
pub const INFINITY: u32 = 0x7F80_0000;

/// A request to the arithmetic unit. The operands are scalars, given in the order in which they
/// stand in the operation.
#[derive(Clone, Copy, Debug, PartialEq, Eq)]
pub enum Op {
    /// The sum of the two scalars.
    Add(u32, u32),
    /// The first scalar less the second.
    Sub(u32, u32),
    /// The product of the two scalars.
    Mul(u32, u32),
    /// The first scalar divided by the second.
    Div(u32, u32),
    /// The natural exponential of the scalar.
    Exp(u32),
    /// The scalar nearest to a count.
    FromCount(usize),
}

/// The unit answers every request.
pub open spec fn answers_all<U: Fn(Op) -> u32>(unit: &U) -> bool {
    forall|op: Op| unit.requires((op,))
}

/// Every answer of the unit is the value of `f`: the unit computes the function `f`.
pub open spec fn computes<U: Fn(Op) -> u32>(unit: &U, f: spec_fn(Op) -> u32) -> bool {
    forall|op: Op, r: u32| unit.ensures((op,), r) ==> r == f(op)
}

/// The scalar is greater than zero: its sign bit is clear, and it is neither a zero nor a NaN.
pub open spec fn spec_is_positive(x: u32) -> bool {
    0 < x <= INFINITY
}

/// The scalar with its sign flipped.
pub open spec fn spec_negate(x: u32) -> u32 {
    x ^ SIGN
}

/// The logistic function `1 / (1 + e^(-x))` over the function `f`.
pub open spec fn spec_sigmoid(f: spec_fn(Op) -> u32, x: u32) -> u32 {
    f(Op::Div(ONE, f(Op::Add(ONE, f(Op::Exp(spec_negate(x)))))))
}

/// The leaky rectifier over the function `f`: `x` where `x` is positive, else `0.01 * x`.
pub open spec fn spec_leaky_relu(f: spec_fn(Op) -> u32, x: u32) -> u32 {
    if spec_is_positive(x) {
        x
    } else {
        f(Op::Mul(LEAK, x))
    }
}

/// The derivative of the leaky rectifier: `1` where `x` is positive, else `0.01`.
pub open spec fn spec_leaky_slope(x: u32) -> u32 {
    if spec_is_positive(x) {
        ONE
    } else {
        LEAK
    }
}

/// Whether the scalar is greater than zero.
pub fn is_positive(x: u32) -> (r: bool)
    ensures
        r == spec_is_positive(x),
{
    0 < x && x <= INFINITY
}

/// The scalar with its sign flipped.
pub fn negate(x: u32) -> (r: u32)
    ensures
        r == spec_negate(x),
{
    x ^ SIGN
}

/// The logistic function of `x`, computed by the unit.
pub fn sigmoid<U: Fn(Op) -> u32>(x: u32, unit: &U) -> (r: u32)
    requires
        answers_all(unit),
    ensures
        forall|f: spec_fn(Op) -> u32| computes(unit, f) ==> r == spec_sigmoid(f, x),
{
    let e = unit(Op::Exp(negate(x)));
    let d = unit(Op::Add(ONE, e));
    unit(Op::Div(ONE, d))
}

/// The leaky rectifier of `x`, with the product computed by the unit.
pub fn leaky_relu<U: Fn(Op) -> u32>(x: u32, unit: &U) -> (r: u32)
    requires
        answers_all(unit),
    ensures
        forall|f: spec_fn(Op) -> u32| computes(unit, f) ==> r == spec_leaky_relu(f, x),
{
    if is_positive(x) {
        x
    } else {
        unit(Op::Mul(LEAK, x))
    }
}

/// The derivative of the leaky rectifier at `x`.
pub fn leaky_slope(x: u32) -> (r: u32)
    ensures
        r == spec_leaky_slope(x),
{
    if is_positive(x) {
        ONE
    } else {
        LEAK
    }
}

} // verus!
