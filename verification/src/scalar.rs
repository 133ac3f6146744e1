//! The arithmetic that the chart engine needs from its number type.

use vstd::prelude::*;

verus! {

/// A number type the engine can integrate and plot with.
///
/// Every operation is a total function of its operands: the same operands
/// give the same result. The spec functions name those results; an
/// implementation says what they are. Nothing else is asked of the
/// arithmetic, so an implementation may round, saturate or carry values
/// that are not numbers.
///
/// A verified implementation overrides the spec functions and proves each
/// operation against them, as `Fixed` does. One written without proofs,
/// such as binary floating point, supplies the operations alone: what is
/// proved here holds of it as far as its operations are functions of their
/// operands.
pub trait Scalar: Copy {
    /// The additive identity, used as the bound of an empty chart.
    open spec fn zero_value() -> Self {
        arbitrary()
    }

    /// The unit, used as the headroom above the largest initial value.
    open spec fn unit_value() -> Self {
        arbitrary()
    }

    /// The scalar that stands for a whole number.
    open spec fn of_count(n: usize) -> Self {
        arbitrary()
    }

    /// `self + other`.
    open spec fn sum(self, other: Self) -> Self {
        arbitrary()
    }

    /// `self - other`.
    open spec fn difference(self, other: Self) -> Self {
        arbitrary()
    }

    /// `self * other`.
    open spec fn product(self, other: Self) -> Self {
        arbitrary()
    }

    /// `self / other`.
    open spec fn quotient(self, other: Self) -> Self {
        arbitrary()
    }

    /// `self < other`.
    open spec fn below(self, other: Self) -> bool {
        arbitrary()
    }

    /// Whether the value is an ordinary number, neither infinite nor undefined.
    open spec fn finite(self) -> bool {
        arbitrary()
    }

    fn zero() -> (r: Self)
        ensures
            r == Self::zero_value(),
    ;

    fn one() -> (r: Self)
        ensures
            r == Self::unit_value(),
    ;

    fn from_count(n: usize) -> (r: Self)
        ensures
            r == Self::of_count(n),
    ;

    fn plus(self, other: Self) -> (r: Self)
        ensures
            r == self.sum(other),
    ;

    fn minus(self, other: Self) -> (r: Self)
        ensures
            r == self.difference(other),
    ;

    fn times(self, other: Self) -> (r: Self)
        ensures
            r == self.product(other),
    ;

    fn over(self, other: Self) -> (r: Self)
        ensures
            r == self.quotient(other),
    ;

    fn less_than(self, other: Self) -> (r: bool)
        ensures
            r == self.below(other),
    ;

    fn is_finite(self) -> (r: bool)
        ensures
            r == self.finite(),
    ;
}

} // verus!
