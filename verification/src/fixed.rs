//! A decimal fixed-point scalar whose every operation is exact up to a
//! stated rounding.

use crate::axis::{greater, is_strict_weak_order, lemma_bounds_of_two, planned_bounds};
use crate::components::chart::MyChartData;
use crate::integrator::{grid, is_solution, step_size};
use crate::scalar::Scalar;
use vstd::arithmetic::div_mod::{lemma_div_multiples_vanish_quotient, lemma_fundamental_div_mod};
use vstd::prelude::*;

verus! {

/// The number of raw units in one: six decimal places.
pub const SCALE: i64 = 1_000_000;

/// A number with six decimal places, held as a whole number of millionths.
/// Results beyond the range of `i64` saturate at its ends, and products and
/// quotients are rounded toward zero.
#[derive(Debug, Clone, Copy, PartialEq, Eq, Structural)]
pub struct Fixed {
    pub raw: i64,
}

/// The nearest value that `i64` holds.
pub open spec fn clamp(v: int) -> i64 {
    if v > i64::MAX {
        i64::MAX
    } else if v < i64::MIN {
        i64::MIN
    } else {
        v as i64
    }
}

/// The absolute value.
pub open spec fn magnitude(v: int) -> int {
    if v < 0 {
        -v
    } else {
        v
    }
}

/// The quotient rounded toward zero, for a divisor other than zero.
pub open spec fn quotient_toward_zero(a: int, b: int) -> int {
    if (a < 0) == (b < 0) {
        magnitude(a) / magnitude(b)
    } else {
        -(magnitude(a) / magnitude(b))
    }
}

/// A product of two raw values in raw units again: divided by the scale and
/// rounded toward zero.
pub open spec fn scaled_down(v: int) -> int {
    if v < 0 {
        -((-v) / 1_000_000)
    } else {
        v / 1_000_000
    }
}

/// The raw value of a quotient: rounded toward zero, and for a zero divisor
/// the end of the range on the dividend's side, or zero for zero by zero.
pub open spec fn raw_quotient(a: int, b: int) -> int {
    if b != 0 {
        quotient_toward_zero(a * SCALE, b)
    } else if a > 0 {
        i64::MAX as int
    } else if a < 0 {
        i64::MIN as int
    } else {
        0
    }
}

fn saturate(v: i128) -> (r: i64)
    ensures
        r == clamp(v as int),
{
    if v > i64::MAX as i128 {
        i64::MAX
    } else if v < i64::MIN as i128 {
        i64::MIN
    } else {
        v as i64
    }
}

fn divide_toward_zero(a: i128, b: i128) -> (q: i128)
    requires
        b != 0,
        i128::MIN < a,
        i128::MIN < b,
    ensures
        q == quotient_toward_zero(a as int, b as int),
{
    let a_size: u128 = if a < 0 {
        (-a) as u128
    } else {
        a as u128
    };
    let b_size: u128 = if b < 0 {
        (-b) as u128
    } else {
        b as u128
    };
    let q_size: u128 = a_size / b_size;
    assert(q_size <= a_size) by (nonlinear_arith)
        requires
            q_size == a_size / b_size,
            b_size > 0,
    ;
    if (a < 0) == (b < 0) {
        q_size as i128
    } else {
        -(q_size as i128)
    }
}

impl Fixed {
    /// The number that holds the given count of millionths.
    pub fn from_raw(raw: i64) -> (r: Self)
        ensures
            r.raw == raw,
    {
        Fixed { raw }
    }
}

impl Scalar for Fixed {
    open spec fn zero_value() -> Self {
        Fixed { raw: 0 }
    }

    open spec fn unit_value() -> Self {
        Fixed { raw: SCALE }
    }

    open spec fn of_count(n: usize) -> Self {
        Fixed { raw: clamp(n * SCALE) }
    }

    open spec fn sum(self, other: Self) -> Self {
        Fixed { raw: clamp(self.raw + other.raw) }
    }

    open spec fn difference(self, other: Self) -> Self {
        Fixed { raw: clamp(self.raw - other.raw) }
    }

    open spec fn product(self, other: Self) -> Self {
        Fixed { raw: clamp(scaled_down(self.raw * other.raw)) }
    }

    open spec fn quotient(self, other: Self) -> Self {
        Fixed { raw: clamp(raw_quotient(self.raw as int, other.raw as int)) }
    }

    open spec fn below(self, other: Self) -> bool {
        self.raw < other.raw
    }

    open spec fn finite(self) -> bool {
        true
    }

    fn zero() -> (r: Self) {
        Fixed { raw: 0 }
    }

    fn one() -> (r: Self) {
        Fixed { raw: SCALE }
    }

    fn from_count(n: usize) -> (r: Self) {
        let scale: i128 = SCALE as i128;
        assert(scale == 1_000_000);
        let wide: i128 = n as i128 * scale;
        Fixed { raw: saturate(wide) }
    }

    fn plus(self, other: Self) -> (r: Self) {
        Fixed { raw: saturate(self.raw as i128 + other.raw as i128) }
    }

    fn minus(self, other: Self) -> (r: Self) {
        Fixed { raw: saturate(self.raw as i128 - other.raw as i128) }
    }

    fn times(self, other: Self) -> (r: Self) {
        let a: i128 = self.raw as i128;
        let b: i128 = other.raw as i128;
        assert(-0x4000_0000_0000_0000_0000_0000_0000_0000 <= a * b
            <= 0x4000_0000_0000_0000_0000_0000_0000_0000) by (nonlinear_arith)
            requires
                -0x8000_0000_0000_0000 <= a <= 0x8000_0000_0000_0000,
                -0x8000_0000_0000_0000 <= b <= 0x8000_0000_0000_0000,
        ;
        Fixed { raw: saturate(divide_toward_zero(a * b, SCALE as i128)) }
    }

    fn over(self, other: Self) -> (r: Self) {
        if other.raw != 0 {
            let scale: i128 = SCALE as i128;
            assert(scale == 1_000_000);
            let wide: i128 = self.raw as i128 * scale;
            Fixed { raw: saturate(divide_toward_zero(wide, other.raw as i128)) }
        } else if self.raw > 0 {
            Fixed { raw: i64::MAX }
        } else if self.raw < 0 {
            Fixed { raw: i64::MIN }
        } else {
            Fixed { raw: 0 }
        }
    }

    fn less_than(self, other: Self) -> (r: bool) {
        self.raw < other.raw
    }

    fn is_finite(self) -> (r: bool) {
        true
    }
}

/// Fixed-point numbers are ordered by their raw values.
pub proof fn lemma_fixed_is_ordered()
    ensures
        is_strict_weak_order::<Fixed>(),
{
}

/// In fixed-point arithmetic the headroom can be added before or after the
/// greater initial value is taken: with two curves the upper bound is the
/// greater of the two initial values plus one.
pub proof fn lemma_fixed_upper_bound_of_two(a: MyChartData<Fixed>, b: MyChartData<Fixed>)
    ensures
        planned_bounds(seq![a, b]).y_max == greater(a.y0, b.y0).sum(Fixed::unit_value()),
{
    lemma_bounds_of_two(a, b);
}

/// The problems that fixed-point arithmetic solves on an exact grid: the
/// interval is not empty, and `count` steps, as rounded, make up its length
/// exactly.
pub open spec fn divides_evenly(data: MyChartData<Fixed>) -> bool {
    &&& data.count > 0
    &&& data.begin.raw < data.end.raw
    &&& data.count * step_size(data).raw == data.end.raw - data.begin.raw
}

/// A problem divides evenly where the count divides the length of the
/// interval in raw units, and the length and the count are within range.
/// The step is then the length divided by the count.
pub proof fn lemma_divisible_is_even(data: MyChartData<Fixed>)
    requires
        data.count > 0,
        data.begin.raw < data.end.raw,
        data.end.raw - data.begin.raw <= i64::MAX,
        data.count * SCALE <= i64::MAX,
        (data.end.raw - data.begin.raw) % (data.count as int) == 0,
    ensures
        divides_evenly(data),
        step_size(data).raw == (data.end.raw - data.begin.raw) / (data.count as int),
{
    let d: int = data.end.raw - data.begin.raw;
    let n: int = data.count as int;
    let s: int = SCALE as int;
    lemma_fundamental_div_mod(d, n);
    assert(n * (d / n) == d);
    assert(0 < d / n <= d) by (nonlinear_arith)
        requires
            n * (d / n) == d,
            d > 0,
            n > 0,
    ;
    lemma_div_multiples_vanish_quotient(s, d, n);
    assert(d * s == s * d) by (nonlinear_arith);
    assert(n * s == s * n) by (nonlinear_arith);
    assert(Fixed::of_count(data.count).raw == n * s);
    assert(data.end.difference(data.begin).raw == d);
    assert(d * s >= 0) by (nonlinear_arith)
        requires
            d > 0,
            s > 0,
    ;
    assert(quotient_toward_zero(d * s, n * s) == d / n);
}

/// On a problem that divides evenly the abscissa of sample `i` lies `i`
/// steps after `begin`, up to the end of the interval.
pub proof fn lemma_even_grid(data: MyChartData<Fixed>, i: nat)
    requires
        divides_evenly(data),
        i <= data.count,
    ensures
        grid(data.begin, step_size(data), i).raw == data.begin.raw + i * step_size(data).raw,
        step_size(data).raw > 0,
    decreases i,
{
    let e: int = step_size(data).raw as int;
    let n: int = data.count as int;
    assert(e > 0) by (nonlinear_arith)
        requires
            n * e > 0,
            n > 0,
    ;
    if i > 0 {
        lemma_even_grid(data, (i - 1) as nat);
        assert((i - 1) * e + e == i * e) by (nonlinear_arith);
        assert(i * e <= n * e) by (nonlinear_arith)
            requires
                i <= n,
                e > 0,
        ;
    }
}

/// On a problem that divides evenly integration returns exactly `count`
/// samples, sample `i` lies `i` steps after `begin`, and the abscissas
/// increase strictly.
pub proof fn lemma_exact_sample_count<F: Fn(Fixed, Fixed) -> Fixed>(
    f: F,
    data: MyChartData<Fixed>,
    points: Seq<(Fixed, Fixed)>,
)
    requires
        divides_evenly(data),
        is_solution(f, data, points),
    ensures
        points.len() == data.count,
        forall|i: int|
            0 <= i < points.len() ==> (#[trigger] points[i]).0.raw == data.begin.raw + i
                * step_size(data).raw,
        forall|i: int, j: int|
            0 <= i < j < points.len() ==> (#[trigger] points[i]).0.raw < (#[trigger] points[j]).0.raw,
{
    let e: int = step_size(data).raw as int;
    let n: int = data.count as int;
    lemma_even_grid(data, data.count as nat);
    if points.len() > n {
        assert(points[n].0.below(data.end));
    }
    if points.len() < n {
        let len = points.len();
        lemma_even_grid(data, len);
        assert(len * e < n * e) by (nonlinear_arith)
            requires
                len < n,
                e > 0,
        ;
        if len > 0 {
            lemma_even_grid(data, (len - 1) as nat);
            assert((len - 1) * e < len * e) by (nonlinear_arith)
                requires
                    e > 0,
            ;
        }
    }
    assert forall|i: int| 0 <= i < points.len() implies (#[trigger] points[i]).0.raw
        == data.begin.raw + i * e by {
        lemma_even_grid(data, i as nat);
    }
    assert forall|i: int, j: int| 0 <= i < j < points.len() implies (#[trigger] points[i]).0.raw < (
    #[trigger] points[j]).0.raw by {
        assert(i * e < j * e) by (nonlinear_arith)
            requires
                i < j,
                e > 0,
        ;
    }
}

} // verus!
