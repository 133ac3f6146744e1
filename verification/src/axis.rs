//! The viewing rectangle that covers every curve of a chart.

use crate::components::chart::{MyChartData, Series};
use crate::scalar::Scalar;
use vstd::prelude::*;

verus! {

/// A viewing rectangle.
#[derive(Debug)]
pub struct ViewBounds<S> {
    pub x_min: S,
    pub x_max: S,
    pub y_min: S,
    pub y_max: S,
}

/// The smaller of a value kept so far and the next one; the kept one where
/// neither is below the other.
pub open spec fn lesser<S: Scalar>(kept: S, next: S) -> S {
    if next.below(kept) {
        next
    } else {
        kept
    }
}

/// The larger of a value kept so far and the next one; the next one where
/// neither is below the other.
pub open spec fn greater<S: Scalar>(kept: S, next: S) -> S {
    if next.below(kept) {
        kept
    } else {
        next
    }
}

/// The least of the first `n` values, taken from left to right; zero where
/// there is none.
pub open spec fn least_of<S: Scalar>(values: Seq<S>, n: nat) -> S
    decreases n,
{
    if n == 0 {
        S::zero_value()
    } else if n == 1 {
        values[0]
    } else {
        lesser(least_of(values, (n - 1) as nat), values[n - 1])
    }
}

/// The greatest of the first `n` values, taken from left to right; zero
/// where there is none.
pub open spec fn greatest_of<S: Scalar>(values: Seq<S>, n: nat) -> S
    decreases n,
{
    if n == 0 {
        S::zero_value()
    } else if n == 1 {
        values[0]
    } else {
        greater(greatest_of(values, (n - 1) as nat), values[n - 1])
    }
}

/// The parameters of the curves, in plot order.
pub open spec fn parameters_of<S>(series: Seq<Series<S>>) -> Seq<MyChartData<S>> {
    series.map_values(|s: Series<S>| s.data)
}

/// The left ends of the requested intervals.
pub open spec fn begins<S>(params: Seq<MyChartData<S>>) -> Seq<S> {
    params.map_values(|d: MyChartData<S>| d.begin)
}

/// The right ends of the requested intervals.
pub open spec fn ends<S>(params: Seq<MyChartData<S>>) -> Seq<S> {
    params.map_values(|d: MyChartData<S>| d.end)
}

/// The initial values.
pub open spec fn floors<S>(params: Seq<MyChartData<S>>) -> Seq<S> {
    params.map_values(|d: MyChartData<S>| d.y0)
}

/// The initial values with one unit of headroom added to each.
pub open spec fn ceilings<S: Scalar>(params: Seq<MyChartData<S>>) -> Seq<S> {
    params.map_values(|d: MyChartData<S>| d.y0.sum(S::unit_value()))
}

/// The rectangle for a chart with the given curves. It spans the requested
/// intervals, not the sampled abscissas, and reaches from the least initial
/// value to one unit above the greatest: a curve that leaves that band is
/// drawn outside the rectangle. With no curve it is the point at the origin.
pub open spec fn planned_bounds<S: Scalar>(params: Seq<MyChartData<S>>) -> ViewBounds<S> {
    ViewBounds {
        x_min: least_of(begins(params), params.len()),
        x_max: greatest_of(ends(params), params.len()),
        y_min: least_of(floors(params), params.len()),
        y_max: greatest_of(ceilings(params), params.len()),
    }
}

/// Plans the viewing rectangle for the given curves.
pub fn plan_bounds<S: Scalar>(series: &Vec<Series<S>>) -> (bounds: ViewBounds<S>)
    ensures
        bounds == planned_bounds(parameters_of(series@)),
{
    let ghost params = parameters_of(series@);
    if series.len() == 0 {
        return ViewBounds { x_min: S::zero(), x_max: S::zero(), y_min: S::zero(), y_max: S::zero() };
    }
    let first = &series[0].data;
    let mut x_min = first.begin;
    let mut x_max = first.end;
    let mut y_min = first.y0;
    let mut y_max = first.y0.plus(S::one());
    let mut i: usize = 1;
    while i < series.len()
        invariant
            1 <= i <= series.len(),
            params == parameters_of(series@),
            x_min == least_of(begins(params), i as nat),
            x_max == greatest_of(ends(params), i as nat),
            y_min == least_of(floors(params), i as nat),
            y_max == greatest_of(ceilings(params), i as nat),
        decreases series.len() - i,
    {
        let next = &series[i].data;
        if next.begin.less_than(x_min) {
            x_min = next.begin;
        }
        if !next.end.less_than(x_max) {
            x_max = next.end;
        }
        if next.y0.less_than(y_min) {
            y_min = next.y0;
        }
        let top = next.y0.plus(S::one());
        if !top.less_than(y_max) {
            y_max = top;
        }
        i += 1;
    }
    ViewBounds { x_min, x_max, y_min, y_max }
}

/// With one curve the rectangle spans that curve's interval, from its
/// initial value to one unit above it.
pub proof fn lemma_bounds_of_one<S: Scalar>(a: MyChartData<S>)
    ensures
        planned_bounds(seq![a]) == (ViewBounds {
            x_min: a.begin,
            x_max: a.end,
            y_min: a.y0,
            y_max: a.y0.sum(S::unit_value()),
        }),
{
}

/// With two curves each bound is the lesser or the greater of the two
/// curves' values; the upper bound is the greater of the two initial values
/// with the headroom added to each.
pub proof fn lemma_bounds_of_two<S: Scalar>(a: MyChartData<S>, b: MyChartData<S>)
    ensures
        planned_bounds(seq![a, b]) == (ViewBounds {
            x_min: lesser(a.begin, b.begin),
            x_max: greater(a.end, b.end),
            y_min: lesser(a.y0, b.y0),
            y_max: greater(a.y0.sum(S::unit_value()), b.y0.sum(S::unit_value())),
        }),
{
    let params = seq![a, b];
    reveal_with_fuel(least_of, 3);
    reveal_with_fuel(greatest_of, 3);
    assert(begins(params)[0] == a.begin && begins(params)[1] == b.begin);
    assert(ends(params)[0] == a.end && ends(params)[1] == b.end);
    assert(floors(params)[0] == a.y0 && floors(params)[1] == b.y0);
    assert(ceilings(params)[0] == a.y0.sum(S::unit_value()));
    assert(ceilings(params)[1] == b.y0.sum(S::unit_value()));
}

/// `below` is a strict weak order on `S`: no two values are each below the
/// other, and a value that is not below a second, which is not below a
/// third, is not below the third.
pub open spec fn is_strict_weak_order<S: Scalar>() -> bool {
    &&& forall|a: S, b: S| #[trigger] a.below(b) ==> !b.below(a)
    &&& forall|a: S, b: S, c: S|
        !(#[trigger] b.below(a)) && !(#[trigger] c.below(b)) ==> !c.below(a)
}

/// The least of some values is one of them.
pub proof fn lemma_least_is_member<S: Scalar>(values: Seq<S>, n: nat)
    requires
        0 < n <= values.len(),
    ensures
        exists|j: int| 0 <= j < n && least_of(values, n) == values[j],
    decreases n,
{
    if n > 1 {
        lemma_least_is_member(values, (n - 1) as nat);
        let j = choose|j: int| 0 <= j < n - 1 && least_of(values, (n - 1) as nat) == values[j];
        if values[n - 1].below(least_of(values, (n - 1) as nat)) {
            assert(least_of(values, n) == values[n - 1]);
        } else {
            assert(least_of(values, n) == values[j]);
        }
    } else {
        assert(least_of(values, n) == values[0]);
    }
}

/// The greatest of some values is one of them.
pub proof fn lemma_greatest_is_member<S: Scalar>(values: Seq<S>, n: nat)
    requires
        0 < n <= values.len(),
    ensures
        exists|j: int| 0 <= j < n && greatest_of(values, n) == values[j],
    decreases n,
{
    if n > 1 {
        lemma_greatest_is_member(values, (n - 1) as nat);
        let j = choose|j: int| 0 <= j < n - 1 && greatest_of(values, (n - 1) as nat) == values[j];
        if values[n - 1].below(greatest_of(values, (n - 1) as nat)) {
            assert(greatest_of(values, n) == values[j]);
        } else {
            assert(greatest_of(values, n) == values[n - 1]);
        }
    } else {
        assert(greatest_of(values, n) == values[0]);
    }
}

/// Where `below` is a strict weak order, none of the values is below the
/// least of them.
pub proof fn lemma_least_is_lower_bound<S: Scalar>(values: Seq<S>, n: nat, i: int)
    requires
        is_strict_weak_order::<S>(),
        0 <= i < n <= values.len(),
    ensures
        !values[i].below(least_of(values, n)),
    decreases n,
{
    if n > 1 {
        let kept = least_of(values, (n - 1) as nat);
        let next = values[n - 1];
        if i < n - 1 {
            lemma_least_is_lower_bound(values, (n - 1) as nat, i);
            if next.below(kept) {
                assert(!kept.below(next));
                assert(!values[i].below(kept));
                assert(!values[i].below(next));
            }
        } else {
            if next.below(kept) {
                assert(!next.below(next));
            }
        }
    } else {
        assert(!values[0].below(values[0]));
    }
}

/// Where `below` is a strict weak order, the greatest of the values is
/// below none of them.
pub proof fn lemma_greatest_is_upper_bound<S: Scalar>(values: Seq<S>, n: nat, i: int)
    requires
        is_strict_weak_order::<S>(),
        0 <= i < n <= values.len(),
    ensures
        !greatest_of(values, n).below(values[i]),
    decreases n,
{
    if n > 1 {
        let kept = greatest_of(values, (n - 1) as nat);
        let next = values[n - 1];
        if i < n - 1 {
            lemma_greatest_is_upper_bound(values, (n - 1) as nat, i);
            if !next.below(kept) {
                assert(!kept.below(values[i]));
                assert(!next.below(kept));
                assert(!next.below(values[i]));
            }
        } else {
            if next.below(kept) {
                assert(!kept.below(next));
            } else {
                assert(!next.below(next));
            }
        }
    } else {
        assert(!values[0].below(values[0]));
    }
}

/// With no curve the rectangle is the point at the origin.
pub proof fn lemma_bounds_of_none<S: Scalar>()
    ensures
        planned_bounds(Seq::<MyChartData<S>>::empty()) == (ViewBounds {
            x_min: S::zero_value(),
            x_max: S::zero_value(),
            y_min: S::zero_value(),
            y_max: S::zero_value(),
        }),
{
}

} // verus!
