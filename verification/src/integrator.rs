//! Fixed-step integration of `y' = f(x, y)` by the classical fourth-order
//! Runge-Kutta method.

use crate::components::chart::MyChartData;
use crate::scalar::Scalar;
use vstd::prelude::*;

verus! {

/// The step: the interval's length divided by the number of steps.
pub open spec fn step_size<S: Scalar>(data: MyChartData<S>) -> S {
    data.end.difference(data.begin).quotient(S::of_count(data.count))
}

/// Half a step.
pub open spec fn half_step<S: Scalar>(h: S) -> S {
    h.quotient(S::of_count(2))
}

/// The value at which a midpoint slope is taken: `y + h * k / 2`.
pub open spec fn midpoint_y<S: Scalar>(y: S, h: S, k: S) -> S {
    y.sum(h.product(k).quotient(S::of_count(2)))
}

/// The value at which the last slope is taken: `y + h * k`.
pub open spec fn endpoint_y<S: Scalar>(y: S, h: S, k: S) -> S {
    y.sum(h.product(k))
}

/// `k1 + 2 * k2 + 2 * k3 + k4`, added from left to right.
pub open spec fn weighted_slopes<S: Scalar>(k1: S, k2: S, k3: S, k4: S) -> S {
    k1.sum(S::of_count(2).product(k2)).sum(S::of_count(2).product(k3)).sum(k4)
}

/// The value after one step: `y + h * (k1 + 2 * k2 + 2 * k3 + k4) / 6`.
pub open spec fn advance_y<S: Scalar>(y: S, h: S, k1: S, k2: S, k3: S, k4: S) -> S {
    y.sum(h.product(weighted_slopes(k1, k2, k3, k4)).quotient(S::of_count(6)))
}

/// `k1 .. k4` are slopes that `f` can return at the four stages of a step
/// of size `h` from `(x, y)`.
pub open spec fn slopes_of<S: Scalar, F: Fn(S, S) -> S>(
    f: F,
    x: S,
    y: S,
    h: S,
    k1: S,
    k2: S,
    k3: S,
    k4: S,
) -> bool {
    &&& f.ensures((x, y), k1)
    &&& f.ensures((x.sum(half_step(h)), midpoint_y(y, h, k1)), k2)
    &&& f.ensures((x.sum(half_step(h)), midpoint_y(y, h, k2)), k3)
    &&& f.ensures((x.sum(h), endpoint_y(y, h, k3)), k4)
}

/// `y_next` is a value that one Runge-Kutta step of size `h` from `(x, y)`
/// can give.
pub open spec fn rk4_step<S: Scalar, F: Fn(S, S) -> S>(f: F, x: S, y: S, h: S, y_next: S) -> bool {
    exists|k1: S, k2: S, k3: S, k4: S| #[trigger]
        slopes_of(f, x, y, h, k1, k2, k3, k4) && y_next == advance_y(y, h, k1, k2, k3, k4)
}

/// The abscissa of sample `i`: `begin` with the step added `i` times.
pub open spec fn grid<S: Scalar>(begin: S, h: S, i: nat) -> S
    decreases i,
{
    if i == 0 {
        begin
    } else {
        grid(begin, h, (i - 1) as nat).sum(h)
    }
}

/// The value from which step `i` starts: the initial value, then the ordinate
/// of the sample before.
pub open spec fn prior_y<S>(y0: S, points: Seq<(S, S)>, i: int) -> S {
    if i == 0 {
        y0
    } else {
        points[i - 1].1
    }
}

/// `points` are successive samples of the solution: sample `i` lies at
/// abscissa `grid(i)`, which is below `end`, and carries the value after the
/// step taken from there.
pub open spec fn is_trace<S: Scalar, F: Fn(S, S) -> S>(
    f: F,
    data: MyChartData<S>,
    points: Seq<(S, S)>,
) -> bool {
    forall|i: int|
        0 <= i < points.len() ==> {
            &&& (#[trigger] points[i]).0 == grid(data.begin, step_size(data), i as nat)
            &&& points[i].0.below(data.end)
            &&& rk4_step(f, points[i].0, prior_y(data.y0, points, i), step_size(data), points[i].1)
        }
}

/// From each sample to the next the abscissa rises.
pub open spec fn is_rising<S: Scalar>(points: Seq<(S, S)>) -> bool {
    forall|i: int| 0 <= i && i + 1 < points.len() ==> (#[trigger] points[i]).0.below(points[i + 1].0)
}

/// The abscissa after the last sample is no longer below `end`.
pub open spec fn is_complete<S: Scalar>(data: MyChartData<S>, points: Seq<(S, S)>) -> bool {
    !grid(data.begin, step_size(data), points.len()).below(data.end)
}

/// The step after the last sample did not raise the abscissa, so that no
/// number of further steps would reach `end`.
pub open spec fn is_stalled<S: Scalar>(data: MyChartData<S>, points: Seq<(S, S)>) -> bool {
    &&& points.len() > 0
    &&& !grid(data.begin, step_size(data), (points.len() - 1) as nat).below(
        grid(data.begin, step_size(data), points.len()),
    )
}

/// What `integrate` returns: a rising trace that ends where it is complete
/// or, failing that, where it has stalled or fills the address space.
pub open spec fn is_solution<S: Scalar, F: Fn(S, S) -> S>(
    f: F,
    data: MyChartData<S>,
    points: Seq<(S, S)>,
) -> bool {
    &&& is_trace(f, data, points)
    &&& is_rising(points)
    &&& points.len() <= usize::MAX
    &&& is_complete(data, points) || is_stalled(data, points) || points.len() == usize::MAX
}

/// Integrates `y' = f(x, y)` from `(begin, y0)` in steps of
/// `(end - begin) / count` while the abscissa is below `end`. Each sample
/// pairs the abscissa before a step with the value after it. An interval
/// that is empty or inverted gives no sample. How many samples there are
/// is up to the arithmetic: a rounded step may need one more than `count`
/// to pass `end`. A step too small to raise the abscissa would never pass
/// it: sampling then ends with the sample at which the abscissa stood
/// still.
pub fn integrate<S: Scalar, F: Fn(S, S) -> S>(data: &MyChartData<S>, f: &F) -> (points: Vec<(S, S)>)
    requires
        data.count > 0,
        forall|x: S, y: S| f.requires((x, y)),
    ensures
        is_solution(*f, *data, points@),
        !data.begin.below(data.end) ==> points@.len() == 0,
{
    let two = S::from_count(2);
    let six = S::from_count(6);
    let step = data.end.minus(data.begin).over(S::from_count(data.count));
    let mut x = data.begin;
    let mut y = data.y0;
    let mut rising = true;
    let mut points: Vec<(S, S)> = Vec::new();
    while rising && x.less_than(data.end) && points.len() < usize::MAX
        invariant
            forall|a: S, b: S| f.requires((a, b)),
            two == S::of_count(2),
            six == S::of_count(6),
            step == step_size(*data),
            x == grid(data.begin, step, points@.len()),
            y == prior_y(data.y0, points@, points@.len() as int),
            is_trace(*f, *data, points@),
            is_rising(points@),
            rising == (points@.len() == 0 || grid(data.begin, step, (points@.len() - 1) as nat).below(
                grid(data.begin, step, points@.len()),
            )),
            !data.begin.below(data.end) ==> points@.len() == 0,
        decreases usize::MAX - points.len(),
    {
        let ghost before = points@;
        let ghost y_before = y;
        let k1 = f(x, y);
        let k2 = f(x.plus(step.over(two)), y.plus(step.times(k1).over(two)));
        let k3 = f(x.plus(step.over(two)), y.plus(step.times(k2).over(two)));
        let k4 = f(x.plus(step), y.plus(step.times(k3)));
        y = y.plus(step.times(k1.plus(two.times(k2)).plus(two.times(k3)).plus(k4)).over(six));
        points.push((x, y));
        let next = x.plus(step);
        rising = x.less_than(next);
        proof {
            assert(slopes_of(*f, x, y_before, step, k1, k2, k3, k4));
            assert(rk4_step(*f, x, y_before, step, y));
            assert forall|i: int| 0 <= i < points@.len() implies {
                &&& (#[trigger] points@[i]).0 == grid(data.begin, step_size(*data), i as nat)
                &&& points@[i].0.below(data.end)
                &&& rk4_step(
                    *f,
                    points@[i].0,
                    prior_y(data.y0, points@, i),
                    step_size(*data),
                    points@[i].1,
                )
            } by {
                if i < before.len() {
                    assert(points@[i] == before[i]);
                    assert(prior_y(data.y0, points@, i) == prior_y(data.y0, before, i));
                }
            }
            assert forall|i: int| 0 <= i && i + 1 < points@.len() implies (#[trigger] points@[i]).0.below(
                points@[i + 1].0,
            ) by {
                assert(points@[i] == before[i]);
                if i + 1 < before.len() {
                    assert(points@[i + 1] == before[i + 1]);
                }
            }
        }
        x = next;
    }
    assert(points@.len() == points.len());
    points
}

/// `f` returns one value for each argument.
pub open spec fn is_function<S, F: Fn(S, S) -> S>(f: F) -> bool {
    forall|x: S, y: S, r1: S, r2: S|
        #[trigger] f.ensures((x, y), r1) && #[trigger] f.ensures((x, y), r2) ==> r1 == r2
}

/// Where `f` is a function, a step from `(x, y)` has one result.
pub proof fn lemma_step_unique<S: Scalar, F: Fn(S, S) -> S>(f: F, x: S, y: S, h: S, a: S, b: S)
    requires
        is_function(f),
        rk4_step(f, x, y, h, a),
        rk4_step(f, x, y, h, b),
    ensures
        a == b,
{
    let (k1, k2, k3, k4) = choose|k1: S, k2: S, k3: S, k4: S| #[trigger]
        slopes_of(f, x, y, h, k1, k2, k3, k4) && a == advance_y(y, h, k1, k2, k3, k4);
    let (j1, j2, j3, j4) = choose|j1: S, j2: S, j3: S, j4: S| #[trigger]
        slopes_of(f, x, y, h, j1, j2, j3, j4) && b == advance_y(y, h, j1, j2, j3, j4);
    assert(k1 == j1);
    assert(k2 == j2);
    assert(k3 == j3);
    assert(k4 == j4);
}

/// Where `f` is a function, two traces of one problem hold the same sample
/// at every index they share.
pub proof fn lemma_traces_agree<S: Scalar, F: Fn(S, S) -> S>(
    f: F,
    data: MyChartData<S>,
    p: Seq<(S, S)>,
    q: Seq<(S, S)>,
    i: int,
)
    requires
        is_function(f),
        is_trace(f, data, p),
        is_trace(f, data, q),
        0 <= i < p.len(),
        i < q.len(),
    ensures
        p[i] == q[i],
    decreases i,
{
    if i > 0 {
        lemma_traces_agree(f, data, p, q, i - 1);
    }
    assert(p[i].0 == q[i].0);
    assert(prior_y(data.y0, p, i) == prior_y(data.y0, q, i));
    lemma_step_unique(f, p[i].0, prior_y(data.y0, p, i), step_size(data), p[i].1, q[i].1);
}

/// Integration is deterministic: where `f` is a function, a problem has one
/// solution, so two runs on the same arguments return the same samples.
pub proof fn lemma_solution_unique<S: Scalar, F: Fn(S, S) -> S>(
    f: F,
    data: MyChartData<S>,
    p: Seq<(S, S)>,
    q: Seq<(S, S)>,
)
    requires
        is_function(f),
        is_solution(f, data, p),
        is_solution(f, data, q),
    ensures
        p == q,
{
    if p.len() < q.len() {
        assert(q[p.len() as int].0.below(data.end));
    } else if q.len() < p.len() {
        assert(p[q.len() as int].0.below(data.end));
    }
    assert forall|i: int| 0 <= i < p.len() implies p[i] == q[i] by {
        lemma_traces_agree(f, data, p, q, i);
    }
    assert(p =~= q);
}

/// Successive samples are one step apart, and the first lies at `begin`.
pub proof fn lemma_trace_spacing<S: Scalar, F: Fn(S, S) -> S>(
    f: F,
    data: MyChartData<S>,
    points: Seq<(S, S)>,
    i: int,
)
    requires
        is_trace(f, data, points),
        0 <= i < points.len(),
    ensures
        i == 0 ==> points[i].0 == data.begin,
        i > 0 ==> points[i].0 == points[i - 1].0.sum(step_size(data)),
{
    if i > 0 {
        assert(points[i - 1].0 == grid(data.begin, step_size(data), (i - 1) as nat));
    }
}

} // verus!
