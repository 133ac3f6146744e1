use crate::axis::{parameters_of, plan_bounds, planned_bounds, ViewBounds};
use crate::color::{random_color, Rgb};
use crate::frame::{label_text, plan_frame, plots_match, Frame};
use crate::integrator::{integrate, is_solution};
use crate::scalar::Scalar;
use vstd::prelude::*;

verus! {

/// The parameters of one curve: the interval, the initial value and the
/// number of integration steps.
#[derive(Debug)]
pub struct MyChartData<S> {
    pub begin: S,
    pub end: S,
    pub y0: S,
    pub count: usize,
}

impl<S: Copy> Clone for MyChartData<S> {
    fn clone(&self) -> (r: Self)
        ensures
            r == *self,
    {
        *self
    }
}

impl<S: Copy> Copy for MyChartData<S> {

}

/// One solved curve: its parameters, its samples and its display colour.
#[derive(Debug)]
pub struct Series<S> {
    pub data: MyChartData<S>,
    pub points: Vec<(S, S)>,
    pub color: Rgb,
}

/// A command to the chart: plot one more curve, or drop them all.
#[derive(Debug)]
pub enum MyChartMessage<S> {
    ChartUpdate((S, S, S, usize)),
    ChartClear,
}

impl<S: Copy> Clone for MyChartMessage<S> {
    fn clone(&self) -> (r: Self)
        ensures
            r == *self,
    {
        match self {
            MyChartMessage::ChartUpdate(t) => MyChartMessage::ChartUpdate(*t),
            MyChartMessage::ChartClear => MyChartMessage::ChartClear,
        }
    }
}

/// Why a curve's parameters are refused.
#[derive(Debug, Clone, Copy, PartialEq, Eq, Structural)]
pub enum DataError {
    /// The number of steps is zero, so there is no step size.
    ZeroCount,
    /// An end of the interval or the initial value is not an ordinary number.
    NonFinite,
}

/// The parameters that a tuple `(begin, end, y0, count)` stands for.
pub open spec fn data_of<S>(t: (S, S, S, usize)) -> MyChartData<S> {
    MyChartData { begin: t.0, end: t.1, y0: t.2, count: t.3 }
}

/// The reason to refuse the parameters, if there is one. A zero count is
/// reported before a value that is not finite.
pub open spec fn rejection<S: Scalar>(data: MyChartData<S>) -> Option<DataError> {
    if data.count == 0 {
        Some(DataError::ZeroCount)
    } else if !(data.begin.finite() && data.end.finite() && data.y0.finite()) {
        Some(DataError::NonFinite)
    } else {
        None
    }
}

/// Parameters are valid where nothing speaks against them: a positive count
/// and three finite values. The interval may be empty or inverted.
pub open spec fn is_valid<S: Scalar>(data: MyChartData<S>) -> bool {
    rejection(data) is None
}

/// Checks the parameters of a curve before anything is computed from them.
pub fn validate<S: Scalar>(data: &MyChartData<S>) -> (r: Result<(), DataError>)
    ensures
        r == (match rejection(*data) {
            Some(e) => Err::<(), DataError>(e),
            None => Ok::<(), DataError>(()),
        }),
{
    if data.count == 0 {
        return Err(DataError::ZeroCount);
    }
    if !data.begin.is_finite() {
        return Err(DataError::NonFinite);
    }
    if !data.end.is_finite() {
        return Err(DataError::NonFinite);
    }
    if !data.y0.is_finite() {
        return Err(DataError::NonFinite);
    }
    Ok(())
}

/// The chart engine: the solved curves in plot order, the right-hand side
/// `f` of `y' = f(x, y)` and the chart's caption.
pub struct MyChart<S, F> {
    series_collection: Vec<Series<S>>,
    func: F,
    caption: String,
}

impl<S: Scalar, F: Fn(S, S) -> S> MyChart<S, F> {
    /// The curves, in the order in which they were added: the order in which
    /// they are drawn and listed in the legend.
    pub closed spec fn store(&self) -> Seq<Series<S>> {
        self.series_collection@
    }

    /// The right-hand side, fixed when the chart is made.
    pub closed spec fn rhs(&self) -> F {
        self.func
    }

    /// The caption, fixed when the chart is made.
    pub closed spec fn title(&self) -> Seq<char> {
        self.caption@
    }

    /// The right-hand side can be called anywhere, and every curve holds
    /// valid parameters with a solution of them.
    pub open spec fn wf(&self) -> bool {
        &&& forall|x: S, y: S| self.rhs().requires((x, y))
        &&& forall|i: int|
            0 <= i < self.store().len() ==> {
                &&& is_valid((#[trigger] self.store()[i]).data)
                &&& is_solution(self.rhs(), self.store()[i].data, self.store()[i].points@)
            }
    }

    /// `self` is `before` with one curve added at the end, solved from
    /// `data`.
    pub open spec fn has_appended(&self, before: Self, data: MyChartData<S>) -> bool {
        &&& self.store().len() == before.store().len() + 1
        &&& self.store().drop_last() == before.store()
        &&& self.store().last().data == data
        &&& is_solution(self.rhs(), data, self.store().last().points@)
    }

    /// A chart seeded with one curve in the given colour.
    pub fn with_color(caption: &str, initial: (S, S, S, usize), func: F, color: Rgb) -> (r: Result<
        Self,
        DataError,
    >)
        requires
            forall|x: S, y: S| func.requires((x, y)),
        ensures
            match r {
                Ok(chart) => {
                    &&& rejection(data_of(initial)) is None
                    &&& chart.wf()
                    &&& chart.rhs() == func
                    &&& chart.title() == caption@
                    &&& chart.store().len() == 1
                    &&& chart.store()[0].data == data_of(initial)
                    &&& chart.store()[0].color == color
                },
                Err(e) => rejection(data_of(initial)) == Some(e),
            },
    {
        let data = MyChartData { begin: initial.0, end: initial.1, y0: initial.2, count: initial.3 };
        match validate(&data) {
            Err(e) => Err(e),
            Ok(()) => {
                let points = integrate(&data, &func);
                let mut series_collection: Vec<Series<S>> = Vec::new();
                series_collection.push(Series { data, points, color });
                Ok(MyChart { series_collection, func, caption: caption.to_owned() })
            },
        }
    }

    /// A chart seeded with one curve in a colour drawn at random.
    pub fn new(caption: &str, initial: (S, S, S, usize), func: F) -> (r: Result<Self, DataError>)
        requires
            forall|x: S, y: S| func.requires((x, y)),
        ensures
            match r {
                Ok(chart) => {
                    &&& rejection(data_of(initial)) is None
                    &&& chart.wf()
                    &&& chart.rhs() == func
                    &&& chart.title() == caption@
                    &&& chart.store().len() == 1
                    &&& chart.store()[0].data == data_of(initial)
                },
                Err(e) => rejection(data_of(initial)) == Some(e),
            },
    {
        Self::with_color(caption, initial, func, random_color())
    }

    /// Solves the curve that `data` describes and adds it, in the given
    /// colour, after the curves already there. Refused parameters leave the
    /// chart as it was.
    pub fn append(&mut self, data: MyChartData<S>, color: Rgb) -> (r: Result<(), DataError>)
        requires
            old(self).wf(),
        ensures
            final(self).wf(),
            final(self).rhs() == old(self).rhs(),
            final(self).title() == old(self).title(),
            match r {
                Ok(()) => {
                    &&& rejection(data) is None
                    &&& final(self).has_appended(*old(self), data)
                    &&& final(self).store().last().color == color
                },
                Err(e) => rejection(data) == Some(e) && final(self).store() == old(self).store(),
            },
    {
        match validate(&data) {
            Err(e) => Err(e),
            Ok(()) => {
                assert(self.func == old(self).rhs());
                let points = integrate(&data, &self.func);
                self.series_collection.push(Series { data, points, color });
                proof {
                    assert(self.store().drop_last() =~= old(self).store());
                    assert forall|i: int| 0 <= i < self.store().len() implies {
                        &&& is_valid((#[trigger] self.store()[i]).data)
                        &&& is_solution(self.rhs(), self.store()[i].data, self.store()[i].points@)
                    } by {
                        if i < old(self).store().len() {
                            assert(self.store()[i] == old(self).store()[i]);
                        }
                    }
                }
                Ok(())
            },
        }
    }

    /// Drops every curve.
    pub fn clear(&mut self)
        ensures
            final(self).has_cleared(*old(self)),
            old(self).wf() ==> final(self).wf(),
    {
        self.series_collection = Vec::new();
        assert(self.rhs() == old(self).rhs());
    }

    /// Carries out a command. `ChartUpdate` adds the curve of the given
    /// parameters in a colour drawn at random, or refuses them and leaves
    /// the chart as it was; `ChartClear` drops every curve.
    pub fn update(&mut self, message: MyChartMessage<S>) -> (r: Result<(), DataError>)
        requires
            old(self).wf(),
        ensures
            final(self).wf(),
            final(self).rhs() == old(self).rhs(),
            final(self).title() == old(self).title(),
            match message {
                MyChartMessage::ChartUpdate(t) => match r {
                    Ok(()) => {
                        &&& rejection(data_of(t)) is None
                        &&& final(self).has_appended(*old(self), data_of(t))
                    },
                    Err(e) => {
                        &&& rejection(data_of(t)) == Some(e)
                        &&& final(self).store() == old(self).store()
                    },
                },
                MyChartMessage::ChartClear => r is Ok && final(self).has_cleared(*old(self)),
            },
    {
        match message {
            MyChartMessage::ChartUpdate(t) => {
                let data = MyChartData { begin: t.0, end: t.1, y0: t.2, count: t.3 };
                self.append(data, random_color())
            },
            MyChartMessage::ChartClear => {
                self.clear();
                Ok(())
            },
        }
    }

    /// The number of curves.
    pub fn len(&self) -> (n: usize)
        ensures
            n == self.store().len(),
    {
        self.series_collection.len()
    }

    /// The curve at a position in plot order, if there is one.
    pub fn series(&self, index: usize) -> (s: Option<&Series<S>>)
        ensures
            index < self.store().len() ==> s == Some(&self.store()[index as int]),
            index >= self.store().len() ==> s is None,
    {
        if index < self.series_collection.len() {
            Some(&self.series_collection[index])
        } else {
            None
        }
    }

    /// The caption.
    pub fn caption(&self) -> (c: &str)
        ensures
            c@ == self.title(),
    {
        self.caption.as_str()
    }

    /// The viewing rectangle that covers the curves now in the chart. It is
    /// planned anew at every call.
    pub fn compute_bounds(&self) -> (bounds: ViewBounds<S>)
        ensures
            bounds == planned_bounds(parameters_of(self.store())),
    {
        plan_bounds(&self.series_collection)
    }

    /// The frame to draw for the curves now in the chart: the caption, the
    /// viewing rectangle, and every curve in plot order with its colour,
    /// stroke and legend label.
    pub fn frame(&self) -> (frame: Frame<'_, S>)
        ensures
            frame.caption@ == self.title(),
            frame.bounds == planned_bounds(parameters_of(self.store())),
            plots_match(frame.plots@, self.store()),
    {
        plan_frame(self.caption.as_str(), &self.series_collection)
    }

    /// `self` is `before` with every curve dropped.
    pub open spec fn has_cleared(&self, before: Self) -> bool {
        &&& self.store().len() == 0
        &&& self.rhs() == before.rhs()
        &&& self.title() == before.title()
    }

    /// A chart that was cleared after a curve was added holds no curve.
    pub proof fn lemma_append_then_clear(
        before: Self,
        added: Self,
        cleared: Self,
        data: MyChartData<S>,
    )
        requires
            added.has_appended(before, data),
            cleared.has_cleared(added),
        ensures
            cleared.store().len() == 0,
    {
    }

    /// Two curves added to an empty chart stand in it in the order in which
    /// they were added, and the legend calls them `Series 1` and `Series 2`.
    pub proof fn lemma_append_twice(
        empty: Self,
        first: Self,
        second: Self,
        a: MyChartData<S>,
        b: MyChartData<S>,
    )
        requires
            empty.store().len() == 0,
            first.has_appended(empty, a),
            second.has_appended(first, b),
        ensures
            second.store().len() == 2,
            second.store()[0].data == a,
            second.store()[1].data == b,
            label_text(0) == seq!['S', 'e', 'r', 'i', 'e', 's', ' ', '1'],
            label_text(1) == seq!['S', 'e', 'r', 'i', 'e', 's', ' ', '2'],
    {
        assert(second.store()[0] == second.store().drop_last()[0]);
        assert(first.store()[0] == first.store().last());
        assert(label_text(0) =~= seq!['S', 'e', 'r', 'i', 'e', 's', ' ', '1']);
        assert(label_text(1) =~= seq!['S', 'e', 'r', 'i', 'e', 's', ' ', '2']);
    }
}

} // verus!
