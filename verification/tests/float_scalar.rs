use ode_chart::axis::ViewBounds;
use ode_chart::color::Rgb;
use ode_chart::components::chart::{validate, MyChart, MyChartData, MyChartMessage, DataError};
use ode_chart::frame::{CAPTION_SIZE, LABEL_AREA_SIZE, LEGEND_OPACITY_PERCENT, STROKE_WIDTH, SWATCH_LENGTH};
use ode_chart::integrator::integrate;
use ode_chart::scalar::Scalar;

/// Single-precision binary floating point as a scalar.
#[derive(Clone, Copy, Debug, PartialEq)]
struct Real(f32);

impl Scalar for Real {
    fn zero() -> Self {
        Real(0.0)
    }

    fn one() -> Self {
        Real(1.0)
    }

    fn from_count(n: usize) -> Self {
        Real(n as f32)
    }

    fn plus(self, other: Self) -> Self {
        Real(self.0 + other.0)
    }

    fn minus(self, other: Self) -> Self {
        Real(self.0 - other.0)
    }

    fn times(self, other: Self) -> Self {
        Real(self.0 * other.0)
    }

    fn over(self, other: Self) -> Self {
        Real(self.0 / other.0)
    }

    fn less_than(self, other: Self) -> bool {
        self.0 < other.0
    }

    fn is_finite(self) -> bool {
        self.0.is_finite()
    }
}

fn wave(x: Real, y: Real) -> Real {
    Real(x.0 * (x.0 * y.0).sin())
}

fn params(begin: f32, end: f32, y0: f32, count: usize) -> MyChartData<Real> {
    MyChartData { begin: Real(begin), end: Real(end), y0: Real(y0), count }
}

fn gray(level: u8) -> Rgb {
    Rgb { red: level, green: level, blue: level }
}

/// The same recurrence written out on plain floats.
fn by_hand(begin: f32, end: f32, y0: f32, count: usize) -> Vec<(f32, f32)> {
    let f = |x: f32, y: f32| x * (x * y).sin();
    let step = (end - begin) / count as f32;
    let mut x = begin;
    let mut y = y0;
    let mut s = vec![];
    while x < end {
        let k1 = f(x, y);
        let k2 = f(x + step / 2.0, y + step * k1 / 2.0);
        let k3 = f(x + step / 2.0, y + step * k2 / 2.0);
        let k4 = f(x + step, y + step * k3);
        y += step * (k1 + 2.0 * k2 + 2.0 * k3 + k4) / 6.0;
        s.push((x, y));
        x += step;
    }
    s
}

/// The recurrence in double precision, on the exact grid.
fn in_double(begin: f64, end: f64, y0: f64, count: usize) -> Vec<(f64, f64)> {
    let f = |x: f64, y: f64| x * (x * y).sin();
    let step = (end - begin) / count as f64;
    let mut y = y0;
    let mut s = vec![];
    for i in 0..count {
        let x = begin + step * i as f64;
        let k1 = f(x, y);
        let k2 = f(x + step / 2.0, y + step * k1 / 2.0);
        let k3 = f(x + step / 2.0, y + step * k2 / 2.0);
        let k4 = f(x + step, y + step * k3);
        y += step * (k1 + 2.0 * k2 + 2.0 * k3 + k4) / 6.0;
        s.push((x, y));
    }
    s
}

#[test]
fn sample_problem_has_one_hundred_points_on_the_grid() {
    let points = integrate(&params(0.0, 5.0, 1.0, 100), &wave);
    assert_eq!(points.len(), 100);
    assert_eq!((points[0].0).0, 0.0);
    for (i, p) in points.iter().enumerate() {
        let expected = 0.05 * i as f64;
        assert!(((p.0).0 as f64 - expected).abs() < 1e-5, "x[{}] = {}", i, (p.0).0);
    }
    assert!(((points[99].0).0 - 4.95).abs() < 1e-5);
    for i in 1..points.len() {
        assert!((points[i - 1].0).0 < (points[i].0).0);
    }
}

#[test]
fn sample_problem_matches_the_recurrence_bit_for_bit() {
    let points = integrate(&params(0.0, 5.0, 1.0, 100), &wave);
    let expected = by_hand(0.0, 5.0, 1.0, 100);
    assert_eq!(points.len(), expected.len());
    for (p, e) in points.iter().zip(expected.iter()) {
        assert_eq!((p.0).0.to_bits(), e.0.to_bits());
        assert_eq!((p.1).0.to_bits(), e.1.to_bits());
    }
}

#[test]
fn sample_problem_is_close_to_double_precision() {
    let points = integrate(&params(0.0, 5.0, 1.0, 100), &wave);
    let expected = in_double(0.0, 5.0, 1.0, 100);
    assert_eq!(points.len(), expected.len());
    for (p, e) in points.iter().zip(expected.iter()) {
        let got = (p.1).0 as f64;
        assert!((got - e.1).abs() <= 1e-4 * e.1.abs().max(1.0), "{} against {}", got, e.1);
    }
}

#[test]
fn first_sample_pairs_the_old_abscissa_with_the_new_value() {
    let points = integrate(&params(0.0, 5.0, 1.0, 100), &wave);
    assert_eq!((points[0].0).0, 0.0);
    assert_ne!((points[0].1).0, 1.0);
    let expected = by_hand(0.0, 5.0, 1.0, 100);
    assert_eq!((points[0].1).0, expected[0].1);
}

#[test]
fn exact_steps_give_exactly_count_points() {
    for &(begin, end, count) in [(0.0f32, 1.0f32, 2usize), (0.0, 1.0, 4), (1.0, 3.0, 8), (-2.0, 2.0, 16)].iter() {
        let points = integrate(&params(begin, end, 0.5, count), &wave);
        assert_eq!(points.len(), count);
        let step = (end - begin) / count as f32;
        for (i, p) in points.iter().enumerate() {
            assert_eq!((p.0).0, begin + step * i as f32);
        }
    }
}

#[test]
fn rounded_steps_can_give_one_point_more() {
    let points = integrate(&params(0.0, 1.0, 1.0, 100), &wave);
    assert_eq!(points.len(), 101);
    assert_eq!(points.len(), by_hand(0.0, 1.0, 1.0, 100).len());
    assert!((points[100].0).0 < 1.0);
}

#[test]
fn step_too_small_to_raise_the_abscissa_ends_the_sampling() {
    let points = integrate(&params(1.0e8, 100_000_008.0, 1.0, 100), &wave);
    assert_eq!(points.len(), 1);
    assert_eq!((points[0].0).0, 1.0e8);
    let points = integrate(&params(0.0, f32::MIN_POSITIVE, 1.0, 1 << 30), &wave);
    assert_eq!(points.len(), 1);
}

#[test]
fn endless_interval_is_left_after_one_step() {
    let points = integrate(&params(0.0, f32::INFINITY, 1.0, 10), &wave);
    assert_eq!(points.len(), 1);
    assert_eq!((points[0].0).0, 0.0);
}

#[test]
fn empty_or_inverted_interval_gives_no_points() {
    assert_eq!(integrate(&params(2.0, 2.0, 1.0, 10), &wave).len(), 0);
    assert_eq!(integrate(&params(5.0, 0.0, 1.0, 10), &wave).len(), 0);
    assert_eq!(integrate(&params(0.0, -0.0, 1.0, 10), &wave).len(), 0);
}

#[test]
fn undefined_end_gives_no_points() {
    assert_eq!(integrate(&params(0.0, f32::NAN, 1.0, 10), &wave).len(), 0);
    assert_eq!(integrate(&params(f32::NAN, 1.0, 1.0, 10), &wave).len(), 0);
}

#[test]
fn integration_repeats_itself() {
    let data = params(0.0, 5.0, 1.0, 100);
    let first = integrate(&data, &wave);
    let second = integrate(&data, &wave);
    assert_eq!(first, second);
    let other = integrate(&params(0.0, 5.0, 1.5, 100), &wave);
    assert_ne!(first, other);
}

#[test]
fn validate_accepts_and_refuses() {
    assert_eq!(validate(&params(0.0, 5.0, 1.0, 100)), Ok(()));
    assert_eq!(validate(&params(5.0, 0.0, 1.0, 1)), Ok(()));
    assert_eq!(validate(&params(0.0, 5.0, 1.0, 0)), Err(DataError::ZeroCount));
    assert_eq!(validate(&params(f32::NAN, 5.0, 1.0, 0)), Err(DataError::ZeroCount));
    assert_eq!(validate(&params(f32::NAN, 5.0, 1.0, 3)), Err(DataError::NonFinite));
    assert_eq!(validate(&params(0.0, f32::INFINITY, 1.0, 3)), Err(DataError::NonFinite));
    assert_eq!(validate(&params(0.0, 5.0, f32::NEG_INFINITY, 3)), Err(DataError::NonFinite));
}

#[test]
fn zero_count_is_refused_before_anything_is_computed() {
    let mut chart = MyChart::with_color("y' = x*sin(xy)", (Real(0.0), Real(5.0), Real(1.0), 100), wave, gray(1)).unwrap();
    let refused = chart.update(MyChartMessage::ChartUpdate((Real(0.0), Real(1.0), Real(0.0), 0)));
    assert_eq!(refused, Err(DataError::ZeroCount));
    assert_eq!(chart.len(), 1);
    assert_eq!(chart.append(params(0.0, 1.0, 0.0, 0), gray(2)), Err(DataError::ZeroCount));
    assert_eq!(chart.len(), 1);
    assert!(MyChart::with_color("c", (Real(0.0), Real(1.0), Real(0.0), 0), wave, gray(1)).is_err());
    assert!(MyChart::new("c", (Real(0.0), Real(1.0), Real(0.0), 0), wave).is_err());
}

#[test]
fn value_that_is_not_a_number_is_refused() {
    let mut chart = MyChart::with_color("c", (Real(0.0), Real(5.0), Real(1.0), 100), wave, gray(1)).unwrap();
    let refused = chart.update(MyChartMessage::ChartUpdate((Real(0.0), Real(f32::NAN), Real(0.0), 5)));
    assert_eq!(refused, Err(DataError::NonFinite));
    assert_eq!(chart.len(), 1);
    assert_eq!(
        MyChart::with_color("c", (Real(f32::INFINITY), Real(1.0), Real(0.0), 4), wave, gray(1)).err(),
        Some(DataError::NonFinite)
    );
}

#[test]
fn new_chart_holds_the_seed_curve() {
    let chart = MyChart::new("y' = x*sin(xy)", (Real(0.0), Real(5.0), Real(1.0), 100), wave).unwrap();
    assert_eq!(chart.caption(), "y' = x*sin(xy)");
    assert_eq!(chart.len(), 1);
    let seed = chart.series(0).unwrap();
    assert_eq!(seed.data.begin, Real(0.0));
    assert_eq!(seed.data.end, Real(5.0));
    assert_eq!(seed.data.y0, Real(1.0));
    assert_eq!(seed.data.count, 100);
    assert_eq!(seed.points, integrate(&params(0.0, 5.0, 1.0, 100), &wave));
    assert!(chart.series(1).is_none());
}

#[test]
fn update_adds_a_solved_curve_at_the_end() {
    let mut chart = MyChart::new("c", (Real(0.0), Real(5.0), Real(1.0), 100), wave).unwrap();
    assert_eq!(chart.update(MyChartMessage::ChartUpdate((Real(1.0), Real(2.0), Real(0.5), 4))), Ok(()));
    assert_eq!(chart.len(), 2);
    let added = chart.series(1).unwrap();
    assert_eq!(added.data.begin, Real(1.0));
    assert_eq!(added.data.count, 4);
    assert_eq!(added.points.len(), 4);
    assert_eq!(added.points, integrate(&params(1.0, 2.0, 0.5, 4), &wave));
    assert_eq!(chart.series(0).unwrap().data.count, 100);
    assert_eq!(chart.update(MyChartMessage::ChartClear), Ok(()));
    assert_eq!(chart.len(), 0);
}

fn bounds_of(chart: &MyChart<Real, fn(Real, Real) -> Real>) -> (f32, f32, f32, f32) {
    let ViewBounds { x_min, x_max, y_min, y_max } = chart.compute_bounds();
    (x_min.0, x_max.0, y_min.0, y_max.0)
}

fn chart_of(curves: &[(f32, f32, f32, usize)]) -> MyChart<Real, fn(Real, Real) -> Real> {
    let first = curves[0];
    let rhs: fn(Real, Real) -> Real = wave;
    let mut chart = MyChart::with_color("c", (Real(first.0), Real(first.1), Real(first.2), first.3), rhs, gray(0)).unwrap();
    for s in &curves[1..] {
        chart.append(params(s.0, s.1, s.2, s.3), gray(0)).unwrap();
    }
    chart
}

#[test]
fn bounds_of_an_empty_chart_are_the_origin() {
    let mut chart = chart_of(&[(0.0, 5.0, 1.0, 10)]);
    chart.clear();
    assert_eq!(bounds_of(&chart), (0.0, 0.0, 0.0, 0.0));
}

#[test]
fn bounds_of_one_curve() {
    let chart = chart_of(&[(0.0, 5.0, 1.0, 10)]);
    assert_eq!(bounds_of(&chart), (0.0, 5.0, 1.0, 2.0));
}

#[test]
fn bounds_of_two_curves() {
    let chart = chart_of(&[(0.0, 5.0, 1.0, 10), (-1.0, 3.0, 2.5, 10)]);
    assert_eq!(bounds_of(&chart), (-1.0, 5.0, 1.0, 3.5));
    let chart = chart_of(&[(-1.0, 3.0, 2.5, 10), (0.0, 5.0, 1.0, 10)]);
    assert_eq!(bounds_of(&chart), (-1.0, 5.0, 1.0, 3.5));
}

#[test]
fn bounds_of_three_curves() {
    let chart = chart_of(&[(2.0, 3.0, 0.0, 4), (-4.0, 1.0, -7.0, 4), (0.0, 9.0, 3.0, 4)]);
    assert_eq!(bounds_of(&chart), (-4.0, 9.0, -7.0, 4.0));
}

#[test]
fn bounds_follow_the_requested_interval_of_an_empty_curve() {
    let chart = chart_of(&[(5.0, 0.0, 1.0, 10)]);
    assert_eq!(chart.series(0).unwrap().points.len(), 0);
    assert_eq!(bounds_of(&chart), (5.0, 0.0, 1.0, 2.0));
}

#[test]
fn upper_bound_is_headroom_not_the_curve() {
    let grow: fn(Real, Real) -> Real = |_x, _y| Real(10.0);
    let chart = MyChart::with_color("c", (Real(0.0), Real(1.0), Real(0.0), 2), grow, gray(0)).unwrap();
    let top = chart.series(0).unwrap().points[1].1;
    assert_eq!(top, Real(10.0));
    assert_eq!(chart.compute_bounds().y_max, Real(1.0));
}

#[test]
fn equal_bounds_keep_the_first_least_and_the_last_greatest() {
    let chart = chart_of(&[(0.0, 1.0, 0.0, 2), (-0.0, 1.0, -0.0, 2)]);
    let bounds = chart.compute_bounds();
    assert_eq!(bounds.x_min.0.to_bits(), 0.0f32.to_bits());
    assert_eq!(bounds.y_min.0.to_bits(), 0.0f32.to_bits());
    let chart = chart_of(&[(-1.0, 0.0, 0.0, 2), (-1.0, -0.0, 0.0, 2)]);
    assert_eq!(chart.compute_bounds().x_max.0.to_bits(), (-0.0f32).to_bits());
}

#[test]
fn bounds_are_planned_anew_after_each_change() {
    let mut chart = chart_of(&[(0.0, 5.0, 1.0, 10)]);
    assert_eq!(bounds_of(&chart), (0.0, 5.0, 1.0, 2.0));
    chart.append(params(-3.0, 8.0, 4.0, 2), gray(0)).unwrap();
    assert_eq!(bounds_of(&chart), (-3.0, 8.0, 1.0, 5.0));
    chart.clear();
    assert_eq!(bounds_of(&chart), (0.0, 0.0, 0.0, 0.0));
}

#[test]
fn frame_lists_the_curves_in_plot_order() {
    let rhs: fn(Real, Real) -> Real = wave;
    let mut chart = MyChart::with_color("y' = x*sin(xy)", (Real(0.0), Real(5.0), Real(1.0), 100), rhs, gray(10)).unwrap();
    chart.append(params(0.0, 1.0, 2.0, 4), gray(20)).unwrap();
    let frame = chart.frame();
    assert_eq!(frame.caption, "y' = x*sin(xy)");
    assert_eq!(frame.bounds.x_max, Real(5.0));
    assert_eq!(frame.bounds.y_max, Real(3.0));
    assert_eq!(frame.plots.len(), 2);
    assert_eq!(frame.plots[0].label, "Series 1");
    assert_eq!(frame.plots[1].label, "Series 2");
    assert_eq!(frame.plots[0].color, gray(10));
    assert_eq!(frame.plots[1].color, gray(20));
    assert_eq!(frame.plots[0].stroke_width, 3);
    assert_eq!(frame.plots[1].stroke_width, STROKE_WIDTH);
    assert_eq!(frame.plots[0].points.len(), 100);
    assert_eq!(frame.plots[1].points, &integrate(&params(0.0, 1.0, 2.0, 4), &wave));
}

#[test]
fn frame_of_an_empty_chart_draws_nothing() {
    let mut chart = chart_of(&[(0.0, 5.0, 1.0, 10)]);
    chart.clear();
    let frame = chart.frame();
    assert_eq!(frame.plots.len(), 0);
    assert_eq!(frame.bounds.x_min, Real(0.0));
    assert_eq!(frame.bounds.x_max, Real(0.0));
    assert_eq!(frame.caption, "c");
}

#[test]
fn drawing_constants() {
    assert_eq!(STROKE_WIDTH, 3);
    assert_eq!(SWATCH_LENGTH, 20);
    assert_eq!(CAPTION_SIZE, 32);
    assert_eq!(LABEL_AREA_SIZE, 30);
    assert_eq!(LEGEND_OPACITY_PERCENT, 80);
}
