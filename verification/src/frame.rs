//! The frame to draw: what a renderer needs, in the order in which it
//! draws it.

use crate::axis::{parameters_of, plan_bounds, planned_bounds, ViewBounds};
use crate::color::Rgb;
use crate::components::chart::Series;
use crate::scalar::Scalar;
use vstd::prelude::*;

verus! {

/// The width of a curve's stroke, in pixels.
pub const STROKE_WIDTH: u32 = 3;

/// The length of the colour swatch beside a legend label, in pixels.
pub const SWATCH_LENGTH: u32 = 20;

/// The size of the caption's font.
pub const CAPTION_SIZE: u32 = 32;

/// The width of the area kept free for the labels of each axis, in pixels.
pub const LABEL_AREA_SIZE: u32 = 30;

/// How opaque the legend's white background is, in percent.
pub const LEGEND_OPACITY_PERCENT: u8 = 80;

/// The character of a decimal digit.
pub open spec fn digit_char(d: nat) -> char {
    if d == 0 {
        '0'
    } else if d == 1 {
        '1'
    } else if d == 2 {
        '2'
    } else if d == 3 {
        '3'
    } else if d == 4 {
        '4'
    } else if d == 5 {
        '5'
    } else if d == 6 {
        '6'
    } else if d == 7 {
        '7'
    } else if d == 8 {
        '8'
    } else {
        '9'
    }
}

/// A number in decimal, without leading zeros.
pub open spec fn decimal(n: nat) -> Seq<char>
    decreases n,
{
    if n < 10 {
        seq![digit_char(n)]
    } else {
        decimal(n / 10).push(digit_char(n % 10))
    }
}

/// The legend label of the curve at a position in plot order: the word
/// `Series` and the position counted from one.
pub open spec fn label_text(index: nat) -> Seq<char> {
    seq!['S', 'e', 'r', 'i', 'e', 's', ' '] + decimal(index + 1)
}

fn digit_str(d: u8) -> (s: &'static str)
    requires
        d < 10,
    ensures
        s@ == seq![digit_char(d as nat)],
{
    proof {
        reveal_strlit("0");
        reveal_strlit("1");
        reveal_strlit("2");
        reveal_strlit("3");
        reveal_strlit("4");
        reveal_strlit("5");
        reveal_strlit("6");
        reveal_strlit("7");
        reveal_strlit("8");
        reveal_strlit("9");
    }
    let s = if d == 0 {
        "0"
    } else if d == 1 {
        "1"
    } else if d == 2 {
        "2"
    } else if d == 3 {
        "3"
    } else if d == 4 {
        "4"
    } else if d == 5 {
        "5"
    } else if d == 6 {
        "6"
    } else if d == 7 {
        "7"
    } else if d == 8 {
        "8"
    } else {
        "9"
    };
    assert(s@ =~= seq![digit_char(d as nat)]);
    s
}

fn push_decimal(text: &mut String, n: u128)
    ensures
        final(text)@ == old(text)@ + decimal(n as nat),
    decreases n,
{
    if n >= 10 {
        push_decimal(text, n / 10);
    }
    let digit: u8 = (n % 10) as u8;
    text.append(digit_str(digit));
    assert(text@ =~= old(text)@ + decimal(n as nat));
}

/// The legend label of the curve at a position in plot order.
pub fn legend_label(index: usize) -> (label: String)
    ensures
        label@ == label_text(index as nat),
{
    let mut label = String::from_str("Series ");
    proof {
        reveal_strlit("Series ");
    }
    assert(label@ =~= seq!['S', 'e', 'r', 'i', 'e', 's', ' ']);
    let position: u128 = index as u128 + 1;
    push_decimal(&mut label, position);
    label
}

/// One curve as it is drawn: a polyline through its samples, and the entry
/// that names it in the legend.
#[derive(Debug)]
pub struct SeriesPlot<'a, S> {
    pub label: String,
    pub color: Rgb,
    pub stroke_width: u32,
    pub points: &'a Vec<(S, S)>,
}

/// A frame: the caption, the viewing rectangle for the axes and the mesh,
/// and the curves in the order in which they are drawn and listed. The
/// legend box comes last, once, after every curve.
#[derive(Debug)]
pub struct Frame<'a, S> {
    pub caption: &'a str,
    pub bounds: ViewBounds<S>,
    pub plots: Vec<SeriesPlot<'a, S>>,
}

/// `plots` draws the curves of `series`, one plot each, in the same order.
pub open spec fn plots_match<S>(plots: Seq<SeriesPlot<S>>, series: Seq<Series<S>>) -> bool {
    &&& plots.len() == series.len()
    &&& forall|i: int|
        0 <= i < plots.len() ==> {
            &&& (#[trigger] plots[i]).label@ == label_text(i as nat)
            &&& plots[i].color == series[i].color
            &&& plots[i].stroke_width == STROKE_WIDTH
            &&& plots[i].points@ == series[i].points@
        }
}

/// Lays out the frame for a caption and the curves of a chart.
pub fn plan_frame<'a, S: Scalar>(caption: &'a str, series: &'a Vec<Series<S>>) -> (frame: Frame<
    'a,
    S,
>)
    ensures
        frame.caption@ == caption@,
        frame.bounds == planned_bounds(parameters_of(series@)),
        plots_match(frame.plots@, series@),
{
    let bounds = plan_bounds(series);
    let mut plots: Vec<SeriesPlot<'a, S>> = Vec::new();
    let mut i: usize = 0;
    while i < series.len()
        invariant
            i <= series.len(),
            plots@.len() == i,
            forall|j: int|
                0 <= j < i ==> {
                    &&& (#[trigger] plots@[j]).label@ == label_text(j as nat)
                    &&& plots@[j].color == series@[j].color
                    &&& plots@[j].stroke_width == STROKE_WIDTH
                    &&& plots@[j].points@ == series@[j].points@
                },
        decreases series.len() - i,
    {
        let item = &series[i];
        plots.push(
            SeriesPlot {
                label: legend_label(i),
                color: item.color,
                stroke_width: STROKE_WIDTH,
                points: &item.points,
            },
        );
        i += 1;
    }
    Frame { caption, bounds, plots }
}

} // verus!
