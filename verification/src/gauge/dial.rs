//! The dial: a circular gauge with an arc that grows with the value, two
//! rings, tick marks, a title and the value as text.

use super::format::{format_value, spec_format};
use super::{views, Alignment, Colour, Digits, Font, SetValue, Shape, ShapeView, Stroke};
use crate::config::Config;
use crate::geometry::{half_extent, Circle, Point, Rect};
use crate::scalar::{spec_position, Fraction, Quotient, Scalar, UNIT};
use vstd::arithmetic::div_mod::{
    lemma_div_is_ordered, lemma_div_multiples_vanish, lemma_fundamental_div_mod,
    lemma_fundamental_div_mod_converse,
};
use vstd::prelude::*;

verus! {

/// The angle through which the arc of a dial at its maximum sweeps, in grid
/// steps of a degree: 270 degrees.
pub const RANGE: i64 = 270 * UNIT;

/// A full turn in grid steps of a degree.
pub const FULL_TURN: i64 = 360 * UNIT;

/// Where the arc of a dial starts, counter-clockwise from three o'clock:
/// 270 degrees, the six o'clock position.
pub const ARC_START: i64 = 270 * UNIT;

/// The diameter of the arc that shows the value.
pub const ARC_DIAMETER: u32 = 112;

/// The radius of the outer ring.
pub const OUTER_RADIUS: u8 = 56;

/// The radius of the inner ring.
pub const INNER_RADIUS: u8 = 48;

/// The row of the title.
pub const TITLE_ROW: i32 = 40;

/// The angle of the arc for `value` on a dial from `min` to `max`:
/// `(value - min) / (max - min)` of 270 degrees. Values outside the range
/// are not clamped.
pub open spec fn spec_sweep(value: Scalar, min: Scalar, max: Scalar) -> Scalar {
    spec_position(value, min, max).affine(0, RANGE as int)
}

/// The angle of the tick for `value` on a dial from `min` to `max`: a full
/// turn less the part of the 270 degrees that lies beyond `value`.
pub open spec fn spec_tick_angle(value: Scalar, min: Scalar, max: Scalar) -> Scalar {
    match spec_position(value, min, max) {
        Fraction::Ratio { num, den } => Scalar::of_raw((FULL_TURN * den - RANGE * (den - num)) / den),
        Fraction::PosInf => Scalar::PosInf,
        Fraction::NegInf => Scalar::NegInf,
        Fraction::NaN => Scalar::NaN,
    }
}

/// The tick for `value`.
pub open spec fn spec_tick(
    value: Scalar,
    min: Scalar,
    max: Scalar,
    bounding: Rect,
    colour: Colour,
) -> ShapeView {
    ShapeView::Tick {
        center: Point { x: bounding.center_x() as i32, y: bounding.center_y() as i32 },
        inner_radius: INNER_RADIUS as u32,
        outer_radius: (OUTER_RADIUS - 1) as u32,
        angle: spec_tick_angle(value, min, max),
        stroke: Stroke { colour, width: 2 },
    }
}

/// A ring of the given radius round the centre of `bounding`: an arc of
/// 270 degrees, clockwise from six o'clock.
pub open spec fn spec_ring(radius: u8, bounding: Rect, colour: Colour) -> ShapeView {
    ShapeView::Arc {
        circle: Circle {
            top_left: Point {
                x: (bounding.center_x() - half_extent((radius * 2) as u32)) as i32,
                y: (bounding.center_y() - half_extent((radius * 2) as u32)) as i32,
            },
            diameter: (radius * 2) as u32,
        },
        start: Scalar::Finite(ARC_START),
        sweep: Scalar::Finite((-RANGE) as i64),
        stroke: Stroke { colour, width: 2 },
    }
}

/// What a dial draws whatever its value: the title, the outer and the inner
/// ring, and a tick each for the minimum, the maximum and the indicators,
/// in this order.
pub open spec fn spec_static_shapes(
    title: Seq<char>,
    min: Scalar,
    max: Scalar,
    bounding: Rect,
    indicators: Seq<Scalar>,
    colour: Colour,
) -> Seq<ShapeView> {
    seq![
        ShapeView::Text {
            text: title,
            position: Point { x: bounding.center_x() as i32, y: TITLE_ROW },
            font: Font::Font6x9,
            alignment: Alignment::Center,
            colour,
        },
        spec_ring(OUTER_RADIUS, bounding, colour),
        spec_ring(INNER_RADIUS, bounding, colour),
        spec_tick(min, min, max, bounding, colour),
        spec_tick(max, min, max, bounding, colour),
    ] + indicators.map_values(|value: Scalar| spec_tick(value, min, max, bounding, colour))
}

/// A dial.
#[derive(Clone, Debug, PartialEq, Eq)]
pub struct Dial {
    pub title: String,
    pub min_value: Scalar,
    pub max_value: Scalar,
    pub current_value: Scalar,
    pub digits: Digits,
    pub bounding: Rect,
    pub arc_stroke: Stroke,
    pub outline: Stroke,
    pub colour: Colour,
    pub outer_radius: u8,
    pub inner_radius: u8,
    /// What the dial draws whatever its value.
    pub drawables: Vec<Shape>,
}

impl Dial {
    /// Whether a dial can stand in `bounding`: every position that it
    /// derives from the rectangle is a pixel position.
    pub open spec fn fits(bounding: Rect) -> bool {
        &&& bounding.has_center()
        &&& bounding.center_x() - half_extent((OUTER_RADIUS * 2) as u32) >= i32::MIN
        &&& bounding.center_y() - half_extent((OUTER_RADIUS * 2) as u32) >= i32::MIN
        &&& bounding.top_left.x + 2 + half_extent(ARC_DIAMETER) <= i32::MAX
    }

    /// The dial stands where a dial fits, and its radii and styles are those
    /// of every dial.
    pub open spec fn wf(&self) -> bool {
        &&& Dial::fits(self.bounding)
        &&& self.outer_radius == OUTER_RADIUS
        &&& self.inner_radius == INNER_RADIUS
        &&& self.arc_stroke == (Stroke { colour: self.colour, width: 5 })
        &&& self.outline == (Stroke { colour: self.colour, width: 2 })
    }

    /// The dial is as `new` makes it from these.
    pub open spec fn is_new(
        &self,
        title: Seq<char>,
        min_value: Scalar,
        max_value: Scalar,
        current_value: Scalar,
        digits: Digits,
        bounding: Rect,
        indicators: Seq<Scalar>,
        colour: Colour,
    ) -> bool {
        &&& self.wf()
        &&& self.title@ == title
        &&& self.min_value == min_value
        &&& self.max_value == max_value
        &&& self.current_value == current_value
        &&& self.digits == digits
        &&& self.bounding == bounding
        &&& self.colour == colour
        &&& self.static_shapes() == spec_static_shapes(
            title,
            min_value,
            max_value,
            bounding,
            indicators,
            colour,
        )
    }

    /// What the dial draws whatever its value.
    pub open spec fn static_shapes(&self) -> Seq<ShapeView> {
        views(self.drawables@)
    }

    /// The angle of the arc for the current value.
    pub open spec fn spec_sweep(&self) -> Scalar {
        spec_sweep(self.current_value, self.min_value, self.max_value)
    }

    /// What the dial draws: the arc for the current value, clockwise from
    /// six o'clock, the value as text in the middle of that arc, and then
    /// what it draws whatever the value.
    pub open spec fn spec_draw(&self) -> Seq<ShapeView> {
        seq![
            ShapeView::Arc {
                circle: Circle {
                    top_left: Point { x: (self.bounding.top_left.x + 2) as i32, y: 2 },
                    diameter: ARC_DIAMETER,
                },
                start: Scalar::Finite(ARC_START),
                sweep: self.spec_sweep().spec_negate(),
                stroke: Stroke { colour: self.colour, width: 5 },
            },
            ShapeView::Text {
                text: spec_format(self.current_value, self.digits),
                position: Point {
                    x: (self.bounding.top_left.x + 2 + half_extent(ARC_DIAMETER)) as i32,
                    y: (2 + half_extent(ARC_DIAMETER)) as i32,
                },
                font: Font::Font10x20,
                alignment: Alignment::Center,
                colour: self.colour,
            },
        ] + self.static_shapes()
    }

    /// Whether a dial can stand in `bounding`.
    pub fn check_fits(bounding: &Rect) -> (ok: bool)
        ensures
            ok == Dial::fits(*bounding),
    {
        if !bounding.check_center() {
            return false;
        }
        let center = bounding.center();
        center.x >= i32::MIN + 55 && center.y >= i32::MIN + 55 && bounding.top_left.x <= i32::MAX
            - 57
    }

    /// A dial from `min_value` to `max_value` that shows `current_value`,
    /// with a tick at each end of the range and at each of `indicators`,
    /// in the primary colour of `config`.
    pub fn new(
        title: &str,
        min_value: Scalar,
        max_value: Scalar,
        current_value: Scalar,
        digits: Digits,
        bounding: Rect,
        indicators: &[Scalar],
        config: &Config,
    ) -> (dial: Dial)
        requires
            Dial::fits(bounding),
        ensures
            dial.is_new(
                title@,
                min_value,
                max_value,
                current_value,
                digits,
                bounding,
                indicators@,
                Colour::spec_primary(*config),
            ),
    {
        let primary = Colour::primary(config);
        let mut ret = Dial {
            title: title.to_owned(),
            min_value,
            max_value,
            current_value,
            digits,
            bounding,
            arc_stroke: Stroke { colour: primary, width: 5 },
            outline: Stroke { colour: primary, width: 2 },
            colour: primary,
            outer_radius: OUTER_RADIUS,
            inner_radius: INNER_RADIUS,
            drawables: Vec::new(),
        };
        let center = ret.bounding.center();
        ret.drawables.push(
            Shape::Text {
                text: title.to_owned(),
                position: Point { x: center.x, y: TITLE_ROW },
                font: Font::Font6x9,
                alignment: Alignment::Center,
                colour: primary,
            },
        );
        ret.drawables.push(
            Shape::Arc {
                circle: Circle::around(center, (ret.outer_radius * 2) as u32),
                start: Scalar::Finite(ARC_START),
                sweep: Scalar::Finite(-RANGE),
                stroke: ret.outline,
            },
        );
        ret.drawables.push(
            Shape::Arc {
                circle: Circle::around(center, (ret.inner_radius * 2) as u32),
                start: Scalar::Finite(ARC_START),
                sweep: Scalar::Finite(-RANGE),
                stroke: ret.outline,
            },
        );
        ret.create_indicator_line(min_value);
        ret.create_indicator_line(max_value);
        let ghost fixed = ret.static_shapes();
        assert(fixed =~= spec_static_shapes(
            title@,
            min_value,
            max_value,
            bounding,
            Seq::empty(),
            primary,
        ));
        let mut i: usize = 0;
        while i < indicators.len()
            invariant
                0 <= i <= indicators.len(),
                ret.wf(),
                ret.title@ == title@,
                ret.min_value == min_value,
                ret.max_value == max_value,
                ret.current_value == current_value,
                ret.digits == digits,
                ret.bounding == bounding,
                ret.colour == primary,
                ret.static_shapes() == spec_static_shapes(
                    title@,
                    min_value,
                    max_value,
                    bounding,
                    indicators@.take(i as int),
                    primary,
                ),
            decreases indicators.len() - i,
        {
            ret.create_indicator_line(indicators[i]);
            assert(ret.static_shapes() =~= spec_static_shapes(
                title@,
                min_value,
                max_value,
                bounding,
                indicators@.take(i + 1),
                primary,
            )) by {
                assert(indicators@.take(i + 1) =~= indicators@.take(i as int).push(
                    indicators@[i as int],
                ));
            }
            i += 1;
        }
        assert(indicators@.take(i as int) =~= indicators@);
        ret
    }

    /// Adds the tick for `value` to what the dial draws whatever its value.
    fn create_indicator_line(&mut self, value: Scalar)
        requires
            old(self).wf(),
        ensures
            final(self).wf(),
            final(self).title == old(self).title,
            final(self).min_value == old(self).min_value,
            final(self).max_value == old(self).max_value,
            final(self).current_value == old(self).current_value,
            final(self).digits == old(self).digits,
            final(self).bounding == old(self).bounding,
            final(self).colour == old(self).colour,
            final(self).static_shapes() == old(self).static_shapes().push(
                spec_tick(
                    value,
                    old(self).min_value,
                    old(self).max_value,
                    old(self).bounding,
                    old(self).colour,
                ),
            ),
    {
        let angle = tick_angle(value, self.min_value, self.max_value);
        let center = self.bounding.center();
        self.drawables.push(
            Shape::Tick {
                center,
                inner_radius: self.inner_radius as u32,
                outer_radius: (self.outer_radius - 1) as u32,
                angle,
                stroke: self.outline,
            },
        );
        assert(self.static_shapes() =~= old(self).static_shapes().push(
            spec_tick(value, self.min_value, self.max_value, self.bounding, self.colour),
        ));
    }

    /// The angle of the arc for the current value.
    pub fn sweep(&self) -> (angle: Scalar)
        ensures
            angle == self.spec_sweep(),
    {
        Quotient::position(self.current_value, self.min_value, self.max_value).affine(0, RANGE)
    }

    /// What the dial draws, in drawing order.
    pub fn draw(&self) -> (shapes: Vec<Shape>)
        requires
            self.wf(),
        ensures
            views(shapes@) == self.spec_draw(),
    {
        let arc = Circle {
            top_left: Point { x: self.bounding.top_left.x + 2, y: 2 },
            diameter: ARC_DIAMETER,
        };
        let mut shapes: Vec<Shape> = Vec::new();
        shapes.push(
            Shape::Arc {
                circle: arc,
                start: Scalar::Finite(ARC_START),
                sweep: self.sweep().negate(),
                stroke: self.arc_stroke,
            },
        );
        shapes.push(
            Shape::Text {
                text: format_value(self.current_value, self.digits),
                position: arc.center(),
                font: Font::Font10x20,
                alignment: Alignment::Center,
                colour: self.colour,
            },
        );
        let mut i: usize = 0;
        while i < self.drawables.len()
            invariant
                0 <= i <= self.drawables.len(),
                views(shapes@) == self.spec_draw().take(2 + i),
            decreases self.drawables.len() - i,
        {
            let ghost before = shapes@;
            shapes.push(self.drawables[i].duplicate());
            assert(views(shapes@) =~= views(before).push(self.drawables@[i as int]@));
            assert(self.spec_draw().take(2 + i + 1) =~= self.spec_draw().take(2 + i).push(
                self.static_shapes()[i as int],
            ));
            i += 1;
        }
        assert(self.spec_draw().take(2 + i) =~= self.spec_draw());
        shapes
    }
}

impl SetValue for Dial {
    open spec fn shown(&self) -> Scalar {
        self.current_value
    }

    fn set_value(&mut self, value: Scalar)
        ensures
            *final(self) == (Dial { current_value: value, ..*old(self) }),
    {
        self.current_value = value;
    }
}

/// The angle of the tick for `value` on a dial from `min` to `max`.
pub fn tick_angle(value: Scalar, min: Scalar, max: Scalar) -> (angle: Scalar)
    ensures
        angle == spec_tick_angle(value, min, max),
{
    Quotient::position(value, min, max).affine(FULL_TURN - RANGE, RANGE)
}

/// Between the ends of its range the arc of a dial never shrinks as the
/// value grows: it is nothing at the minimum, 270 degrees at the maximum,
/// and for two values in the range the lower one has the smaller or the same
/// arc.
pub proof fn lemma_sweep_monotonic(low: i64, high: i64, min: i64, max: i64)
    requires
        min < max,
        min <= low <= high <= max,
    ensures
        spec_sweep(Scalar::Finite(min), Scalar::Finite(min), Scalar::Finite(max))
            == Scalar::Finite(0),
        spec_sweep(Scalar::Finite(max), Scalar::Finite(min), Scalar::Finite(max))
            == Scalar::Finite(RANGE),
        spec_sweep(Scalar::Finite(low), Scalar::Finite(min), Scalar::Finite(max)) is Finite,
        spec_sweep(Scalar::Finite(high), Scalar::Finite(min), Scalar::Finite(max)) is Finite,
        0 <= spec_sweep(Scalar::Finite(low), Scalar::Finite(min), Scalar::Finite(max))->Finite_0
            <= spec_sweep(
            Scalar::Finite(high),
            Scalar::Finite(min),
            Scalar::Finite(max),
        )->Finite_0 <= RANGE,
{
    let den = max - min;
    let range = RANGE as int;
    lemma_div_is_ordered(0, range * (low - min), den);
    lemma_div_is_ordered(range * (low - min), range * (high - min), den);
    lemma_div_is_ordered(range * (high - min), range * den, den);
    lemma_div_multiples_vanish(range, den);
    assert(range * den == den * range) by (nonlinear_arith);
    assert(0int / den == 0) by {
        lemma_fundamental_div_mod_converse(0, den, 0, 0);
    }
}

/// The tick of a value lies where the arc for that value ends. The arc
/// starts at `ARC_START`, counted counter-clockwise, and runs clockwise
/// through the sweep; the tick's angle is counted clockwise, so it is a full
/// turn less the angle at which the arc ends. In particular the tick of the
/// minimum lies at the start of the arc and that of the maximum at the end
/// of the full range.
pub proof fn lemma_tick_meets_arc(value: Scalar, min: Scalar, max: Scalar)
    ensures
        spec_sweep(value, min, max) matches Scalar::Finite(sweep) ==> spec_tick_angle(
            value,
            min,
            max,
        ) == Scalar::of_raw(FULL_TURN - (ARC_START - sweep)),
        (min matches Scalar::Finite(lo) && max matches Scalar::Finite(hi) && lo < hi) ==> {
            &&& spec_tick_angle(min, min, max) == Scalar::Finite((FULL_TURN - ARC_START) as i64)
            &&& spec_tick_angle(max, min, max) == Scalar::Finite(
                (FULL_TURN - (ARC_START - RANGE)) as i64,
            )
        },
{
    lemma_tick_follows_sweep(value, min, max);
    if let (Scalar::Finite(lo), Scalar::Finite(hi)) = (min, max) {
        if lo < hi {
            lemma_sweep_monotonic(lo, lo, lo, hi);
            lemma_sweep_monotonic(hi, hi, lo, hi);
            lemma_tick_follows_sweep(min, min, max);
            lemma_tick_follows_sweep(max, min, max);
        }
    }
}

/// A tick's angle is the quarter turn that precedes the range, plus the
/// sweep of its value, wherever the exact sweep fits in 64 bits.
proof fn lemma_tick_follows_sweep(value: Scalar, min: Scalar, max: Scalar)
    ensures
        spec_sweep(value, min, max) matches Scalar::Finite(sweep) ==> spec_tick_angle(
            value,
            min,
            max,
        ) == Scalar::of_raw(FULL_TURN - RANGE + sweep),
{
    if let Fraction::Ratio { num, den } = spec_position(value, min, max) {
        let range = RANGE as int;
        let lead = FULL_TURN - RANGE;
        let q = (range * num) / den;
        let r = (range * num) % den;
        lemma_fundamental_div_mod(range * num, den);
        assert(FULL_TURN * den - RANGE * (den - num) == (lead + q) * den + r) by (nonlinear_arith)
            requires
                range * num == den * q + r,
                range == RANGE,
                lead == FULL_TURN - RANGE,
        ;
        lemma_fundamental_div_mod_converse(
            FULL_TURN * den - RANGE * (den - num),
            den,
            lead + q,
            r,
        );
        assert(0 * den + range * num == range * num);
    }
}

} // verus!
