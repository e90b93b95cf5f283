//! The text gauge: a title on the left of a rectangle, the value and its
//! unit on the right.

use super::format::{format_value, spec_format};
use super::{views, Alignment, Colour, Digits, Font, SetValue, Shape, ShapeView};
use crate::config::Config;
use crate::geometry::{Point, Rect};
use crate::scalar::Scalar;
use vstd::prelude::*;
use vstd::string::StringExecFns;

verus! {

/// How far the texts keep from the left and right edges, in pixels.
pub const MARGIN: i32 = 2;

/// What a text gauge draws whatever its value: the title, left-aligned at
/// the left margin, on the middle row.
pub open spec fn spec_static_shapes(title: Seq<char>, bounding_box: Rect, colour: Colour) -> Seq<
    ShapeView,
> {
    seq![
        ShapeView::Text {
            text: title,
            position: Point {
                x: (bounding_box.top_left.x + MARGIN) as i32,
                y: bounding_box.center_y() as i32,
            },
            font: Font::Font6x9,
            alignment: Alignment::Left,
            colour,
        },
    ]
}

/// A text gauge.
#[derive(Clone, Debug, PartialEq, Eq)]
pub struct TextGauge {
    pub title: String,
    pub unit: String,
    pub value: Scalar,
    pub digits: Digits,
    pub bounding_box: Rect,
    pub colour: Colour,
    /// What the gauge draws whatever its value.
    pub drawables: Vec<Shape>,
}

impl TextGauge {
    /// Whether a text gauge can stand in `bounding_box`: every position
    /// that it derives from the rectangle is a pixel position.
    pub open spec fn fits(bounding_box: Rect) -> bool {
        &&& bounding_box.has_center()
        &&& bounding_box.has_top_right()
        &&& bounding_box.top_left.x + MARGIN <= i32::MAX
        &&& bounding_box.right() - MARGIN >= i32::MIN
    }

    /// The gauge stands where a text gauge fits.
    pub open spec fn wf(&self) -> bool {
        TextGauge::fits(self.bounding_box)
    }

    /// The gauge is as `new` makes it from these.
    pub open spec fn is_new(
        &self,
        title: Seq<char>,
        unit: Seq<char>,
        value: Scalar,
        digits: Digits,
        bounding_box: Rect,
        colour: Colour,
    ) -> bool {
        &&& self.wf()
        &&& self.title@ == title
        &&& self.unit@ == unit
        &&& self.value == value
        &&& self.digits == digits
        &&& self.bounding_box == bounding_box
        &&& self.colour == colour
        &&& self.static_shapes() == spec_static_shapes(title, bounding_box, colour)
    }

    /// What the gauge draws whatever its value.
    pub open spec fn static_shapes(&self) -> Seq<ShapeView> {
        views(self.drawables@)
    }

    /// What the gauge draws: the value, a space and the unit, right-aligned
    /// at the right margin on the middle row, and then what it draws
    /// whatever the value.
    pub open spec fn spec_draw(&self) -> Seq<ShapeView> {
        seq![
            ShapeView::Text {
                text: spec_format(self.value, self.digits) + seq![' '] + self.unit@,
                position: Point {
                    x: (self.bounding_box.right() - MARGIN) as i32,
                    y: self.bounding_box.center_y() as i32,
                },
                font: Font::Font6x9,
                alignment: Alignment::Right,
                colour: self.colour,
            },
        ] + self.static_shapes()
    }

    /// Whether a text gauge can stand in `bounding_box`.
    pub fn check_fits(bounding_box: &Rect) -> (ok: bool)
        ensures
            ok == TextGauge::fits(*bounding_box),
    {
        if !bounding_box.check_center() || !bounding_box.check_top_right() {
            return false;
        }
        let corner = bounding_box.top_right();
        bounding_box.top_left.x <= i32::MAX - MARGIN && corner.x >= i32::MIN + MARGIN
    }

    /// A text gauge that shows `value`, in the primary colour of `config`.
    pub fn new(
        title: &str,
        unit: &str,
        value: Scalar,
        digits: Digits,
        bounding_box: Rect,
        config: &Config,
    ) -> (gauge: TextGauge)
        requires
            TextGauge::fits(bounding_box),
        ensures
            gauge.is_new(
                title@,
                unit@,
                value,
                digits,
                bounding_box,
                Colour::spec_primary(*config),
            ),
    {
        let colour = Colour::primary(config);
        let mut drawables: Vec<Shape> = Vec::new();
        let center = bounding_box.center();
        drawables.push(
            Shape::Text {
                text: title.to_owned(),
                position: Point { x: bounding_box.top_left.x + MARGIN, y: center.y },
                font: Font::Font6x9,
                alignment: Alignment::Left,
                colour,
            },
        );
        assert(views(drawables@) =~= spec_static_shapes(title@, bounding_box, colour));
        TextGauge {
            title: title.to_owned(),
            unit: unit.to_owned(),
            value,
            digits,
            bounding_box,
            colour,
            drawables,
        }
    }

    /// What the gauge draws, in drawing order.
    pub fn draw(&self) -> (shapes: Vec<Shape>)
        requires
            self.wf(),
        ensures
            views(shapes@) == self.spec_draw(),
    {
        proof {
            reveal_strlit(" ");
        }
        let mut text = format_value(self.value, self.digits);
        text.append(" ");
        text.append(self.unit.as_str());
        assert(text@ =~= spec_format(self.value, self.digits) + seq![' '] + self.unit@);
        let mut shapes: Vec<Shape> = Vec::new();
        shapes.push(
            Shape::Text {
                text,
                position: Point {
                    x: self.bounding_box.top_right().x - MARGIN,
                    y: self.bounding_box.center().y,
                },
                font: Font::Font6x9,
                alignment: Alignment::Right,
                colour: self.colour,
            },
        );
        let mut i: usize = 0;
        while i < self.drawables.len()
            invariant
                0 <= i <= self.drawables.len(),
                views(shapes@) == self.spec_draw().take(1 + i),
            decreases self.drawables.len() - i,
        {
            let ghost before = shapes@;
            shapes.push(self.drawables[i].duplicate());
            assert(views(shapes@) =~= views(before).push(self.drawables@[i as int]@));
            assert(self.spec_draw().take(1 + i + 1) =~= self.spec_draw().take(1 + i).push(
                self.static_shapes()[i as int],
            ));
            i += 1;
        }
        assert(self.spec_draw().take(1 + i) =~= self.spec_draw());
        shapes
    }
}

impl SetValue for TextGauge {
    open spec fn shown(&self) -> Scalar {
        self.value
    }

    fn set_value(&mut self, value: Scalar)
        ensures
            *final(self) == (TextGauge { value, ..*old(self) }),
    {
        self.value = value;
    }
}

} // verus!
