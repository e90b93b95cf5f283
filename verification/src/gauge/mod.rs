//! The gauges of the cluster and what they put on the screen.
//!
//! A gauge does not draw. It says what is to be drawn, as a list of shapes
//! in drawing order, and whoever owns the display draws them.

use crate::config::{Config, Rgb};
use crate::geometry::{Circle, Point};
use crate::scalar::Scalar;
use vstd::prelude::*;

pub mod dial;
pub mod format;
pub mod textgauge;

verus! {

/// How many decimal places a gauge shows.
#[derive(Clone, Copy, Debug, PartialEq, Eq, Structural)]
pub enum Digits {
    Whole,
    Single,
    Two,
}

impl Digits {
    /// The number of decimal places.
    pub open spec fn places(self) -> nat {
        match self {
            Digits::Whole => 0,
            Digits::Single => 1,
            Digits::Two => 2,
        }
    }

    /// The precision for a configured digit count: 0 shows whole numbers,
    /// 1 one decimal place, anything larger two.
    pub open spec fn spec_from_count(count: u8) -> Digits {
        if count == 0 {
            Digits::Whole
        } else if count == 1 {
            Digits::Single
        } else {
            Digits::Two
        }
    }

    /// The precision for a configured digit count.
    pub fn from_count(count: u8) -> (digits: Digits)
        ensures
            digits == Digits::spec_from_count(count),
    {
        if count == 0 {
            Digits::Whole
        } else if count == 1 {
            Digits::Single
        } else {
            Digits::Two
        }
    }
}

/// A colour of the display.
#[derive(Clone, Copy, Debug, PartialEq, Eq, Structural)]
pub enum Colour {
    /// The dark pixel of a display of two colours.
    Off,
    /// The lit pixel of a display of two colours.
    On,
    /// A colour of a colour display.
    Rgb(Rgb),
}

impl Colour {
    /// The colour that a configuration draws in: its primary colour, or
    /// the lit pixel where it names no colours.
    pub open spec fn spec_primary(config: Config) -> Colour {
        match config.colors {
            Some(colors) => Colour::Rgb(colors.primary),
            None => Colour::On,
        }
    }

    /// The colour that a configuration clears the display to: its
    /// background colour, or the dark pixel where it names no colours.
    pub open spec fn spec_background(config: Config) -> Colour {
        match config.colors {
            Some(colors) => Colour::Rgb(colors.background),
            None => Colour::Off,
        }
    }

    /// The colour that a configuration draws in.
    pub fn primary(config: &Config) -> (colour: Colour)
        ensures
            colour == Colour::spec_primary(*config),
    {
        match config.colors {
            Some(colors) => Colour::Rgb(colors.primary),
            None => Colour::On,
        }
    }

    /// The colour that a configuration clears the display to.
    pub fn background(config: &Config) -> (colour: Colour)
        ensures
            colour == Colour::spec_background(*config),
    {
        match config.colors {
            Some(colors) => Colour::Rgb(colors.background),
            None => Colour::Off,
        }
    }
}

/// A line style: colour and width in pixels. The stroke lies inside the
/// outline of its shape.
#[derive(Clone, Copy, Debug, PartialEq, Eq, Structural)]
pub struct Stroke {
    pub colour: Colour,
    pub width: u32,
}

/// The fonts that the gauges use, named by the size of a character in
/// pixels.
#[derive(Clone, Copy, Debug, PartialEq, Eq, Structural)]
pub enum Font {
    Font6x9,
    Font10x20,
}

/// Which point of a line of text lies at its position. Vertically it is
/// always the middle.
#[derive(Clone, Copy, Debug, PartialEq, Eq, Structural)]
pub enum Alignment {
    Left,
    Center,
    Right,
}

/// One thing to draw.
///
/// Angles are in degrees. Those of an arc grow counter-clockwise from the
/// three o'clock position, so a negative sweep runs clockwise. That of a
/// tick grows clockwise from the same position: the tick runs from the
/// inner to the outer radius along the ray `(cos, sin)` of its angle, in
/// screen coordinates.
#[derive(Clone, Debug, PartialEq, Eq)]
pub enum Shape {
    Arc { circle: Circle, start: Scalar, sweep: Scalar, stroke: Stroke },
    Tick { center: Point, inner_radius: u32, outer_radius: u32, angle: Scalar, stroke: Stroke },
    Text { text: String, position: Point, font: Font, alignment: Alignment, colour: Colour },
}

/// A shape with its text as a sequence of characters.
pub enum ShapeView {
    Arc { circle: Circle, start: Scalar, sweep: Scalar, stroke: Stroke },
    Tick { center: Point, inner_radius: u32, outer_radius: u32, angle: Scalar, stroke: Stroke },
    Text { text: Seq<char>, position: Point, font: Font, alignment: Alignment, colour: Colour },
}

impl View for Shape {
    type V = ShapeView;

    open spec fn view(&self) -> ShapeView {
        match *self {
            Shape::Arc { circle, start, sweep, stroke } => ShapeView::Arc {
                circle,
                start,
                sweep,
                stroke,
            },
            Shape::Tick { center, inner_radius, outer_radius, angle, stroke } => ShapeView::Tick {
                center,
                inner_radius,
                outer_radius,
                angle,
                stroke,
            },
            Shape::Text { text, position, font, alignment, colour } => ShapeView::Text {
                text: text@,
                position,
                font,
                alignment,
                colour,
            },
        }
    }
}

impl Shape {
    /// A copy of the shape.
    pub fn duplicate(&self) -> (copy: Shape)
        ensures
            copy@ == self@,
    {
        match self {
            Shape::Arc { circle, start, sweep, stroke } => Shape::Arc {
                circle: *circle,
                start: *start,
                sweep: *sweep,
                stroke: *stroke,
            },
            Shape::Tick { center, inner_radius, outer_radius, angle, stroke } => Shape::Tick {
                center: *center,
                inner_radius: *inner_radius,
                outer_radius: *outer_radius,
                angle: *angle,
                stroke: *stroke,
            },
            Shape::Text { text, position, font, alignment, colour } => Shape::Text {
                text: text.clone(),
                position: *position,
                font: *font,
                alignment: *alignment,
                colour: *colour,
            },
        }
    }
}

/// The views of a list of shapes.
pub open spec fn views(shapes: Seq<Shape>) -> Seq<ShapeView> {
    shapes.map_values(|shape: Shape| shape@)
}

/// What every gauge can do with a new value.
pub trait SetValue {
    /// The value that the gauge shows.
    spec fn shown(&self) -> Scalar;

    /// Makes `value` the value that the gauge shows.
    fn set_value(&mut self, value: Scalar)
        ensures
            final(self).shown() == value,
    ;
}

/// A gauge of either kind.
#[derive(Clone, Debug, PartialEq, Eq)]
pub enum Gauge {
    Dial(dial::Dial),
    TextGauge(textgauge::TextGauge),
}

impl Gauge {
    /// The gauge is a well-formed gauge of its kind.
    pub open spec fn wf(&self) -> bool {
        match *self {
            Gauge::Dial(dial) => dial.wf(),
            Gauge::TextGauge(textgauge) => textgauge.wf(),
        }
    }

    /// The gauge with `value` as the value that it shows, and nothing else
    /// changed.
    pub open spec fn with_value(self, value: Scalar) -> Gauge {
        match self {
            Gauge::Dial(dial) => Gauge::Dial(dial::Dial { current_value: value, ..dial }),
            Gauge::TextGauge(textgauge) => Gauge::TextGauge(
                textgauge::TextGauge { value, ..textgauge },
            ),
        }
    }

    /// What the gauge draws.
    pub open spec fn spec_draw(&self) -> Seq<ShapeView> {
        match *self {
            Gauge::Dial(dial) => dial.spec_draw(),
            Gauge::TextGauge(textgauge) => textgauge.spec_draw(),
        }
    }

    /// What the gauge draws, in drawing order.
    pub fn draw(&self) -> (shapes: Vec<Shape>)
        requires
            self.wf(),
        ensures
            views(shapes@) == self.spec_draw(),
    {
        match self {
            Gauge::Dial(dial) => dial.draw(),
            Gauge::TextGauge(textgauge) => textgauge.draw(),
        }
    }
}

impl SetValue for Gauge {
    open spec fn shown(&self) -> Scalar {
        match *self {
            Gauge::Dial(dial) => dial.shown(),
            Gauge::TextGauge(textgauge) => textgauge.shown(),
        }
    }

    fn set_value(&mut self, value: Scalar)
        ensures
            *final(self) == old(self).with_value(value),
    {
        match self {
            Gauge::Dial(dial) => dial.set_value(value),
            Gauge::TextGauge(textgauge) => textgauge.set_value(value),
        }
    }
}

} // verus!
