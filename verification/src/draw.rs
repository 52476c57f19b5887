//! What a build pass consumes and produces at the renderer boundary: text
//! measurements coming in, drawing commands going out.

use vstd::prelude::*;

use crate::build_context::Color;

verus! {

/// The measured extent, in whole logical pixels, of one string rendered at
/// one font size — the answer the host renderer's text-measurement facility
/// gives to a [`MeasureRequest`].
#[derive(Clone, Copy, Debug, PartialEq, Eq, Structural)]
pub struct TextMetrics {
    pub width: u32,
    pub height: u32,
}

/// A request to measure one string at one font size. A build pass asks for
/// one measurement per text widget, in traversal order.
#[derive(Clone, Debug, PartialEq, Eq)]
pub struct MeasureRequest {
    pub value: String,
    pub font_size: u16,
}

/// The mathematical value of a [`MeasureRequest`].
pub struct MeasureRequestView {
    pub value: Seq<char>,
    pub font_size: u16,
}

impl View for MeasureRequest {
    type V = MeasureRequestView;

    open spec fn view(&self) -> MeasureRequestView {
        MeasureRequestView { value: self.value@, font_size: self.font_size }
    }
}

/// One drawing command for the host renderer. A build pass emits these in
/// draw order: later commands paint over earlier ones.
#[derive(Clone, Debug, PartialEq, Eq)]
pub enum DrawCommand {
    /// A filled rectangle with its top-left corner at `(x, y)`.
    Rect { x: u32, y: u32, width: u32, height: u32, color: Color },
    /// A string drawn at `(x, y)` with the given font size, fill color and
    /// rotation in whole degrees.
    Text { value: String, x: u32, y: u32, font_size: u16, color: Color, rotation: i32 },
}

/// The mathematical value of a [`DrawCommand`].
pub enum DrawCommandView {
    Rect { x: u32, y: u32, width: u32, height: u32, color: Color },
    Text { value: Seq<char>, x: u32, y: u32, font_size: u16, color: Color, rotation: i32 },
}

impl View for DrawCommand {
    type V = DrawCommandView;

    open spec fn view(&self) -> DrawCommandView {
        match *self {
            DrawCommand::Rect { x, y, width, height, color } => DrawCommandView::Rect {
                x,
                y,
                width,
                height,
                color,
            },
            DrawCommand::Text { value, x, y, font_size, color, rotation } => DrawCommandView::Text {
                value: value@,
                x,
                y,
                font_size,
                color,
                rotation,
            },
        }
    }
}

} // verus!
