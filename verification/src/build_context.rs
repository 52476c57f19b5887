//! The layout input threaded through a widget tree: a region (size and
//! position), the active theme, and the rule for deriving a child's context
//! from a parent's.

use vstd::prelude::*;

verus! {

/// An RGBA color, 8 bits per channel.
#[derive(Clone, Copy, Debug, PartialEq, Eq, Structural)]
pub struct Color {
    pub r: u8,
    pub g: u8,
    pub b: u8,
    pub a: u8,
}

/// The extent of a rectangular region, in whole logical pixels.
#[derive(Clone, Copy, Debug, PartialEq, Eq, Structural)]
pub struct Size {
    pub width: u32,
    pub height: u32,
}

/// A point in whole logical pixels, top-left origin convention.
#[derive(Clone, Copy, Debug, PartialEq, Eq, Structural)]
pub struct Position {
    pub x: u32,
    pub y: u32,
}

/// The axis on which a layout rule was violated.
#[derive(Clone, Copy, Debug, PartialEq, Eq, Structural)]
pub enum Axis {
    Horizontal,
    Vertical,
}

/// A layout contract violation. Building a widget tree reports the first one
/// found instead of drawing anything.
#[derive(Clone, Copy, Debug, PartialEq, Eq, Structural)]
pub enum LayoutError {
    /// A derived child region exceeds its parent's region; carries the
    /// offending axis together with the child's and the parent's extent on it.
    OutOfBoundsLayout { axis: Axis, child_extent: u32, parent_extent: u32 },
    /// Hard-wrapped text was measured larger than its region; carries the
    /// offending axis and the overflow in pixels.
    ContentOverflow { axis: Axis, overflow: u32 },
}

/// The default visual parameters shared by a whole tree: fill colors and the
/// fallback font size. Copied, never shared, into every derived context.
#[derive(Clone, Copy, Debug, PartialEq, Eq, Structural)]
pub struct Theme {
    pub background_color: Color,
    pub container_color: Color,
    pub text_color: Color,
    pub font_size: u16,
}

impl Theme {
    /// A theme is well formed when its font size is positive.
    pub open spec fn wf(self) -> bool {
        self.font_size > 0
    }

    /// The process-wide fallback: dark gray background, lighter gray
    /// containers, white text at 24 logical pixels.
    pub open spec fn fallback() -> Theme {
        Theme {
            background_color: Color { r: 50, g: 50, b: 50, a: 255 },
            container_color: Color { r: 100, g: 100, b: 100, a: 255 },
            text_color: Color { r: 255, g: 255, b: 255, a: 255 },
            font_size: 24,
        }
    }
}

impl Default for Theme {
    fn default() -> (t: Theme)
        ensures
            t == Theme::fallback(),
            t.wf(),
    {
        Theme {
            background_color: Color { r: 50, g: 50, b: 50, a: 255 },
            container_color: Color { r: 100, g: 100, b: 100, a: 255 },
            text_color: Color { r: 255, g: 255, b: 255, a: 255 },
            font_size: 24,
        }
    }
}

/// The per-node layout input: the region a widget may occupy (size and
/// position) and the active theme. Created fresh for the root once per frame
/// and derived, never mutated, for each child.
#[derive(Clone, Copy, Debug, PartialEq, Eq, Structural)]
pub struct BuildContext {
    pub size: Size,
    pub position: Position,
    pub theme: Theme,
}

/// What deriving a child context returns: the rule behind
/// [`BuildContext::child_context`]. A requested size wider than the parent's
/// region is rejected on the horizontal axis first, then a taller one on the
/// vertical axis; otherwise the child carries the parent's theme unchanged,
/// the given size and the given position.
pub open spec fn spec_child_context(
    parent: BuildContext,
    size: Size,
    position: Position,
) -> Result<BuildContext, LayoutError> {
    if size.width > parent.size.width {
        Err(LayoutError::OutOfBoundsLayout {
            axis: Axis::Horizontal,
            child_extent: size.width,
            parent_extent: parent.size.width,
        })
    } else if size.height > parent.size.height {
        Err(LayoutError::OutOfBoundsLayout {
            axis: Axis::Vertical,
            child_extent: size.height,
            parent_extent: parent.size.height,
        })
    } else {
        Ok(BuildContext { size, position, theme: parent.theme })
    }
}

impl BuildContext {
    /// A context `child` fits in `self` when its region is componentwise no
    /// larger than `self`'s region.
    pub open spec fn contains(self, child: BuildContext) -> bool {
        &&& child.size.width <= self.size.width
        &&& child.size.height <= self.size.height
    }

    /// Derive the context for a child region: the parent's theme unchanged,
    /// the given size and the given position. The size must fit inside this
    /// context's region on both axes; a request that does not is rejected
    /// with `OutOfBoundsLayout`. The position is deliberately not clamped to
    /// the parent's region: callers are responsible for correct placement.
    pub fn child_context(&self, size: Size, position: Position) -> (r: Result<
        BuildContext,
        LayoutError,
    >)
        ensures
            r == spec_child_context(*self, size, position),
    {
        if size.width > self.size.width {
            Err(LayoutError::OutOfBoundsLayout {
                axis: Axis::Horizontal,
                child_extent: size.width,
                parent_extent: self.size.width,
            })
        } else if size.height > self.size.height {
            Err(LayoutError::OutOfBoundsLayout {
                axis: Axis::Vertical,
                child_extent: size.height,
                parent_extent: self.size.height,
            })
        } else {
            Ok(BuildContext { size, position, theme: self.theme })
        }
    }
}

/// Containment: a derived child context, when one is returned at all, fits
/// inside its parent on both axes and carries the parent's theme unchanged;
/// and one is returned exactly when the requested size fits, every violation
/// being reported as `OutOfBoundsLayout` on the offending axis.
pub proof fn lemma_child_containment(parent: BuildContext, size: Size, position: Position)
    ensures
        spec_child_context(parent, size, position) is Ok <==> (size.width <= parent.size.width
            && size.height <= parent.size.height),
        spec_child_context(parent, size, position) matches Ok(child) ==> parent.contains(child)
            && child.theme == parent.theme && child.size == size && child.position == position,
        spec_child_context(parent, size, position) matches Err(e) ==> e matches
            LayoutError::OutOfBoundsLayout { axis, child_extent, parent_extent } && child_extent
            > parent_extent,
{
}

} // verus!
