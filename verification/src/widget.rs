//! The widget tree: a closed set of node variants behind one build
//! capability. Leaves draw themselves; containers subdivide their region and
//! build their children.

use vstd::prelude::*;

use crate::build_context::{Axis, BuildContext, Color, LayoutError, Size, Theme};
use crate::draw::{DrawCommand, DrawCommandView, TextMetrics};

verus! {

/// A leaf widget that renders one string within its allotted region. Font
/// size and color fall back to the context's theme when not overridden;
/// `rotation` is in whole degrees. With `hard_wrap` set, content measured
/// larger than the region is a contract violation instead of drawing outside
/// it.
#[derive(Clone, Debug, PartialEq, Eq)]
pub struct Text {
    pub value: String,
    pub font_size: Option<u16>,
    pub color: Option<Color>,
    pub rotation: i32,
    pub hard_wrap: bool,
}

/// Describes how children should be placed along the main axis of a
/// container. Accepted and stored; the realized layout is the equal
/// partition (the `SpaceEvenly` behavior) for every value.
#[derive(Clone, Copy, Debug, PartialEq, Eq, Structural)]
pub enum MainAxisAlign {
    Start,
    End,
    Center,
    SpaceBetween,
    SpaceAround,
    SpaceEvenly,
}

/// Describes whether a container should expand to fill the available space
/// or be sized to fit its children. Accepted and stored; the realized layout
/// always fills the available space (the `Max` behavior).
#[derive(Clone, Copy, Debug, PartialEq, Eq, Structural)]
pub enum AxisSize {
    Min,
    Max,
}

/// Describes how children should be placed along the cross axis of a
/// container. Accepted and stored; the realized layout always fills the
/// cross axis (the `Stretch` behavior).
#[derive(Clone, Copy, Debug, PartialEq, Eq, Structural)]
pub enum CrossAxisAlign {
    Start,
    End,
    Center,
    Stretch,
}

/// A container that lays its children out in a row: the region's width is
/// partitioned among them in index order, each child receiving the region's
/// full height. Index order is also draw order.
pub struct Row {
    pub children: Vec<Widget>,
    pub main_axis_alignment: MainAxisAlign,
    pub main_axis_size: AxisSize,
    pub cross_axis_alignment: CrossAxisAlign,
}

/// A single-child wrapper that paints a fixed-floor background rectangle and
/// forwards layout to its child, clamped to the requested width and height.
pub struct Container {
    pub child: Box<Widget>,
    pub color: Color,
    pub width: u32,
    pub height: u32,
}

/// One node of a widget tree. `Label` is the bare string widget: it draws
/// its value with the theme's font size and color, unmeasured and unchecked.
pub enum Widget {
    Label(String),
    Text(Text),
    Row(Row),
    Container(Container),
}

/// The mathematical value of a [`Text`].
pub struct TextView {
    pub value: Seq<char>,
    pub font_size: Option<u16>,
    pub color: Option<Color>,
    pub rotation: i32,
    pub hard_wrap: bool,
}

/// The mathematical value of a [`Widget`] tree.
pub enum WidgetView {
    Label { value: Seq<char> },
    Text { text: TextView },
    Row {
        children: Seq<WidgetView>,
        main_axis_alignment: MainAxisAlign,
        main_axis_size: AxisSize,
        cross_axis_alignment: CrossAxisAlign,
    },
    Container { child: Box<WidgetView>, color: Color, width: u32, height: u32 },
}

impl View for Text {
    type V = TextView;

    open spec fn view(&self) -> TextView {
        TextView {
            value: self.value@,
            font_size: self.font_size,
            color: self.color,
            rotation: self.rotation,
            hard_wrap: self.hard_wrap,
        }
    }
}

/// The mathematical values of a sequence of widgets, in order.
pub open spec fn widgets_view(s: Seq<Widget>) -> Seq<WidgetView>
    decreases s,
{
    if s.len() == 0 {
        Seq::empty()
    } else {
        seq![widget_view(s[0])] + widgets_view(s.drop_first())
    }
}

/// The mathematical value of a widget tree, children viewed recursively in
/// index order.
pub open spec fn widget_view(w: Widget) -> WidgetView
    decreases w,
{
    match w {
        Widget::Label(value) => WidgetView::Label { value: value@ },
        Widget::Text(text) => WidgetView::Text { text: text@ },
        Widget::Row(row) => WidgetView::Row {
            children: widgets_view(row.children@),
            main_axis_alignment: row.main_axis_alignment,
            main_axis_size: row.main_axis_size,
            cross_axis_alignment: row.cross_axis_alignment,
        },
        Widget::Container(container) => WidgetView::Container {
            child: Box::new(widget_view(*container.child)),
            color: container.color,
            width: container.width,
            height: container.height,
        },
    }
}

impl View for Widget {
    type V = WidgetView;

    open spec fn view(&self) -> WidgetView {
        widget_view(*self)
    }
}

/// Viewing a sequence of widgets is viewing each widget: the views line up
/// index by index.
pub proof fn lemma_widgets_view_index(s: Seq<Widget>)
    ensures
        widgets_view(s).len() == s.len(),
        forall|i: int| 0 <= i < s.len() ==> widgets_view(s)[i] == widget_view(#[trigger] s[i]),
    decreases s,
{
    if s.len() > 0 {
        lemma_widgets_view_index(s.drop_first());
        assert forall|i: int| 0 <= i < s.len() implies widgets_view(s)[i] == widget_view(
            #[trigger] s[i],
        ) by {
            if i > 0 {
                assert(s.drop_first()[i - 1] == s[i]);
            }
        }
    }
}

impl TextView {
    /// The font size a text resolves against a theme: its own override, or
    /// the theme's font size.
    pub open spec fn resolved_font_size(self, theme: Theme) -> u16 {
        match self.font_size {
            Some(fs) => fs,
            None => theme.font_size,
        }
    }

    /// The fill color a text resolves against a theme: its own override, or
    /// the theme's text color.
    pub open spec fn resolved_color(self, theme: Theme) -> Color {
        match self.color {
            Some(c) => c,
            None => theme.text_color,
        }
    }
}

impl Text {
    /// The effective font size: the override when present, else the theme's.
    pub fn resolved_font_size(&self, theme: &Theme) -> (fs: u16)
        ensures
            fs == self@.resolved_font_size(*theme),
    {
        match self.font_size {
            Some(fs) => fs,
            None => theme.font_size,
        }
    }

    /// The effective color: the override when present, else the theme's.
    pub fn resolved_color(&self, theme: &Theme) -> (c: Color)
        ensures
            c == self@.resolved_color(*theme),
    {
        match self.color {
            Some(c) => c,
            None => theme.text_color,
        }
    }

    /// A text widget showing `value`, with everything else as in
    /// [`Text::default`].
    pub fn from(value: &str) -> (t: Text)
        ensures
            t@.value == value@,
            t.font_size is None,
            t.color is None,
            t.rotation == 0,
            t.hard_wrap,
    {
        Text {
            value: value.to_owned(),
            font_size: None,
            color: None,
            rotation: 0,
            hard_wrap: true,
        }
    }
}

impl Default for Text {
    /// Empty value, no overrides, no rotation, hard wrapping on.
    fn default() -> (t: Text)
        ensures
            t@.value == Seq::<char>::empty(),
            t.font_size is None,
            t.color is None,
            t.rotation == 0,
            t.hard_wrap,
    {
        Text { value: String::new(), font_size: None, color: None, rotation: 0, hard_wrap: true }
    }
}

/// A size policy: a widget type that declares a floor and a ceiling for the
/// regions it draws, independent of the region it is handed.
pub trait ConstrainedBox {
    /// The declared floor.
    spec fn spec_min() -> Size;

    /// The declared ceiling.
    spec fn spec_max() -> Size;

    /// The smallest region this widget type will draw.
    fn get_min() -> (s: Size)
        ensures
            s == Self::spec_min(),
    ;

    /// The largest region this widget type will draw.
    fn get_max() -> (s: Size)
        ensures
            s == Self::spec_max(),
    ;
}

impl ConstrainedBox for Container {
    /// Containers paint a fixed 100-by-100 floor.
    open spec fn spec_min() -> Size {
        Size { width: 100, height: 100 }
    }

    /// Containers accept any region.
    open spec fn spec_max() -> Size {
        Size { width: u32::MAX, height: u32::MAX }
    }

    fn get_min() -> (s: Size) {
        Size { width: 100, height: 100 }
    }

    fn get_max() -> (s: Size) {
        Size { width: u32::MAX, height: u32::MAX }
    }
}

/// What building a text leaf against a context returns, once its string has
/// been measured as `m`: with hard wrapping, content wider than the region
/// is `ContentOverflow` by the excess on the horizontal axis (checked
/// first), content taller than the region the same on the vertical axis;
/// otherwise one text command at the region's position with the resolved
/// font size, the resolved color, and the widget's rotation.
pub open spec fn spec_build_text(t: TextView, ctx: BuildContext, m: TextMetrics) -> Result<
    Seq<DrawCommandView>,
    LayoutError,
> {
    let font_size = t.resolved_font_size(ctx.theme);
    let color = t.resolved_color(ctx.theme);
    if t.hard_wrap && m.width > ctx.size.width {
        Err(LayoutError::ContentOverflow {
            axis: Axis::Horizontal,
            overflow: (m.width - ctx.size.width) as u32,
        })
    } else if t.hard_wrap && m.height > ctx.size.height {
        Err(LayoutError::ContentOverflow {
            axis: Axis::Vertical,
            overflow: (m.height - ctx.size.height) as u32,
        })
    } else {
        Ok(
            seq![
                DrawCommandView::Text {
                    value: t.value,
                    x: ctx.position.x,
                    y: ctx.position.y,
                    font_size,
                    color,
                    rotation: t.rotation,
                },
            ],
        )
    }
}

impl Text {
    /// Build this text against a context, its string having been measured as
    /// `m` at the resolved font size: enforce the region with hard wrapping
    /// on, then emit one drawing command at the context's position.
    pub fn build(&self, ctx: &BuildContext, m: TextMetrics) -> (r: Result<
        Vec<DrawCommand>,
        LayoutError,
    >)
        ensures
            r matches Ok(cmds) ==> spec_build_text(self@, *ctx, m) == Ok::<_, LayoutError>(
                cmds@.map_values(|c: DrawCommand| c@),
            ),
            r matches Err(e) ==> spec_build_text(self@, *ctx, m) == Err::<Seq<DrawCommandView>, _>(
                e,
            ),
    {
        let font_size = self.resolved_font_size(&ctx.theme);
        let color = self.resolved_color(&ctx.theme);
        if self.hard_wrap && m.width > ctx.size.width {
            Err(LayoutError::ContentOverflow {
                axis: Axis::Horizontal,
                overflow: m.width - ctx.size.width,
            })
        } else if self.hard_wrap && m.height > ctx.size.height {
            Err(LayoutError::ContentOverflow {
                axis: Axis::Vertical,
                overflow: m.height - ctx.size.height,
            })
        } else {
            let cmd = DrawCommand::Text {
                value: self.value.clone(),
                x: ctx.position.x,
                y: ctx.position.y,
                font_size,
                color,
                rotation: self.rotation,
            };
            let mut cmds: Vec<DrawCommand> = Vec::new();
            cmds.push(cmd);
            proof {
                assert(cmds@.map_values(|c: DrawCommand| c@) =~= seq![
                    DrawCommandView::Text {
                        value: self@.value,
                        x: ctx.position.x,
                        y: ctx.position.y,
                        font_size,
                        color,
                        rotation: self.rotation,
                    },
                ]);
            }
            Ok(cmds)
        }
    }
}

} // verus!
