//! The layout protocol's guarantees, stated and proved over the build pass's
//! mathematical model.

use vstd::prelude::*;

use crate::build_context::{Axis, BuildContext, LayoutError, Theme};
use crate::draw::{DrawCommandView, TextMetrics};
use crate::layout::{
    lemma_row_offset_bounds, lemma_row_partition_sum, lemma_row_width_bounds, row_child_width,
    row_widths_sum_from,
};
use crate::render::{
    descendant_contexts, descendant_contexts_row, spec_build, spec_build_row,
    spec_container_child_context, spec_row_child_context, text_count,
};
use crate::widget::{spec_build_text, AxisSize, CrossAxisAlign, MainAxisAlign, TextView, WidgetView};

verus! {

/// Theme propagation: every context the build pass derives anywhere below a
/// widget — enumerated by [`descendant_contexts`] — carries the same theme
/// as the context the widget itself was given. Only a text leaf's own
/// overrides can change the resolved style, never the inherited theme.
pub proof fn lemma_theme_propagation(w: WidgetView, ctx: BuildContext)
    ensures
        forall|i: int|
            0 <= i < descendant_contexts(w, ctx).len() ==> (#[trigger] descendant_contexts(
                w,
                ctx,
            )[i]).theme == ctx.theme,
    decreases w, 0int,
{
    match w {
        WidgetView::Row { children, .. } => {
            lemma_theme_propagation_row(children, ctx, children.len() as int, 0);
            assert forall|i: int|
                0 <= i < descendant_contexts(w, ctx).len() implies (#[trigger] descendant_contexts(
                w,
                ctx,
            )[i]).theme == ctx.theme by {
                assert(descendant_contexts(w, ctx)[i] == descendant_contexts_row(
                    children,
                    ctx,
                    children.len() as int,
                    0,
                )[i]);
            }
        },
        WidgetView::Container { child, width, height, .. } => {
            let cc = spec_container_child_context(ctx, width, height);
            lemma_theme_propagation(*child, cc);
            assert forall|i: int|
                0 <= i < descendant_contexts(w, ctx).len() implies (#[trigger] descendant_contexts(
                w,
                ctx,
            )[i]).theme == ctx.theme by {
                if i > 0 {
                    assert(descendant_contexts(w, ctx)[i] == descendant_contexts(*child, cc)[i
                        - 1]);
                }
            }
        },
        _ => {},
    }
}

/// Theme propagation across a row's children, from index `i` on.
pub proof fn lemma_theme_propagation_row(
    children: Seq<WidgetView>,
    ctx: BuildContext,
    n: int,
    i: int,
)
    ensures
        forall|j: int|
            0 <= j < descendant_contexts_row(children, ctx, n, i).len() ==> (
            #[trigger] descendant_contexts_row(children, ctx, n, i)[j]).theme == ctx.theme,
    decreases children, children.len() - i,
{
    if 0 <= i < children.len() {
        let cc = spec_row_child_context(ctx, n, i);
        let here = seq![cc] + descendant_contexts(children[i], cc);
        let rest = descendant_contexts_row(children, ctx, n, i + 1);
        lemma_theme_propagation(children[i], cc);
        lemma_theme_propagation_row(children, ctx, n, i + 1);
        assert forall|j: int|
            0 <= j < descendant_contexts_row(children, ctx, n, i).len() implies (
        #[trigger] descendant_contexts_row(children, ctx, n, i)[j]).theme == ctx.theme by {
            if j < here.len() {
                assert(descendant_contexts_row(children, ctx, n, i)[j] == here[j]);
                if j > 0 {
                    assert(here[j] == descendant_contexts(children[i], cc)[j - 1]);
                }
            } else {
                assert(descendant_contexts_row(children, ctx, n, i)[j] == rest[j - here.len()]);
            }
        }
    }
}

/// Row partition completeness: the widths of the contexts a row derives for
/// its `n` children sum to the region's width exactly, every child receiving
/// the equal share `width / n` with the first `width % n` children one pixel
/// wider.
pub proof fn lemma_row_partition(ctx: BuildContext, n: int)
    requires
        0 < n,
    ensures
        row_widths_sum_from(ctx.size.width as int, n, 0) == ctx.size.width,
        forall|i: int|
            0 <= i < n ==> (#[trigger] spec_row_child_context(ctx, n, i)).size.width
                == row_child_width(ctx.size.width as int, n, i),
        forall|i: int|
            0 <= i < n ==> (#[trigger] spec_row_child_context(ctx, n, i)).size.height
                == ctx.size.height,
{
    let w = ctx.size.width as int;
    lemma_row_partition_sum(w, n);
    assert forall|i: int| 0 <= i < n implies (#[trigger] spec_row_child_context(
        ctx,
        n,
        i,
    )).size.width == row_child_width(w, n, i) by {
        lemma_row_width_bounds(w, n, i);
        lemma_row_offset_bounds(w, n, i);
    }
}

/// A row with no children draws nothing and raises nothing, whatever the
/// context and measurements.
pub proof fn lemma_row_empty_build(
    ctx: BuildContext,
    ms: Seq<TextMetrics>,
    main_axis_alignment: MainAxisAlign,
    main_axis_size: AxisSize,
    cross_axis_alignment: CrossAxisAlign,
)
    ensures
        spec_build(
            WidgetView::Row {
                children: Seq::empty(),
                main_axis_alignment,
                main_axis_size,
                cross_axis_alignment,
            },
            ctx,
            ms,
        ) == Ok::<_, LayoutError>(Seq::<DrawCommandView>::empty()),
{
    assert(spec_build_row(Seq::<WidgetView>::empty(), ctx, 0, 0, ms) == Ok::<
        _,
        LayoutError,
    >(Seq::<DrawCommandView>::empty()));
}

/// Overflow detection: a hard-wrapped text whose measured width exceeds its
/// region's width by some excess fails with `ContentOverflow` carrying
/// exactly that excess; one that fits the width but exceeds the height fails
/// the same way on the vertical axis; and without hard wrapping, or within
/// the region, the text always draws.
pub proof fn lemma_overflow_detection(t: TextView, ctx: BuildContext, m: TextMetrics)
    ensures
        t.hard_wrap && m.width > ctx.size.width ==> spec_build_text(t, ctx, m) == Err::<
            Seq<DrawCommandView>,
            _,
        >(
            LayoutError::ContentOverflow {
                axis: Axis::Horizontal,
                overflow: (m.width - ctx.size.width) as u32,
            },
        ),
        t.hard_wrap && m.width <= ctx.size.width && m.height > ctx.size.height ==> spec_build_text(
            t,
            ctx,
            m,
        ) == Err::<Seq<DrawCommandView>, _>(
            LayoutError::ContentOverflow {
                axis: Axis::Vertical,
                overflow: (m.height - ctx.size.height) as u32,
            },
        ),
        !t.hard_wrap ==> spec_build_text(t, ctx, m) is Ok,
        m.width <= ctx.size.width && m.height <= ctx.size.height ==> spec_build_text(t, ctx, m)
            is Ok,
{
}

/// Whether every text leaf of a tree leaves font size and color to the
/// theme.
pub open spec fn no_overrides(w: WidgetView) -> bool
    decreases w,
{
    match w {
        WidgetView::Label { .. } => true,
        WidgetView::Text { text } => text.font_size is None && text.color is None,
        WidgetView::Row { children, .. } => no_overrides_seq(children),
        WidgetView::Container { child, .. } => no_overrides(*child),
    }
}

/// Whether every text leaf of a sequence of widgets leaves font size and
/// color to the theme.
pub open spec fn no_overrides_seq(s: Seq<WidgetView>) -> bool
    decreases s,
{
    s.len() == 0 || (no_overrides(s[0]) && no_overrides_seq(s.drop_first()))
}

/// Whether every text command of a list is styled by `theme`: the theme's
/// font size and text color.
pub open spec fn styled_by(cmds: Seq<DrawCommandView>, theme: Theme) -> bool {
    forall|i: int|
        0 <= i < cmds.len() ==> ((#[trigger] cmds[i]) matches DrawCommandView::Text {
            font_size,
            color,
            ..
        } ==> font_size == theme.font_size && color == theme.text_color)
}

/// Styling carries over concatenation.
proof fn lemma_styled_concat(
    a: Seq<DrawCommandView>,
    b: Seq<DrawCommandView>,
    theme: Theme,
)
    requires
        styled_by(a, theme),
        styled_by(b, theme),
    ensures
        styled_by(a + b, theme),
{
    assert forall|i: int| 0 <= i < (a + b).len() implies ((#[trigger] (a + b)[i]) matches
    DrawCommandView::Text { font_size, color, .. } ==> font_size == theme.font_size && color
        == theme.text_color) by {
        if i < a.len() {
            assert((a + b)[i] == a[i]);
        } else {
            assert((a + b)[i] == b[i - a.len()]);
        }
    }
}

/// A sequence all of whose widgets leave the style to the theme does so at
/// every index.
proof fn lemma_no_overrides_index(s: Seq<WidgetView>)
    requires
        no_overrides_seq(s),
    ensures
        forall|i: int| 0 <= i < s.len() ==> no_overrides(#[trigger] s[i]),
    decreases s,
{
    if s.len() > 0 {
        lemma_no_overrides_index(s.drop_first());
        assert forall|i: int| 0 <= i < s.len() implies no_overrides(#[trigger] s[i]) by {
            if i > 0 {
                assert(s.drop_first()[i - 1] == s[i]);
            }
        }
    }
}

/// Theme propagation, seen on the output: a tree whose text leaves never
/// override font size or color draws every text command with the theme's
/// font size and text color, wherever it sits in the tree.
pub proof fn lemma_theme_styles_output(w: WidgetView, ctx: BuildContext, ms: Seq<TextMetrics>)
    requires
        no_overrides(w),
    ensures
        spec_build(w, ctx, ms) matches Ok(cmds) ==> styled_by(cmds, ctx.theme),
    decreases w, 0int,
{
    match w {
        WidgetView::Row { children, .. } => {
            lemma_no_overrides_index(children);
            lemma_theme_styles_row(children, ctx, children.len() as int, 0, ms);
        },
        WidgetView::Container { child, width, height, .. } => {
            let cc = spec_container_child_context(ctx, width, height);
            lemma_theme_styles_output(*child, cc, ms);
            match spec_build(*child, cc, ms) {
                Ok(cmds) => {
                    let rect = DrawCommandView::Rect {
                        x: ctx.position.x,
                        y: ctx.position.y,
                        width: 100,
                        height: 100,
                        color: ctx.theme.container_color,
                    };
                    assert(styled_by(seq![rect], ctx.theme));
                    lemma_styled_concat(seq![rect], cmds, ctx.theme);
                },
                Err(_) => {},
            }
        },
        _ => {},
    }
}

/// Theme propagation on the output of a row's children from index `i` on.
proof fn lemma_theme_styles_row(
    children: Seq<WidgetView>,
    ctx: BuildContext,
    n: int,
    i: int,
    ms: Seq<TextMetrics>,
)
    requires
        forall|j: int| 0 <= j < children.len() ==> no_overrides(#[trigger] children[j]),
    ensures
        spec_build_row(children, ctx, n, i, ms) matches Ok(cmds) ==> styled_by(
            cmds,
            ctx.theme,
        ),
    decreases children, children.len() - i,
{
    if 0 <= i < children.len() {
        let k = text_count(children[i]) as int;
        let cc = spec_row_child_context(ctx, n, i);
        lemma_theme_styles_output(children[i], cc, ms.take(k));
        lemma_theme_styles_row(children, ctx, n, i + 1, ms.skip(k));
        match spec_build(children[i], cc, ms.take(k)) {
            Ok(cmds) => {
                match spec_build_row(children, ctx, n, i + 1, ms.skip(k)) {
                    Ok(rest) => {
                        lemma_styled_concat(cmds, rest, ctx.theme);
                    },
                    Err(_) => {},
                }
            },
            Err(_) => {},
        }
    }
}

/// Text fallback: a text leaf with no overrides draws with the theme's font
/// size and text color, at its region's position, with its own rotation.
pub proof fn lemma_text_fallback(t: TextView, ctx: BuildContext, m: TextMetrics)
    requires
        t.font_size is None,
        t.color is None,
        spec_build_text(t, ctx, m) is Ok,
    ensures
        spec_build_text(t, ctx, m) == Ok::<_, LayoutError>(
            seq![
                DrawCommandView::Text {
                    value: t.value,
                    x: ctx.position.x,
                    y: ctx.position.y,
                    font_size: ctx.theme.font_size,
                    color: ctx.theme.text_color,
                    rotation: t.rotation,
                },
            ],
        ),
{
}

} // verus!
