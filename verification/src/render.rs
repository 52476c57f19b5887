//! The build pass: what a widget tree, handed a context and the measurements
//! of its text leaves, draws — first as a mathematical model, then as the
//! executable traversal proved against it.

use vstd::math::min;
use vstd::prelude::*;

use crate::build_context::{BuildContext, LayoutError, Position, Size, Theme};
use crate::draw::{DrawCommand, DrawCommandView, MeasureRequest, MeasureRequestView, TextMetrics};
use crate::layout::{
    lemma_row_offset_bounds, lemma_row_width_bounds, row_child_offset, row_child_width,
};
use crate::widget::{
    lemma_widgets_view_index, spec_build_text, widget_view, widgets_view, ConstrainedBox,
    Container, Widget, WidgetView,
};

verus! {

/// How many text leaves a widget tree holds: the number of measurements a
/// build pass consumes, one per `Text`, none for a bare label.
pub open spec fn text_count(w: WidgetView) -> nat
    decreases w,
{
    match w {
        WidgetView::Label { .. } => 0,
        WidgetView::Text { .. } => 1,
        WidgetView::Row { children, .. } => texts_count(children),
        WidgetView::Container { child, .. } => text_count(*child),
    }
}

/// How many text leaves a sequence of widgets holds in total.
pub open spec fn texts_count(s: Seq<WidgetView>) -> nat
    decreases s,
{
    if s.len() == 0 {
        0
    } else {
        text_count(s[0]) + texts_count(s.drop_first())
    }
}

/// The measurements a widget tree asks of the renderer, in traversal order:
/// one request per text leaf, carrying the string and the font size it
/// resolves against the theme.
pub open spec fn spec_requests(w: WidgetView, theme: Theme) -> Seq<MeasureRequestView>
    decreases w,
{
    match w {
        WidgetView::Label { .. } => Seq::empty(),
        WidgetView::Text { text } => seq![
            MeasureRequestView {
                value: text.value,
                font_size: text.resolved_font_size(theme),
            },
        ],
        WidgetView::Row { children, .. } => requests_seq(children, theme),
        WidgetView::Container { child, .. } => spec_requests(*child, theme),
    }
}

/// The measurements a sequence of widgets asks for, concatenated in index
/// order.
pub open spec fn requests_seq(s: Seq<WidgetView>, theme: Theme) -> Seq<MeasureRequestView>
    decreases s,
{
    if s.len() == 0 {
        Seq::empty()
    } else {
        spec_requests(s[0], theme) + requests_seq(s.drop_first(), theme)
    }
}

/// The context a row derives for the child at index `i` of `n`: the equal
/// share of the region's width (left-most children carrying the remainder),
/// the region's full height, a position advanced along the main axis by the
/// widths of the children before it, and the theme unchanged.
pub open spec fn spec_row_child_context(ctx: BuildContext, n: int, i: int) -> BuildContext
    recommends
        0 < n,
        0 <= i < n,
{
    BuildContext {
        size: Size {
            width: row_child_width(ctx.size.width as int, n, i) as u32,
            height: ctx.size.height,
        },
        position: Position {
            x: (ctx.position.x + row_child_offset(ctx.size.width as int, n, i)) as u32,
            y: ctx.position.y,
        },
        theme: ctx.theme,
    }
}

/// The context a container derives for its child: the requested width and
/// height clamped to the region, the position and the theme unchanged.
pub open spec fn spec_container_child_context(
    ctx: BuildContext,
    width: u32,
    height: u32,
) -> BuildContext {
    BuildContext {
        size: Size {
            width: min(width as int, ctx.size.width as int) as u32,
            height: min(height as int, ctx.size.height as int) as u32,
        },
        position: ctx.position,
        theme: ctx.theme,
    }
}

/// What building a widget tree returns, `ms` being the measurements of its
/// text leaves in traversal order. A bare label draws its value with the
/// theme's font size and color; a text leaf draws under
/// [`spec_build_text`]'s region check; a row partitions the region's width
/// among its children and builds them in index order, which is draw order; a
/// container paints its fixed-floor background rectangle in the theme's
/// container color and then builds its child in the clamped region. The
/// first violation anywhere in the tree is the result, and nothing is drawn.
pub open spec fn spec_build(w: WidgetView, ctx: BuildContext, ms: Seq<TextMetrics>) -> Result<
    Seq<DrawCommandView>,
    LayoutError,
>
    decreases w, 0int,
{
    match w {
        WidgetView::Label { value } => Ok(
            seq![
                DrawCommandView::Text {
                    value,
                    x: ctx.position.x,
                    y: ctx.position.y,
                    font_size: ctx.theme.font_size,
                    color: ctx.theme.text_color,
                    rotation: 0,
                },
            ],
        ),
        WidgetView::Text { text } => spec_build_text(text, ctx, ms[0]),
        WidgetView::Row { children, .. } => spec_build_row(children, ctx, children.len() as int, 0, ms),
        WidgetView::Container { child, width, height, .. } => {
            let rect = DrawCommandView::Rect {
                x: ctx.position.x,
                y: ctx.position.y,
                width: 100,
                height: 100,
                color: ctx.theme.container_color,
            };
            match spec_build(*child, spec_container_child_context(ctx, width, height), ms) {
                Ok(cmds) => Ok(seq![rect] + cmds),
                Err(e) => Err(e),
            }
        },
    }
}

/// What building a row's children from index `i` on returns, `ms` being the
/// measurements of their text leaves: each child is built in its derived
/// context with its own slice of the measurements, and the commands are
/// concatenated in index order.
pub open spec fn spec_build_row(
    children: Seq<WidgetView>,
    ctx: BuildContext,
    n: int,
    i: int,
    ms: Seq<TextMetrics>,
) -> Result<Seq<DrawCommandView>, LayoutError>
    recommends
        n == children.len(),
        0 <= i <= n,
    decreases children, children.len() - i,
{
    if i < 0 || i >= children.len() {
        Ok(Seq::empty())
    } else {
        let k = text_count(children[i]) as int;
        match spec_build(children[i], spec_row_child_context(ctx, n, i), ms.take(k)) {
            Err(e) => Err(e),
            Ok(cmds) => match spec_build_row(children, ctx, n, i + 1, ms.skip(k)) {
                Err(e) => Err(e),
                Ok(rest) => Ok(cmds + rest),
            },
        }
    }
}

/// Every context the build pass derives below a widget handed `ctx`, in
/// traversal order: the context of each child, followed by the contexts
/// below that child. Leaves derive none.
pub open spec fn descendant_contexts(w: WidgetView, ctx: BuildContext) -> Seq<BuildContext>
    decreases w, 0int,
{
    match w {
        WidgetView::Label { .. } => Seq::empty(),
        WidgetView::Text { .. } => Seq::empty(),
        WidgetView::Row { children, .. } => descendant_contexts_row(
            children,
            ctx,
            children.len() as int,
            0,
        ),
        WidgetView::Container { child, width, height, .. } => {
            let cc = spec_container_child_context(ctx, width, height);
            seq![cc] + descendant_contexts(*child, cc)
        },
    }
}

/// The contexts a row's children from index `i` on receive, each followed by
/// the contexts below it.
pub open spec fn descendant_contexts_row(
    children: Seq<WidgetView>,
    ctx: BuildContext,
    n: int,
    i: int,
) -> Seq<BuildContext>
    decreases children, children.len() - i,
{
    if i < 0 || i >= children.len() {
        Seq::empty()
    } else {
        let cc = spec_row_child_context(ctx, n, i);
        (seq![cc] + descendant_contexts(children[i], cc)) + descendant_contexts_row(
            children,
            ctx,
            n,
            i + 1,
        )
    }
}

/// The mathematical values of a list of drawing commands.
pub open spec fn cmds_view(cmds: Seq<DrawCommand>) -> Seq<DrawCommandView> {
    cmds.map_values(|c: DrawCommand| c@)
}

/// The mathematical values of a list of measurement requests.
pub open spec fn requests_view(reqs: Seq<MeasureRequest>) -> Seq<MeasureRequestView> {
    reqs.map_values(|q: MeasureRequest| q@)
}

/// Text leaves split across a cut: the count of a sequence is the count of
/// any prefix plus the count of the rest.
pub proof fn lemma_texts_count_split(s: Seq<WidgetView>, i: int)
    requires
        0 <= i <= s.len(),
    ensures
        texts_count(s) == texts_count(s.take(i)) + texts_count(s.skip(i)),
    decreases i,
{
    if i == 0 {
        assert(s.take(0) =~= Seq::empty());
        assert(s.skip(0) =~= s);
    } else {
        lemma_texts_count_split(s.drop_first(), i - 1);
        assert(s.take(i).drop_first() =~= s.drop_first().take(i - 1));
        assert(s.skip(i) =~= s.drop_first().skip(i - 1));
        assert(s.take(i)[0] == s[0]);
    }
}

/// Consuming one child moves its text count from the rest to the prefix.
pub proof fn lemma_texts_count_skip_step(s: Seq<WidgetView>, i: int)
    requires
        0 <= i < s.len(),
    ensures
        texts_count(s.skip(i)) == text_count(s[i]) + texts_count(s.skip(i + 1)),
        texts_count(s.take(i + 1)) == texts_count(s.take(i)) + text_count(s[i]),
{
    assert(s.skip(i)[0] == s[i]);
    assert(s.skip(i).drop_first() =~= s.skip(i + 1));
    lemma_texts_count_split(s, i);
    lemma_texts_count_split(s, i + 1);
}

/// A tree asks for exactly one measurement per text leaf.
pub proof fn lemma_requests_len(w: WidgetView, theme: Theme)
    ensures
        spec_requests(w, theme).len() == text_count(w),
    decreases w, 0int,
{
    match w {
        WidgetView::Row { children, .. } => {
            lemma_requests_seq_len(children, theme);
        },
        WidgetView::Container { child, .. } => {
            lemma_requests_len(*child, theme);
        },
        _ => {},
    }
}

/// A sequence of widgets asks for exactly one measurement per text leaf.
pub proof fn lemma_requests_seq_len(s: Seq<WidgetView>, theme: Theme)
    ensures
        requests_seq(s, theme).len() == texts_count(s),
    decreases s, 0int,
{
    if s.len() > 0 {
        lemma_requests_len(s[0], theme);
        lemma_requests_seq_len(s.drop_first(), theme);
    }
}

/// Consuming one child appends its requests to the prefix's requests.
pub proof fn lemma_requests_seq_take_step(s: Seq<WidgetView>, theme: Theme, i: int)
    requires
        0 <= i < s.len(),
    ensures
        requests_seq(s.take(i + 1), theme) =~= requests_seq(s.take(i), theme) + spec_requests(
            s[i],
            theme,
        ),
    decreases i,
{
    if i == 0 {
        assert(s.take(0) =~= Seq::empty());
        assert(s.take(1)[0] == s[0]);
        assert(s.take(1).drop_first() =~= Seq::empty());
    } else {
        lemma_requests_seq_take_step(s.drop_first(), theme, i - 1);
        assert(s.take(i + 1).drop_first() =~= s.drop_first().take(i));
        assert(s.take(i).drop_first() =~= s.drop_first().take(i - 1));
        assert(s.take(i + 1)[0] == s[0]);
        assert(s.take(i)[0] == s[0]);
        assert(s.drop_first()[i - 1] == s[i]);
        assert(spec_requests(s[0], theme) + (requests_seq(s.drop_first().take(i - 1), theme)
            + spec_requests(s[i], theme)) =~= (spec_requests(s[0], theme) + requests_seq(
            s.drop_first().take(i - 1),
            theme,
        )) + spec_requests(s[i], theme));
    }
}

/// The size and position a row hands to the child at index `i` of `n`,
/// computed in whole pixels.
fn row_child_geometry(ctx: &BuildContext, n: usize, i: usize) -> (r: (Size, Position))
    requires
        0 < n,
        i < n,
        ctx.position.x + ctx.size.width <= u32::MAX,
    ensures
        r.0 == spec_row_child_context(*ctx, n as int, i as int).size,
        r.1 == spec_row_child_context(*ctx, n as int, i as int).position,
{
    proof {
        lemma_row_offset_bounds(ctx.size.width as int, n as int, i as int);
        lemma_row_width_bounds(ctx.size.width as int, n as int, i as int);
    }
    let w: u64 = ctx.size.width as u64;
    let nn: u64 = n as u64;
    let ii: u64 = i as u64;
    let base: u64 = w / nn;
    let rem: u64 = w % nn;
    let extra: u64 = if ii < rem {
        1
    } else {
        0
    };
    let capped: u64 = if ii < rem {
        ii
    } else {
        rem
    };
    let width: u64 = base + extra;
    let offset: u64 = ii * base + capped;
    let x: u64 = ctx.position.x as u64 + offset;
    (
        Size { width: width as u32, height: ctx.size.height },
        Position { x: x as u32, y: ctx.position.y },
    )
}

impl Widget {
    /// Build this subtree against a context, reading its measurements from
    /// `metrics` starting at `start`; on success, also say where the next
    /// subtree's measurements begin.
    #[verifier::loop_isolation(false)]
    fn build_inner(&self, ctx: &BuildContext, metrics: &Vec<TextMetrics>, start: usize) -> (r:
        Result<(Vec<DrawCommand>, usize), LayoutError>)
        requires
            start + text_count(self@) <= metrics@.len(),
            ctx.position.x + ctx.size.width <= u32::MAX,
        ensures
            r matches Ok((cmds, next)) ==> next == start + text_count(self@) && spec_build(
                self@,
                *ctx,
                metrics@.subrange(start as int, start + text_count(self@)),
            ) == Ok::<_, LayoutError>(cmds_view(cmds@)),
            r matches Err(e) ==> spec_build(
                self@,
                *ctx,
                metrics@.subrange(start as int, start + text_count(self@)),
            ) == Err::<Seq<DrawCommandView>, _>(e),
        decreases *self,
    {
        match self {
            Widget::Label(value) => {
                let cmd = DrawCommand::Text {
                    value: value.clone(),
                    x: ctx.position.x,
                    y: ctx.position.y,
                    font_size: ctx.theme.font_size,
                    color: ctx.theme.text_color,
                    rotation: 0,
                };
                let mut out: Vec<DrawCommand> = Vec::new();
                out.push(cmd);
                proof {
                    assert(cmds_view(out@) =~= seq![
                        DrawCommandView::Text {
                            value: value@,
                            x: ctx.position.x,
                            y: ctx.position.y,
                            font_size: ctx.theme.font_size,
                            color: ctx.theme.text_color,
                            rotation: 0,
                        },
                    ]);
                }
                Ok((out, start))
            },
            Widget::Text(t) => {
                let m = metrics[start];
                proof {
                    assert(text_count(self@) == 1);
                    assert(metrics@.len() == metrics.len());
                    assert(metrics@.subrange(start as int, start + 1) =~= seq![metrics@[
                        start as int]]);
                }
                match t.build(ctx, m) {
                    Ok(cmds) => Ok((cmds, start + 1)),
                    Err(e) => Err(e),
                }
            },
            Widget::Container(c) => {
                let floor = Container::get_min();
                let rect = DrawCommand::Rect {
                    x: ctx.position.x,
                    y: ctx.position.y,
                    width: floor.width,
                    height: floor.height,
                    color: ctx.theme.container_color,
                };
                let cw = if c.width <= ctx.size.width {
                    c.width
                } else {
                    ctx.size.width
                };
                let ch = if c.height <= ctx.size.height {
                    c.height
                } else {
                    ctx.size.height
                };
                let cctx = match ctx.child_context(
                    Size { width: cw, height: ch },
                    ctx.position,
                ) {
                    Ok(cc) => cc,
                    Err(e) => {
                        return Err(e);
                    },
                };
                proof {
                    assert(cctx == spec_container_child_context(*ctx, c.width, c.height));
                }
                match c.child.build_inner(&cctx, metrics, start) {
                    Ok((mut ccmds, next)) => {
                        let ghost ccmds0 = ccmds@;
                        let mut out: Vec<DrawCommand> = Vec::new();
                        out.push(rect);
                        out.append(&mut ccmds);
                        proof {
                            assert(cmds_view(out@) =~= seq![rect@] + cmds_view(ccmds0));
                        }
                        Ok((out, next))
                    },
                    Err(e) => Err(e),
                }
            },
            Widget::Row(row) => {
                let n = row.children.len();
                let ghost cseq = row.children@;
                let ghost cv = widgets_view(cseq);
                let ghost total = texts_count(cv);
                let ghost full = metrics@.subrange(start as int, start + total);
                proof {
                    lemma_widgets_view_index(cseq);
                }
                if n == 0 {
                    let out: Vec<DrawCommand> = Vec::new();
                    proof {
                        assert(cmds_view(out@) =~= Seq::<DrawCommandView>::empty());
                    }
                    return Ok((out, start));
                }
                let mut out: Vec<DrawCommand> = Vec::new();
                let mut pos: usize = start;
                let mut i: usize = 0;
                proof {
                    assert(cv.take(0) =~= Seq::<WidgetView>::empty());
                    assert(cmds_view(out@) =~= Seq::<DrawCommandView>::empty());
                    match spec_build_row(cv, *ctx, n as int, 0, full) {
                        Ok(rest) => {
                            assert(cmds_view(out@) + rest =~= rest);
                        },
                        Err(_) => {},
                    }
                }
                while i < n
                    invariant
                        i <= n,
                        pos == start + texts_count(cv.take(i as int)),
                        ({
                            let rest = spec_build_row(
                                cv,
                                *ctx,
                                n as int,
                                i as int,
                                metrics@.subrange(pos as int, start + total),
                            );
                            match rest {
                                Ok(r) => spec_build_row(cv, *ctx, n as int, 0, full) == Ok::<
                                    _,
                                    LayoutError,
                                >(cmds_view(out@) + r),
                                Err(e) => spec_build_row(cv, *ctx, n as int, 0, full) == Err::<
                                    Seq<DrawCommandView>,
                                    _,
                                >(e),
                            }
                        }),
                    decreases n - i,
                {
                    proof {
                        lemma_texts_count_split(cv, i as int);
                        lemma_texts_count_skip_step(cv, i as int);
                        lemma_row_offset_bounds(ctx.size.width as int, n as int, i as int);
                        lemma_row_width_bounds(ctx.size.width as int, n as int, i as int);
                    }
                    let ghost k = text_count(cv[i as int]) as int;
                    let (csize, cpos) = row_child_geometry(ctx, n, i);
                    let cctx = match ctx.child_context(csize, cpos) {
                        Ok(cc) => cc,
                        Err(e) => {
                            return Err(e);
                        },
                    };
                    proof {
                        assert(cctx == spec_row_child_context(*ctx, n as int, i as int));
                        assert(metrics@.subrange(pos as int, start + total).take(k)
                            =~= metrics@.subrange(pos as int, pos + k));
                        assert(metrics@.subrange(pos as int, start + total).skip(k)
                            =~= metrics@.subrange(pos + k, start + total));
                    }
                    let child = &row.children[i];
                    match child.build_inner(&cctx, metrics, pos) {
                        Ok((mut ccmds, next)) => {
                            let ghost out0 = out@;
                            let ghost ccmds0 = ccmds@;
                            out.append(&mut ccmds);
                            pos = next;
                            i = i + 1;
                            proof {
                                assert(cmds_view(out@) =~= cmds_view(out0) + cmds_view(ccmds0));
                                match spec_build_row(
                                    cv,
                                    *ctx,
                                    n as int,
                                    i as int,
                                    metrics@.subrange(pos as int, start + total),
                                ) {
                                    Ok(rest) => {
                                        assert((cmds_view(out0) + cmds_view(ccmds0)) + rest
                                            =~= cmds_view(out0) + (cmds_view(ccmds0) + rest));
                                    },
                                    Err(_) => {},
                                }
                            }
                        },
                        Err(e) => {
                            return Err(e);
                        },
                    }
                }
                proof {
                    assert(cv.take(n as int) =~= cv);
                    match spec_build_row(
                        cv,
                        *ctx,
                        n as int,
                        n as int,
                        metrics@.subrange(pos as int, start + total),
                    ) {
                        Ok(rest) => {
                            assert(cmds_view(out@) + rest =~= cmds_view(out@));
                        },
                        Err(_) => {},
                    }
                }
                Ok((out, pos))
            },
        }
    }

    /// Build this widget tree against a context: compute every child region,
    /// enforce the layout contract, and return the drawing commands in draw
    /// order, or the first violation found. `metrics` are the measurements of
    /// the tree's text leaves, one per entry of
    /// [`Widget::measure_requests`], in the same order.
    pub fn build(&self, ctx: &BuildContext, metrics: &Vec<TextMetrics>) -> (r: Result<
        Vec<DrawCommand>,
        LayoutError,
    >)
        requires
            metrics@.len() == text_count(self@),
            ctx.position.x + ctx.size.width <= u32::MAX,
        ensures
            r matches Ok(cmds) ==> spec_build(self@, *ctx, metrics@) == Ok::<_, LayoutError>(
                cmds_view(cmds@),
            ),
            r matches Err(e) ==> spec_build(self@, *ctx, metrics@) == Err::<
                Seq<DrawCommandView>,
                _,
            >(e),
    {
        proof {
            assert(metrics@.subrange(0, text_count(self@) as int) =~= metrics@);
        }
        match self.build_inner(ctx, metrics, 0) {
            Ok((cmds, _next)) => Ok(cmds),
            Err(e) => Err(e),
        }
    }

    /// Collect this subtree's measurement requests onto `out`, in traversal
    /// order.
    #[verifier::loop_isolation(false)]
    fn collect_requests(&self, theme: &Theme, out: &mut Vec<MeasureRequest>)
        ensures
            requests_view(final(out)@) == requests_view(old(out)@) + spec_requests(
                self@,
                *theme,
            ),
        decreases *self,
    {
        match self {
            Widget::Label(_) => {
                proof {
                    assert(requests_view(out@) =~= requests_view(out@) + Seq::<
                        MeasureRequestView,
                    >::empty());
                }
            },
            Widget::Text(t) => {
                let fs = t.resolved_font_size(theme);
                let ghost out0 = out@;
                out.push(MeasureRequest { value: t.value.clone(), font_size: fs });
                proof {
                    assert(requests_view(out@) =~= requests_view(out0) + spec_requests(
                        self@,
                        *theme,
                    ));
                }
            },
            Widget::Container(c) => {
                c.child.collect_requests(theme, out);
            },
            Widget::Row(row) => {
                let n = row.children.len();
                let ghost cseq = row.children@;
                let ghost cv = widgets_view(cseq);
                let ghost out0 = out@;
                proof {
                    lemma_widgets_view_index(cseq);
                    assert(cv.take(0) =~= Seq::<WidgetView>::empty());
                    assert(requests_view(out@) =~= requests_view(out0) + requests_seq(
                        cv.take(0),
                        *theme,
                    ));
                }
                let mut i: usize = 0;
                while i < n
                    invariant
                        i <= n,
                        requests_view(out@) == requests_view(out0) + requests_seq(
                            cv.take(i as int),
                            *theme,
                        ),
                    decreases n - i,
                {
                    let child = &row.children[i];
                    let ghost out_prev = out@;
                    child.collect_requests(theme, out);
                    i = i + 1;
                    proof {
                        lemma_requests_seq_take_step(cv, *theme, i as int - 1);
                        assert((requests_view(out0) + requests_seq(
                            cv.take(i as int - 1),
                            *theme,
                        )) + spec_requests(cv[i as int - 1], *theme) =~= requests_view(out0)
                            + requests_seq(cv.take(i as int), *theme));
                    }
                }
                proof {
                    assert(cv.take(n as int) =~= cv);
                }
            },
        }
    }

    /// The measurements this tree asks of the renderer: one request per text
    /// leaf, in traversal order, each carrying the string and the font size
    /// it resolves against `theme`. Measuring each request, in order, yields
    /// exactly the `metrics` that [`Widget::build`] consumes.
    pub fn measure_requests(&self, theme: &Theme) -> (r: Vec<MeasureRequest>)
        ensures
            requests_view(r@) == spec_requests(self@, *theme),
            r@.len() == text_count(self@),
    {
        let mut out: Vec<MeasureRequest> = Vec::new();
        proof {
            assert(requests_view(Seq::<MeasureRequest>::empty()) =~= Seq::<
                MeasureRequestView,
            >::empty());
        }
        self.collect_requests(theme, &mut out);
        proof {
            lemma_requests_len(self@, *theme);
            assert(Seq::<MeasureRequestView>::empty() + spec_requests(self@, *theme)
                =~= spec_requests(self@, *theme));
        }
        out
    }
}

} // verus!
