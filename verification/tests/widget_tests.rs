use flutter_rs::build_context::{Axis, BuildContext, Color, LayoutError, Position, Size, Theme};
use flutter_rs::draw::{DrawCommand, TextMetrics};
use flutter_rs::widget::{
    AxisSize, ConstrainedBox, Container, CrossAxisAlign, MainAxisAlign, Row, Text, Widget,
};

fn white() -> Color {
    Color { r: 255, g: 255, b: 255, a: 255 }
}

fn root_context(width: u32, height: u32, x: u32, y: u32) -> BuildContext {
    BuildContext {
        size: Size { width, height },
        position: Position { x, y },
        theme: Theme::default(),
    }
}

#[test]
fn theme_default_values() {
    let t = Theme::default();
    assert_eq!(t.background_color, Color { r: 50, g: 50, b: 50, a: 255 });
    assert_eq!(t.container_color, Color { r: 100, g: 100, b: 100, a: 255 });
    assert_eq!(t.text_color, white());
    assert_eq!(t.font_size, 24);
}

#[test]
fn child_context_within_parent_keeps_theme() {
    let parent = root_context(700, 100, 50, 50);
    let child = parent
        .child_context(Size { width: 233, height: 100 }, Position { x: 283, y: 50 })
        .expect("a child that fits is accepted");
    assert_eq!(child.size, Size { width: 233, height: 100 });
    assert_eq!(child.position, Position { x: 283, y: 50 });
    assert_eq!(child.theme, parent.theme);
}

#[test]
fn child_context_rejects_wider_child() {
    let parent = root_context(700, 100, 50, 50);
    let err = parent
        .child_context(Size { width: 701, height: 100 }, Position { x: 50, y: 50 })
        .expect_err("a wider child is rejected");
    assert_eq!(
        err,
        LayoutError::OutOfBoundsLayout { axis: Axis::Horizontal, child_extent: 701, parent_extent: 700 }
    );
}

#[test]
fn child_context_rejects_taller_child() {
    let parent = root_context(700, 100, 50, 50);
    let err = parent
        .child_context(Size { width: 700, height: 101 }, Position { x: 50, y: 50 })
        .expect_err("a taller child is rejected");
    assert_eq!(
        err,
        LayoutError::OutOfBoundsLayout { axis: Axis::Vertical, child_extent: 101, parent_extent: 100 }
    );
}

#[test]
fn text_default_and_from() {
    let d = Text::default();
    assert_eq!(d.value, "");
    assert_eq!(d.font_size, None);
    assert_eq!(d.color, None);
    assert_eq!(d.rotation, 0);
    assert!(d.hard_wrap);

    let t = Text::from("Nice!");
    assert_eq!(t.value, "Nice!");
    assert_eq!(t.font_size, None);
    assert_eq!(t.color, None);
    assert_eq!(t.rotation, 0);
    assert!(t.hard_wrap);
}

#[test]
fn text_fallback_uses_theme() {
    // A text with no overrides, against a theme with font size 24 and white
    // text, draws at 24 in white.
    let ctx = root_context(700, 100, 50, 50);
    let t = Text::from("Hello world!");
    let cmds = t
        .build(&ctx, TextMetrics { width: 140, height: 24 })
        .expect("text that fits draws");
    assert_eq!(cmds.len(), 1);
    assert_eq!(
        cmds[0],
        DrawCommand::Text {
            value: "Hello world!".to_string(),
            x: 50,
            y: 50,
            font_size: 24,
            color: white(),
            rotation: 0,
        }
    );
}

#[test]
fn text_override_beats_theme() {
    let ctx = root_context(700, 100, 50, 50);
    let red = Color { r: 255, g: 0, b: 0, a: 255 };
    let t = Text {
        value: "Cool text!".to_string(),
        font_size: Some(32),
        color: Some(red),
        rotation: 45,
        hard_wrap: false,
    };
    let cmds = t
        .build(&ctx, TextMetrics { width: 160, height: 32 })
        .expect("text without hard wrapping always draws");
    assert_eq!(
        cmds[0],
        DrawCommand::Text {
            value: "Cool text!".to_string(),
            x: 50,
            y: 50,
            font_size: 32,
            color: red,
            rotation: 45,
        }
    );
}

#[test]
fn text_overflow_reports_excess() {
    // Measured 25 pixels wider than the region: the overflow carries 25.
    let ctx = root_context(700, 100, 50, 50);
    let t = Text::from("Hello world!");
    let err = t
        .build(&ctx, TextMetrics { width: 725, height: 24 })
        .expect_err("hard-wrapped text wider than its region fails");
    assert_eq!(err, LayoutError::ContentOverflow { axis: Axis::Horizontal, overflow: 25 });
}

#[test]
fn text_overflow_vertical() {
    let ctx = root_context(700, 100, 50, 50);
    let t = Text::from("Hello world!");
    let err = t
        .build(&ctx, TextMetrics { width: 140, height: 107 })
        .expect_err("hard-wrapped text taller than its region fails");
    assert_eq!(err, LayoutError::ContentOverflow { axis: Axis::Vertical, overflow: 7 });
}

#[test]
fn text_no_hard_wrap_never_overflows() {
    let ctx = root_context(700, 100, 50, 50);
    let mut t = Text::from("Hello world!");
    t.hard_wrap = false;
    let cmds = t
        .build(&ctx, TextMetrics { width: 725, height: 107 })
        .expect("without hard wrapping nothing is checked");
    assert_eq!(cmds.len(), 1);
}

fn row_of(children: Vec<Widget>) -> Widget {
    Widget::Row(Row {
        children,
        main_axis_alignment: MainAxisAlign::SpaceEvenly,
        main_axis_size: AxisSize::Max,
        cross_axis_alignment: CrossAxisAlign::End,
    })
}

#[test]
fn row_empty_builds_nothing() {
    let ctx = root_context(700, 100, 50, 50);
    let row = row_of(Vec::new());
    let cmds = row.build(&ctx, &Vec::new()).expect("an empty row never fails");
    assert!(cmds.is_empty());
}

#[test]
fn row_scenario_positions() {
    // Three bare labels in a 700-wide region at (50, 50): the widths 234,
    // 233, 233 partition 700 exactly, so the children sit at x = 50, 284
    // and 517.
    let ctx = root_context(700, 100, 50, 50);
    let row = row_of(vec![
        Widget::Label("Hello world!".to_string()),
        Widget::Label("Cool text!".to_string()),
        Widget::Label("Nice!".to_string()),
    ]);
    let cmds = row.build(&ctx, &Vec::new()).expect("labels are never checked");
    assert_eq!(cmds.len(), 3);
    let expected = [("Hello world!", 50), ("Cool text!", 284), ("Nice!", 517)];
    for (cmd, (text, x)) in cmds.iter().zip(expected.iter()) {
        match cmd {
            DrawCommand::Text { value, x: cx, y, font_size, color, rotation } => {
                assert_eq!(value, text);
                assert_eq!(cx, x);
                assert_eq!(*y, 50);
                assert_eq!(*font_size, 24);
                assert_eq!(*color, white());
                assert_eq!(*rotation, 0);
            }
            other => panic!("expected a text command, got {:?}", other),
        }
    }
}

#[test]
fn row_partition_is_exact() {
    // The same region split among hard-wrapped texts: metrics that fill each
    // slot exactly (234, 233, 233 pixels) pass, so the three widths cover
    // all 700 pixels.
    let ctx = root_context(700, 100, 50, 50);
    let row = row_of(vec![
        Widget::Text(Text::from("aaa")),
        Widget::Text(Text::from("bbb")),
        Widget::Text(Text::from("ccc")),
    ]);
    let metrics = vec![
        TextMetrics { width: 234, height: 100 },
        TextMetrics { width: 233, height: 100 },
        TextMetrics { width: 233, height: 100 },
    ];
    let cmds = row.build(&ctx, &metrics).expect("texts that fill their slots exactly fit");
    assert_eq!(cmds.len(), 3);

    // One pixel more in the first slot overflows by exactly one.
    let metrics = vec![
        TextMetrics { width: 235, height: 100 },
        TextMetrics { width: 233, height: 100 },
        TextMetrics { width: 233, height: 100 },
    ];
    let err = row.build(&ctx, &metrics).expect_err("one extra pixel overflows");
    assert_eq!(err, LayoutError::ContentOverflow { axis: Axis::Horizontal, overflow: 1 });

    // The second slot is only 233 wide: 234 there overflows too.
    let metrics = vec![
        TextMetrics { width: 234, height: 100 },
        TextMetrics { width: 234, height: 100 },
        TextMetrics { width: 233, height: 100 },
    ];
    let err = row.build(&ctx, &metrics).expect_err("the remainder goes to the first child only");
    assert_eq!(err, LayoutError::ContentOverflow { axis: Axis::Horizontal, overflow: 1 });
}

#[test]
fn container_draws_floor_rect_then_child() {
    let ctx = root_context(700, 300, 50, 50);
    let tree = Widget::Container(Container {
        child: Box::new(Widget::Label("Hello!".to_string())),
        color: Theme::default().container_color,
        width: 300,
        height: 300,
    });
    let cmds = tree.build(&ctx, &Vec::new()).expect("a label in a container draws");
    assert_eq!(cmds.len(), 2);
    assert_eq!(
        cmds[0],
        DrawCommand::Rect {
            x: 50,
            y: 50,
            width: 100,
            height: 100,
            color: Theme::default().container_color,
        }
    );
    match &cmds[1] {
        DrawCommand::Text { value, x, y, .. } => {
            assert_eq!(value, "Hello!");
            assert_eq!(*x, 50);
            assert_eq!(*y, 50);
        }
        other => panic!("expected the child's text command, got {:?}", other),
    }
}

#[test]
fn container_clamps_child_region() {
    // The container asks for 300 by 300 in a 200 by 100 region: the child
    // gets the clamped 200 by 100, so a text measured 201 wide overflows
    // by one.
    let ctx = root_context(200, 100, 0, 0);
    let tree = Widget::Container(Container {
        child: Box::new(Widget::Text(Text::from("wide"))),
        color: Theme::default().container_color,
        width: 300,
        height: 300,
    });
    let metrics = vec![TextMetrics { width: 201, height: 50 }];
    let err = tree.build(&ctx, &metrics).expect_err("the child region is clamped");
    assert_eq!(err, LayoutError::ContentOverflow { axis: Axis::Horizontal, overflow: 1 });
}

#[test]
fn theme_propagates_through_tree() {
    // Every drawing command of a tree without overrides carries the root
    // theme's font size and text color.
    let ctx = root_context(700, 300, 50, 50);
    let tree = Widget::Container(Container {
        child: Box::new(row_of(vec![
            Widget::Text(Text::from("one")),
            Widget::Label("two".to_string()),
        ])),
        color: Theme::default().container_color,
        width: 700,
        height: 300,
    });
    let metrics = vec![TextMetrics { width: 100, height: 24 }];
    let cmds = tree.build(&ctx, &metrics).expect("everything fits");
    for cmd in &cmds {
        if let DrawCommand::Text { font_size, color, .. } = cmd {
            assert_eq!(*font_size, ctx.theme.font_size);
            assert_eq!(*color, ctx.theme.text_color);
        }
    }
}

#[test]
fn measure_requests_in_order() {
    let theme = Theme::default();
    let tree = row_of(vec![
        Widget::Text(Text {
            value: "big".to_string(),
            font_size: Some(40),
            color: None,
            rotation: 0,
            hard_wrap: true,
        }),
        Widget::Label("unmeasured".to_string()),
        Widget::Container(Container {
            child: Box::new(Widget::Text(Text::from("plain"))),
            color: theme.container_color,
            width: 100,
            height: 100,
        }),
    ]);
    let reqs = tree.measure_requests(&theme);
    assert_eq!(reqs.len(), 2);
    assert_eq!(reqs[0].value, "big");
    assert_eq!(reqs[0].font_size, 40);
    assert_eq!(reqs[1].value, "plain");
    assert_eq!(reqs[1].font_size, 24);
}

#[test]
fn row_single_child_gets_whole_region() {
    let ctx = root_context(700, 100, 50, 50);
    let row = row_of(vec![Widget::Text(Text::from("only"))]);
    let metrics = vec![TextMetrics { width: 700, height: 100 }];
    let cmds = row.build(&ctx, &metrics).expect("the single child gets all 700 pixels");
    assert_eq!(cmds.len(), 1);
    let metrics = vec![TextMetrics { width: 701, height: 100 }];
    let err = row.build(&ctx, &metrics).expect_err("more than the whole region overflows");
    assert_eq!(err, LayoutError::ContentOverflow { axis: Axis::Horizontal, overflow: 1 });
}

#[test]
fn row_handles_largest_region() {
    // u32::MAX is divisible by 3: the three children split it evenly with
    // no remainder, starting at x = 0.
    let ctx = root_context(u32::MAX, 100, 0, 0);
    let row = row_of(vec![
        Widget::Label("a".to_string()),
        Widget::Label("b".to_string()),
        Widget::Label("c".to_string()),
    ]);
    let cmds = row.build(&ctx, &Vec::new()).expect("labels are never checked");
    let third = u32::MAX / 3;
    let xs: Vec<u32> = cmds
        .iter()
        .map(|c| match c {
            DrawCommand::Text { x, .. } => *x,
            other => panic!("expected a text command, got {:?}", other),
        })
        .collect();
    assert_eq!(xs, vec![0, third, 2 * third]);
}

#[test]
fn constrained_box_bounds() {
    assert_eq!(Container::get_min(), Size { width: 100, height: 100 });
    assert_eq!(Container::get_max(), Size { width: u32::MAX, height: u32::MAX });
}
