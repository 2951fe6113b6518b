use rustshot_wayland::canvas::{Annotation, AnnotationKind, Canvas, ToolKind, WidgetKind};

/// Geometry payload used by these tests: a point.
#[derive(Debug, Clone, Copy, PartialEq)]
struct Pos {
    x: f32,
    y: f32,
}

fn sample_counter(center: Pos, n: u32) -> Annotation<Pos> {
    Annotation { kind: AnnotationKind::Counter { number: n }, shape: center }
}

fn line() -> Annotation<Pos> {
    Annotation { kind: AnnotationKind::Line, shape: Pos { x: 0.0, y: 0.0 } }
}

#[test]
fn toolkind_all_has_15_items() {
    let all = ToolKind::all();
    assert_eq!(all.len(), 15);
    assert_eq!(all[8], ToolKind::Spotlight);
    let widgets: Vec<_> = all.iter().filter_map(|t| t.widget_kind()).collect();
    assert_eq!(widgets.as_slice(), &WidgetKind::ALL);
}

#[test]
fn widget_tools_map_to_kinds() {
    for &kind in &WidgetKind::ALL {
        let tool = ToolKind::Widget(kind);
        assert_eq!(tool.widget_kind(), Some(kind));
    }
    assert_eq!(ToolKind::Rect.widget_kind(), None);
    assert_eq!(ToolKind::Spotlight.widget_kind(), None);
}

#[test]
fn widgetkind_all_has_six() {
    assert_eq!(WidgetKind::ALL.len(), 6);
}

#[test]
fn canvas_default_empty() {
    let c: Canvas<Pos> = Canvas::default();
    assert!(c.annotations.is_empty());
    assert!(c.redo.is_empty());
    assert!(c.tool.is_none());
    assert_eq!(c.counter(), 0);
}

#[test]
fn push_clears_redo_stack() {
    let mut c: Canvas<Pos> = Canvas::default();
    let a1 = Annotation { kind: AnnotationKind::Line, shape: Pos { x: 0.0, y: 0.0 } };
    let a2 = Annotation { kind: AnnotationKind::Rect, shape: Pos { x: 5.0, y: 5.0 } };

    c.push(a1.clone());
    c.undo();
    assert_eq!(c.redo.len(), 1);

    c.push(a2.clone());
    assert!(c.redo.is_empty(), "redo must be cleared on new push");
    assert_eq!(c.annotations.len(), 1);
}

#[test]
fn undo_redo_basic() {
    let mut c: Canvas<Pos> = Canvas::default();
    let a = Annotation { kind: AnnotationKind::Ellipse, shape: Pos { x: 0.0, y: 0.0 } };

    c.push(a.clone());
    assert_eq!(c.annotations.len(), 1);
    assert_eq!(c.redo.len(), 0);

    c.undo();
    assert!(c.annotations.is_empty());
    assert_eq!(c.redo.len(), 1);

    c.redo();
    assert_eq!(c.annotations.len(), 1);
    assert!(c.redo.is_empty());
}

#[test]
fn undo_redo_multiple() {
    let mut c: Canvas<Pos> = Canvas::default();
    for i in 0..3 {
        c.push(sample_counter(Pos { x: i as f32, y: 0.0 }, i));
    }
    assert_eq!(c.annotations.len(), 3);

    c.undo();
    c.undo();
    assert_eq!(c.annotations.len(), 1);
    assert_eq!(c.redo.len(), 2);

    c.redo();
    assert_eq!(c.annotations.len(), 2);
    assert_eq!(c.redo.len(), 1);
}

#[test]
fn counter_increment_and_undo_adjusts_counter() {
    let mut c: Canvas<Pos> = Canvas::default();
    assert_eq!(c.next_counter(), 1);
    assert_eq!(c.next_counter(), 2);

    c.push(sample_counter(Pos { x: 0.0, y: 0.0 }, 2));
    assert_eq!(c.counter(), 2);

    c.undo();
    assert_eq!(c.counter(), 1, "undoing a counter must decrement the counter");

    c.redo();
    assert_eq!(c.counter(), 2);
}

#[test]
fn undo_non_counter_does_not_touch_counter() {
    let mut c: Canvas<Pos> = Canvas::default();
    c.next_counter();
    c.push(line());
    c.undo();
    assert_eq!(c.counter(), 1, "non-counter undo must not affect counter");
}

#[test]
fn redo_counter_increments_counter() {
    let mut c: Canvas<Pos> = Canvas::default();
    c.push(sample_counter(Pos { x: 10.0, y: 10.0 }, 1));
    c.undo();
    assert_eq!(c.counter(), 0);

    c.redo();
    assert_eq!(c.counter(), 1, "redo of a counter annotation should increment the live counter");
}

#[test]
fn undo_then_redo_restores_the_canvas() {
    let mut c: Canvas<Pos> = Canvas::new();
    c.next_counter();
    c.push(sample_counter(Pos { x: 1.0, y: 2.0 }, 1));
    c.push(line());
    let before: Vec<_> = c.annotations.iter().map(|a| (a.kind, a.shape)).collect();
    let counter = c.counter();
    c.undo();
    c.redo();
    let after: Vec<_> = c.annotations.iter().map(|a| (a.kind, a.shape)).collect();
    assert_eq!(before, after);
    assert!(c.redo.is_empty());
    assert_eq!(c.counter(), counter);
}

#[test]
fn undo_of_counter_at_zero_stays_at_zero() {
    let mut c: Canvas<Pos> = Canvas::new();
    c.push(sample_counter(Pos { x: 0.0, y: 0.0 }, 7));
    c.undo();
    assert_eq!(c.counter(), 0);
    c.redo();
    assert_eq!(c.counter(), 1);
}

#[test]
fn undo_and_redo_on_empty_stacks_change_nothing() {
    let mut c: Canvas<Pos> = Canvas::new();
    c.set_tool(Some(ToolKind::Arrow));
    c.undo();
    c.redo();
    assert!(c.annotations.is_empty());
    assert!(c.redo.is_empty());
    assert_eq!(c.tool(), Some(ToolKind::Arrow));
    assert_eq!(c.counter(), 0);
}

#[test]
fn push_after_undo_then_redo_is_noop() {
    let mut c: Canvas<Pos> = Canvas::new();
    c.push(line());
    c.undo();
    c.push(sample_counter(Pos { x: 3.0, y: 3.0 }, 1));
    c.redo();
    assert_eq!(c.annotations.len(), 1);
    assert_eq!(c.annotations[0].kind, AnnotationKind::Counter { number: 1 });
}

#[test]
fn tool_strip_order() {
    let all = ToolKind::all();
    assert_eq!(all[0], ToolKind::Pencil);
    assert_eq!(all[7], ToolKind::Counter);
    assert_eq!(all[9], ToolKind::Widget(WidgetKind::Button));
    assert_eq!(all[14], ToolKind::Widget(WidgetKind::Measure));
    for i in 0..15 {
        for j in (i + 1)..15 {
            assert_ne!(all[i], all[j]);
        }
    }
}

#[test]
fn accessors_show_the_fields() {
    let mut c: Canvas<Pos> = Canvas::new();
    c.push(line());
    c.push(sample_counter(Pos { x: 1.0, y: 2.0 }, 1));
    c.undo();
    assert_eq!(c.annotations().len(), 1);
    assert_eq!(c.annotations()[0].kind, AnnotationKind::Line);
    assert_eq!(c.redo_stack().len(), 1);
    assert_eq!(c.redo_stack()[0].kind, AnnotationKind::Counter { number: 1 });
    assert_eq!(c.annotations().len(), c.annotations.len());
}
