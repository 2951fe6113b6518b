use std::collections::HashSet;

use rustshot_wayland::canvas::{Annotation, AnnotationKind, Canvas, ToolKind, WidgetKind};
use rustshot_wayland::overlay::{
    apply_hit, base_refresh, cursor_glyph_for_handle, cursor_shape, drag_after, draft_kind,
    handle_key, pick_cursor, place_counter, press, release, BaseRefresh, CursorShape, Dragging,
    Finish, Handle, Hit, Mode, Press, Release, SelectionEdit, SelectionProbe, KS_1, KS_8,
    KS_C_LOWER, KS_ESCAPE, KS_KP_ENTER, KS_RETURN, KS_Y_LOWER, KS_Z_LOWER, XC_CROSSHAIR,
    XC_FLEUR, XC_HAND1, XC_LEFT_PTR,
};
use rustshot_wayland::ui::{result_of, UiResult};

type Pos = (f32, f32);

fn inside() -> Option<SelectionProbe> {
    Some(SelectionProbe { handle: None, inside: true })
}

#[test]
fn cursor_glyphs_are_distinct() {
    let glyphs: HashSet<_> = [
        Handle::N,
        Handle::S,
        Handle::E,
        Handle::W,
        Handle::NE,
        Handle::NW,
        Handle::SE,
        Handle::SW,
    ]
    .iter()
    .map(|&h| cursor_glyph_for_handle(h))
    .collect();
    assert_eq!(glyphs.len(), 8);
}

#[test]
fn escape_cancels() {
    let mut c: Canvas<Pos> = Canvas::new();
    assert_eq!(handle_key(&mut c, KS_ESCAPE, false), Some(Finish::Cancel));
    assert_eq!(result_of(Finish::Cancel), UiResult::Cancelled);
}

#[test]
fn enter_and_ctrl_c_export() {
    let mut c: Canvas<Pos> = Canvas::new();
    assert_eq!(handle_key(&mut c, KS_RETURN, false), Some(Finish::Export { force_copy: false }));
    assert_eq!(handle_key(&mut c, KS_KP_ENTER, true), Some(Finish::Export { force_copy: false }));
    assert_eq!(handle_key(&mut c, KS_C_LOWER, true), Some(Finish::Export { force_copy: true }));
    assert_eq!(handle_key(&mut c, KS_C_LOWER, false), None);
    assert_eq!(result_of(Finish::Export { force_copy: true }), UiResult::Done);
}

#[test]
fn digit_keys_arm_first_eight_tools() {
    let mut c: Canvas<Pos> = Canvas::new();
    assert!(handle_key(&mut c, KS_1, false).is_none());
    assert_eq!(c.tool, Some(ToolKind::all()[0]));
    assert!(handle_key(&mut c, KS_8, false).is_none());
    assert_eq!(c.tool, Some(ToolKind::all()[7]));
}

#[test]
fn digit_keys_with_ctrl_or_nine_do_nothing() {
    let mut c: Canvas<Pos> = Canvas::new();
    assert!(handle_key(&mut c, KS_1, true).is_none());
    assert_eq!(c.tool, None);
    assert!(handle_key(&mut c, KS_8 + 1, false).is_none());
    assert_eq!(c.tool, None);
}

#[test]
fn ctrl_z_undoes_last_annotation() {
    let mut c: Canvas<Pos> = Canvas::new();
    c.set_tool(Some(ToolKind::Counter));
    place_counter(&mut c, (50.0, 50.0));
    assert_eq!(c.annotations.len(), 1);
    assert!(handle_key(&mut c, KS_Z_LOWER, true).is_none());
    assert!(c.annotations.is_empty());
    assert_eq!(c.counter(), 0);
    assert!(handle_key(&mut c, KS_Y_LOWER, true).is_none());
    assert_eq!(c.annotations.len(), 1);
    assert_eq!(c.counter(), 1);
}

#[test]
fn apply_hit_toggles_active_tool() {
    let mut c: Canvas<Pos> = Canvas::new();
    assert_eq!(apply_hit(&mut c, Hit::Tool(ToolKind::Line)), None);
    assert_eq!(c.tool, Some(ToolKind::Line));
    assert_eq!(apply_hit(&mut c, Hit::Tool(ToolKind::Line)), None);
    assert_eq!(c.tool, None);
}

#[test]
fn apply_hit_switches_tools_and_exports() {
    let mut c: Canvas<Pos> = Canvas::new();
    apply_hit(&mut c, Hit::Tool(ToolKind::Line));
    apply_hit(&mut c, Hit::Tool(ToolKind::Rect));
    assert_eq!(c.tool, Some(ToolKind::Rect));
    assert_eq!(apply_hit(&mut c, Hit::Save), Some(Finish::Export { force_copy: false }));
    assert_eq!(apply_hit(&mut c, Hit::Copy), Some(Finish::Export { force_copy: true }));
    assert_eq!(c.tool, Some(ToolKind::Rect));
}

#[test]
fn counter_click_places_annotation() {
    let mut c: Canvas<Pos> = Canvas::new();
    c.set_tool(Some(ToolKind::Counter));
    let p = press(None, Mode::Annotating, inside(), c.tool(), false);
    assert_eq!(p, Press::PlaceCounter);
    assert_eq!(drag_after(p), Dragging::Idle);
    let n = place_counter(&mut c, (50.0, 50.0));
    assert_eq!(n, 1);
    assert_eq!(c.annotations.len(), 1);
    assert_eq!(c.annotations[0].kind, AnnotationKind::Counter { number: 1 });
    assert_eq!(c.annotations[0].shape.0, 50.0);
}

#[test]
fn press_selecting_starts_region_drag() {
    let p = press(None, Mode::SelectingRegion, None, None, false);
    assert_eq!(p, Press::StartRegion);
    assert_eq!(drag_after(p), Dragging::Region);
}

#[test]
fn pencil_press_starts_draft() {
    let p = press(None, Mode::Annotating, inside(), Some(ToolKind::Pencil), false);
    assert_eq!(p, Press::StartDraft(ToolKind::Pencil));
    assert_eq!(drag_after(p), Dragging::Draft);
}

#[test]
fn ctrl_inside_selection_moves_frame_even_with_tool() {
    let p = press(None, Mode::Annotating, inside(), Some(ToolKind::Pencil), true);
    assert_eq!(p, Press::Move);
    assert_eq!(drag_after(p), Dragging::EditMove);
    let p = press(None, Mode::Annotating, inside(), None, false);
    assert_eq!(p, Press::Move);
}

#[test]
fn handles_win_over_everything_but_the_strip() {
    let on_nw = Some(SelectionProbe { handle: Some(Handle::NW), inside: true });
    let p = press(None, Mode::Annotating, on_nw, Some(ToolKind::Counter), true);
    assert_eq!(p, Press::Resize(Handle::NW));
    assert_eq!(drag_after(p), Dragging::EditResize);
    let p = press(Some(Some(Hit::Save)), Mode::Annotating, on_nw, None, false);
    assert_eq!(p, Press::StripButton(Hit::Save));
    assert_eq!(drag_after(p), Dragging::Strip(Hit::Save));
    let p = press(Some(None), Mode::Annotating, on_nw, None, false);
    assert_eq!(p, Press::Swallow);
    assert_eq!(drag_after(p), Dragging::Idle);
}

#[test]
fn press_outside_the_frame_or_without_one_is_ignored() {
    let outside = Some(SelectionProbe { handle: None, inside: false });
    assert_eq!(press(None, Mode::Annotating, outside, Some(ToolKind::Rect), false), Press::Ignore);
    assert_eq!(press(None, Mode::Annotating, None, Some(ToolKind::Rect), false), Press::Ignore);
}

#[test]
fn release_outcomes() {
    assert_eq!(release(Dragging::Region, false, None), Release::SettleRegion);
    assert_eq!(release(Dragging::Draft, true, None), Release::CommitDraft);
    assert_eq!(release(Dragging::EditMove, true, None), Release::EndEdit);
    assert_eq!(release(Dragging::EditResize, false, None), Release::EndEdit);
    assert_eq!(release(Dragging::Idle, true, Some(Hit::Copy)), Release::Nothing);
    assert_eq!(release(Dragging::Strip(Hit::Copy), true, Some(Hit::Copy)), Release::Click(Hit::Copy));
    assert_eq!(release(Dragging::Strip(Hit::Copy), false, Some(Hit::Copy)), Release::Nothing);
    assert_eq!(release(Dragging::Strip(Hit::Copy), true, Some(Hit::Save)), Release::Nothing);
    assert_eq!(release(Dragging::Strip(Hit::Copy), true, None), Release::Nothing);
}

#[test]
fn pick_cursor_crosshair_with_no_selection() {
    assert_eq!(pick_cursor(Dragging::Idle, SelectionEdit::Idle, false, None, false), XC_CROSSHAIR);
}

#[test]
fn pick_cursor_fleur_while_moving() {
    assert_eq!(
        pick_cursor(Dragging::EditMove, SelectionEdit::Moving, false, inside(), false),
        XC_FLEUR
    );
}

#[test]
fn pick_cursor_other_cases() {
    let edge = Some(SelectionProbe { handle: Some(Handle::E), inside: true });
    assert_eq!(
        pick_cursor(Dragging::EditResize, SelectionEdit::Resizing(Handle::SW), false, edge, false),
        12
    );
    assert_eq!(pick_cursor(Dragging::Idle, SelectionEdit::Idle, true, edge, false), XC_HAND1);
    assert_eq!(pick_cursor(Dragging::Idle, SelectionEdit::Idle, false, edge, false), 96);
    assert_eq!(pick_cursor(Dragging::Idle, SelectionEdit::Idle, false, inside(), true), XC_FLEUR);
    assert_eq!(pick_cursor(Dragging::Idle, SelectionEdit::Idle, false, inside(), false), XC_CROSSHAIR);
    let out = Some(SelectionProbe { handle: None, inside: false });
    assert_eq!(pick_cursor(Dragging::Idle, SelectionEdit::Idle, false, out, false), XC_LEFT_PTR);
}

#[test]
fn cursor_shapes() {
    assert_eq!(cursor_shape(XC_CROSSHAIR), CursorShape::Crosshair);
    assert_eq!(cursor_shape(XC_FLEUR), CursorShape::Move);
    assert_eq!(cursor_shape(XC_HAND1), CursorShape::Pointer);
    assert_eq!(cursor_shape(XC_LEFT_PTR), CursorShape::Default);
    assert_eq!(cursor_shape(cursor_glyph_for_handle(Handle::N)), CursorShape::NsResize);
    assert_eq!(cursor_shape(cursor_glyph_for_handle(Handle::S)), CursorShape::NsResize);
    assert_eq!(cursor_shape(cursor_glyph_for_handle(Handle::NE)), CursorShape::NeswResize);
    assert_eq!(cursor_shape(cursor_glyph_for_handle(Handle::SW)), CursorShape::NeswResize);
    assert_eq!(cursor_shape(cursor_glyph_for_handle(Handle::NW)), CursorShape::NwseResize);
    assert_eq!(cursor_shape(cursor_glyph_for_handle(Handle::SE)), CursorShape::NwseResize);
    assert_eq!(cursor_shape(cursor_glyph_for_handle(Handle::W)), CursorShape::WResize);
    assert_eq!(cursor_shape(cursor_glyph_for_handle(Handle::E)), CursorShape::EwResize);
    assert_eq!(cursor_shape(7), CursorShape::Default);
}

#[test]
fn draft_kinds() {
    assert_eq!(draft_kind(ToolKind::Highlighter, 10), Some(AnnotationKind::Pencil));
    assert_eq!(draft_kind(ToolKind::Pixelate, 12), Some(AnnotationKind::Pixelate { block: 12 }));
    assert_eq!(draft_kind(ToolKind::Counter, 10), None);
    assert_eq!(
        draft_kind(ToolKind::Widget(WidgetKind::Toggle), 10),
        Some(AnnotationKind::Widget(WidgetKind::Toggle))
    );
}

#[test]
fn base_refresh_plans() {
    let a = (1, 2, 3, 4, 10);
    let b = (5, 6, 7, 8, 10);
    assert_eq!(base_refresh(&vec![], &vec![]), BaseRefresh::Unchanged);
    assert_eq!(base_refresh(&vec![a], &vec![a]), BaseRefresh::Unchanged);
    assert_eq!(base_refresh(&vec![a], &vec![a, b]), BaseRefresh::AppendLast);
    assert_eq!(base_refresh(&vec![], &vec![b]), BaseRefresh::AppendLast);
    assert_eq!(base_refresh(&vec![a, b], &vec![a]), BaseRefresh::Rebuild);
    assert_eq!(base_refresh(&vec![a], &vec![b]), BaseRefresh::Rebuild);
    assert_eq!(base_refresh(&vec![a], &vec![b, a]), BaseRefresh::Rebuild);
    assert_eq!(base_refresh(&vec![], &vec![a, b]), BaseRefresh::Rebuild);
}

#[test]
fn mode_starts_selecting() {
    assert_eq!(Mode::default(), Mode::SelectingRegion);
}

#[test]
fn placed_counters_number_up_and_undo_gives_numbers_back() {
    let mut c: Canvas<Pos> = Canvas::new();
    assert_eq!(place_counter(&mut c, (1.0, 1.0)), 1);
    assert_eq!(place_counter(&mut c, (2.0, 2.0)), 2);
    c.undo();
    assert_eq!(place_counter(&mut c, (3.0, 3.0)), 2);
    assert!(c.redo.is_empty());
    let kinds: Vec<_> = c.annotations.iter().map(|a: &Annotation<Pos>| a.kind).collect();
    assert_eq!(
        kinds,
        vec![AnnotationKind::Counter { number: 1 }, AnnotationKind::Counter { number: 2 }]
    );
}

#[test]
fn live_counter_counts_bubbles() {
    let mut c: Canvas<Pos> = Canvas::new();
    let count = |c: &Canvas<Pos>| {
        c.annotations.iter().filter(|a| matches!(a.kind, AnnotationKind::Counter { .. })).count() as u32
    };
    place_counter(&mut c, (1.0, 1.0));
    c.push(Annotation { kind: AnnotationKind::Rect, shape: (0.0, 0.0) });
    place_counter(&mut c, (2.0, 2.0));
    assert_eq!(c.counter(), count(&c));
    c.undo();
    assert_eq!(c.counter(), count(&c));
    c.undo();
    assert_eq!(c.counter(), count(&c));
    c.redo();
    c.redo();
    assert_eq!(c.counter(), count(&c));
    assert_eq!(place_counter(&mut c, (3.0, 3.0)), count(&c));
}
