//! Decisions of the annotation overlay: what a pointer press or release turns
//! into, what a key does to the canvas, which cursor glyph to show, and when
//! the baked pixelate layer must be rebuilt.
//!
//! Hit-testing happens in floating-point screen space on the caller's side;
//! these functions take its answers (which handle, inside or not, which strip
//! button) as plain values and decide the rest.

use vstd::prelude::*;
use crate::canvas::{
    Annotation, AnnotationKind, Canvas, CanvasModel, ToolKind, tool_strip,
};

verus! {

/// Cursor-font glyph: crosshair, the default while selecting and drawing.
pub const XC_CROSSHAIR: u16 = 34;
/// Cursor-font glyph: four-way move arrow.
pub const XC_FLEUR: u16 = 52;
/// Cursor-font glyph: pointing hand, over strip buttons.
pub const XC_HAND1: u16 = 58;
/// Cursor-font glyph: plain arrow, outside the selection.
pub const XC_LEFT_PTR: u16 = 68;

/// Keysyms the overlay reacts to.
pub const KS_ESCAPE: u32 = 0xff1b;
pub const KS_RETURN: u32 = 0xff0d;
pub const KS_KP_ENTER: u32 = 0xff8d;
pub const KS_C_LOWER: u32 = 0x0063;
pub const KS_Z_LOWER: u32 = 0x007a;
pub const KS_Y_LOWER: u32 = 0x0079;
pub const KS_1: u32 = 0x0031;
pub const KS_8: u32 = 0x0038;

/// A grab handle of the selection frame: the four edges and four corners.
#[derive(Debug, Clone, Copy, PartialEq, Eq, Structural)]
pub enum Handle {
    N,
    S,
    E,
    W,
    NE,
    NW,
    SE,
    SW,
}

/// What an ongoing drag does to the selection frame.
#[derive(Debug, Clone, Copy, PartialEq, Eq, Structural)]
pub enum SelectionEdit {
    Idle,
    Moving,
    Resizing(Handle),
}

/// Stock cursor-font glyph for each resize direction.
pub open spec fn handle_glyph(h: Handle) -> u16 {
    match h {
        Handle::N => 138,
        Handle::S => 16,
        Handle::E => 96,
        Handle::W => 70,
        Handle::NE => 136,
        Handle::NW => 134,
        Handle::SE => 14,
        Handle::SW => 12,
    }
}

pub fn cursor_glyph_for_handle(h: Handle) -> (g: u16)
    ensures
        g == handle_glyph(h),
{
    match h {
        Handle::N => 138,
        Handle::S => 16,
        Handle::E => 96,
        Handle::W => 70,
        Handle::NE => 136,
        Handle::NW => 134,
        Handle::SE => 14,
        Handle::SW => 12,
    }
}

/// Every handle has its own glyph, and none of them is one of the four
/// non-resize cursors.
pub proof fn lemma_handle_glyphs_distinct(a: Handle, b: Handle)
    ensures
        handle_glyph(a) == handle_glyph(b) <==> a == b,
        handle_glyph(a) != XC_CROSSHAIR,
        handle_glyph(a) != XC_FLEUR,
        handle_glyph(a) != XC_HAND1,
        handle_glyph(a) != XC_LEFT_PTR,
{
}

/// The overlay first selects a region, then annotates inside it.
#[derive(Debug, Clone, Copy, PartialEq, Eq, Structural)]
pub enum Mode {
    SelectingRegion,
    Annotating,
}

impl Default for Mode {
    fn default() -> (m: Mode)
        ensures
            m == Mode::SelectingRegion,
    {
        Mode::SelectingRegion
    }
}

/// A button of the tool strip under the selection.
#[derive(Debug, Clone, Copy, PartialEq, Eq, Structural)]
pub enum Hit {
    Tool(ToolKind),
    Save,
    Copy,
}

/// What the pointer is dragging between press and release.
#[derive(Debug, Clone, Copy, PartialEq, Eq, Structural)]
pub enum Dragging {
    Idle,
    Region,
    Draft,
    EditResize,
    EditMove,
    Strip(Hit),
}

/// How the overlay ends: dismissed, or exported (saved and/or copied).
#[derive(Debug, Clone, Copy, PartialEq, Eq, Structural)]
pub enum Finish {
    Cancel,
    /// Save to the configured path; `force_copy` also copies to the
    /// clipboard whatever the clipboard preference.
    Export { force_copy: bool },
}

/// `t` clicked while `armed` was armed: the armed tool is disarmed, any other
/// tool is armed.
pub open spec fn toggled(armed: Option<ToolKind>, t: ToolKind) -> Option<ToolKind> {
    if armed == Some(t) {
        None
    } else {
        Some(t)
    }
}

/// A click on a strip button: tool buttons toggle the armed tool, Save and
/// Copy finish the overlay.
pub fn apply_hit<G>(canvas: &mut Canvas<G>, hit: Hit) -> (r: Option<Finish>)
    ensures
        match hit {
            Hit::Tool(t) => r is None && final(canvas)@ == (CanvasModel {
                tool: toggled(old(canvas)@.tool, t),
                ..old(canvas)@
            }),
            Hit::Save => r == Some(Finish::Export { force_copy: false }) && final(canvas)@
                == old(canvas)@,
            Hit::Copy => r == Some(Finish::Export { force_copy: true }) && final(canvas)@
                == old(canvas)@,
        },
{
    match hit {
        Hit::Tool(t) => {
            let same = match canvas.tool() {
                Some(a) => a == t,
                None => false,
            };
            if same {
                canvas.set_tool(None);
            } else {
                canvas.set_tool(Some(t));
            }
            None
        },
        Hit::Save => Some(Finish::Export { force_copy: false }),
        Hit::Copy => Some(Finish::Export { force_copy: true }),
    }
}

/// Clicking the same tool button twice disarms it, unless it was already
/// armed before the first click, in which case it ends armed again.
pub proof fn lemma_toggle_twice(armed: Option<ToolKind>, t: ToolKind)
    ensures
        toggled(toggled(armed, t), t) == (if armed == Some(t) {
            armed
        } else {
            None::<ToolKind>
        }),
{
}

/// The keys that end the overlay.
pub open spec fn key_finish(ks: u32, ctrl: bool) -> Option<Finish> {
    if ks == KS_ESCAPE {
        Some(Finish::Cancel)
    } else if ks == KS_RETURN || ks == KS_KP_ENTER {
        Some(Finish::Export { force_copy: false })
    } else if ctrl && ks == KS_C_LOWER {
        Some(Finish::Export { force_copy: true })
    } else {
        None
    }
}

/// What a key does to the canvas: Ctrl+Z undoes, Ctrl+Y redoes, the digits
/// 1 to 8 arm the first eight tools of the strip; other keys leave it alone.
pub open spec fn key_effect<G>(m: CanvasModel<G>, ks: u32, ctrl: bool) -> CanvasModel<G> {
    if key_finish(ks, ctrl) is Some {
        m
    } else if ctrl {
        if ks == KS_Z_LOWER {
            m.undone()
        } else if ks == KS_Y_LOWER {
            m.redone()
        } else {
            m
        }
    } else if KS_1 <= ks <= KS_8 {
        CanvasModel { tool: Some(tool_strip()[ks - KS_1]), ..m }
    } else {
        m
    }
}

/// The overlay's keys, whatever the canvas holds: Esc cancels and Enter
/// (main or keypad) saves, with or without Ctrl; Ctrl+C saves and copies;
/// none of these touch the canvas. The digits 1 to 8 without Ctrl arm the
/// tool at that place of the strip and change nothing else.
pub proof fn lemma_overlay_keys<G>(m: CanvasModel<G>, ctrl: bool, d: u32)
    requires
        1 <= d <= 8,
    ensures
        key_finish(KS_ESCAPE, ctrl) == Some(Finish::Cancel),
        key_effect(m, KS_ESCAPE, ctrl) == m,
        key_finish(KS_RETURN, ctrl) == Some(Finish::Export { force_copy: false }),
        key_finish(KS_KP_ENTER, ctrl) == Some(Finish::Export { force_copy: false }),
        key_effect(m, KS_RETURN, ctrl) == m,
        key_finish(KS_C_LOWER, true) == Some(Finish::Export { force_copy: true }),
        key_effect(m, KS_C_LOWER, true) == m,
        key_finish((KS_1 + d - 1) as u32, false) is None,
        key_effect(m, (KS_1 + d - 1) as u32, false) == (CanvasModel {
            tool: Some(tool_strip()[d - 1]),
            ..m
        }),
{
}

pub fn handle_key<G>(canvas: &mut Canvas<G>, ks: u32, ctrl: bool) -> (r: Option<Finish>)
    requires
        ctrl && ks == KS_Y_LOWER ==> old(canvas)@.can_redo(),
    ensures
        r == key_finish(ks, ctrl),
        final(canvas)@ == key_effect(old(canvas)@, ks, ctrl),
{
    if ks == KS_ESCAPE {
        return Some(Finish::Cancel);
    }
    if ks == KS_RETURN || ks == KS_KP_ENTER {
        return Some(Finish::Export { force_copy: false });
    }
    if ctrl {
        if ks == KS_C_LOWER {
            return Some(Finish::Export { force_copy: true });
        } else if ks == KS_Z_LOWER {
            canvas.undo();
        } else if ks == KS_Y_LOWER {
            canvas.redo();
        }
        return None;
    }
    if KS_1 <= ks && ks <= KS_8 {
        let idx = (ks - KS_1) as usize;
        let tools = ToolKind::all();
        canvas.set_tool(Some(tools[idx]));
    }
    None
}

/// Where the pointer is relative to the selection frame, as the caller's
/// hit-test found it.
#[derive(Debug, Clone, Copy, PartialEq, Eq, Structural)]
pub struct SelectionProbe {
    /// The grab handle under the pointer, if any (corners before edges).
    pub handle: Option<Handle>,
    /// The pointer is inside the frame.
    pub inside: bool,
}

/// The outcome of a button press.
#[derive(Debug, Clone, Copy, PartialEq, Eq, Structural)]
pub enum Press {
    /// On a strip button: wait for the release to click it.
    StripButton(Hit),
    /// In the strip between buttons: the press is eaten.
    Swallow,
    /// Start dragging out a new region (the old one is dropped).
    StartRegion,
    /// Grab a handle and resize the frame.
    Resize(Handle),
    /// Drag the frame.
    Move,
    /// Drop the next numbered counter bubble at the pointer.
    PlaceCounter,
    /// Start a draft of this tool at the pointer.
    StartDraft(ToolKind),
    /// Nothing happens.
    Ignore,
}

/// The decision of a press. `strip` is `None` when there is no selection or
/// the pointer is outside the tool strip, else the strip button under it.
pub open spec fn press_outcome(
    strip: Option<Option<Hit>>,
    mode: Mode,
    sel: Option<SelectionProbe>,
    tool: Option<ToolKind>,
    ctrl: bool,
) -> Press {
    match strip {
        Some(Some(h)) => Press::StripButton(h),
        Some(None) => Press::Swallow,
        None => match mode {
            Mode::SelectingRegion => Press::StartRegion,
            Mode::Annotating => match sel {
                None => Press::Ignore,
                Some(p) => match p.handle {
                    Some(h) => Press::Resize(h),
                    None => if !p.inside {
                        Press::Ignore
                    } else {
                        match tool {
                            None => Press::Move,
                            Some(t) => if ctrl {
                                Press::Move
                            } else if t == ToolKind::Counter {
                                Press::PlaceCounter
                            } else {
                                Press::StartDraft(t)
                            },
                        }
                    },
                },
            },
        },
    }
}

pub fn press(
    strip: Option<Option<Hit>>,
    mode: Mode,
    sel: Option<SelectionProbe>,
    tool: Option<ToolKind>,
    ctrl: bool,
) -> (r: Press)
    ensures
        r == press_outcome(strip, mode, sel, tool, ctrl),
{
    if let Some(on_strip) = strip {
        return match on_strip {
            Some(h) => Press::StripButton(h),
            None => Press::Swallow,
        };
    }
    match mode {
        Mode::SelectingRegion => Press::StartRegion,
        Mode::Annotating => {
            let p = match sel {
                Some(p) => p,
                None => return Press::Ignore,
            };
            if let Some(h) = p.handle {
                return Press::Resize(h);
            }
            if !p.inside {
                return Press::Ignore;
            }
            match tool {
                None => Press::Move,
                Some(t) => {
                    if ctrl {
                        Press::Move
                    } else if t == ToolKind::Counter {
                        Press::PlaceCounter
                    } else {
                        Press::StartDraft(t)
                    }
                },
            }
        },
    }
}

/// The drag a press starts.
pub open spec fn press_drag(p: Press) -> Dragging {
    match p {
        Press::StripButton(h) => Dragging::Strip(h),
        Press::StartRegion => Dragging::Region,
        Press::Resize(_) => Dragging::EditResize,
        Press::Move => Dragging::EditMove,
        Press::StartDraft(_) => Dragging::Draft,
        _ => Dragging::Idle,
    }
}

pub fn drag_after(p: Press) -> (d: Dragging)
    ensures
        d == press_drag(p),
{
    match p {
        Press::StripButton(h) => Dragging::Strip(h),
        Press::StartRegion => Dragging::Region,
        Press::Resize(_) => Dragging::EditResize,
        Press::Move => Dragging::EditMove,
        Press::StartDraft(_) => Dragging::Draft,
        _ => Dragging::Idle,
    }
}

/// A press never starts a drawing draft while Ctrl is held or no tool is
/// armed: inside the frame such a press moves the frame instead.
pub proof fn lemma_ctrl_or_unarmed_moves(
    sel: SelectionProbe,
    tool: Option<ToolKind>,
    ctrl: bool,
)
    requires
        sel.handle is None,
        sel.inside,
        ctrl || tool is None,
    ensures
        press_outcome(None, Mode::Annotating, Some(sel), tool, ctrl) == Press::Move,
{
}

/// The counter bubble the counter tool drops: the next number, committed as
/// a new annotation with the caller's geometry.
pub fn place_counter<G>(canvas: &mut Canvas<G>, shape: G) -> (n: u32)
    requires
        old(canvas)@.counter < u32::MAX,
    ensures
        n == old(canvas)@.counter + 1,
        final(canvas)@ == (CanvasModel { counter: n as nat, ..old(canvas)@ }).pushed(
            Annotation { kind: AnnotationKind::Counter { number: n }, shape },
        ),
{
    let n = canvas.next_counter();
    canvas.push(Annotation { kind: AnnotationKind::Counter { number: n }, shape });
    n
}

/// What a button release finishes.
#[derive(Debug, Clone, Copy, PartialEq, Eq, Structural)]
pub enum Release {
    /// Keep the dragged region if it is large enough, else drop it.
    SettleRegion,
    /// Commit the draft, if it finalises to an annotation.
    CommitDraft,
    /// Stop editing the frame.
    EndEdit,
    /// The strip button was clicked.
    Click(Hit),
    /// Nothing to do.
    Nothing,
}

/// The decision of a release: a strip button counts as clicked only when the
/// pointer barely moved (`was_click`) and is still on the same button
/// (`hit_now`).
pub open spec fn release_outcome(d: Dragging, was_click: bool, hit_now: Option<Hit>) -> Release {
    match d {
        Dragging::Region => Release::SettleRegion,
        Dragging::Draft => Release::CommitDraft,
        Dragging::EditResize => Release::EndEdit,
        Dragging::EditMove => Release::EndEdit,
        Dragging::Strip(h) => if was_click && hit_now == Some(h) {
            Release::Click(h)
        } else {
            Release::Nothing
        },
        Dragging::Idle => Release::Nothing,
    }
}

pub fn release(d: Dragging, was_click: bool, hit_now: Option<Hit>) -> (r: Release)
    ensures
        r == release_outcome(d, was_click, hit_now),
{
    match d {
        Dragging::Region => Release::SettleRegion,
        Dragging::Draft => Release::CommitDraft,
        Dragging::EditResize => Release::EndEdit,
        Dragging::EditMove => Release::EndEdit,
        Dragging::Strip(h) => {
            let same = match hit_now {
                Some(x) => x == h,
                None => false,
            };
            if was_click && same {
                Release::Click(h)
            } else {
                Release::Nothing
            }
        },
        Dragging::Idle => Release::Nothing,
    }
}

/// The cursor glyph for the pointer: the handle's resize glyph while resizing
/// or over a handle, the move glyph while moving (or over the frame with Ctrl
/// held), a hand over the strip, a crosshair inside the frame or with no
/// frame, and the plain arrow outside it.
pub open spec fn cursor_for(
    dragging: Dragging,
    edit: SelectionEdit,
    strip_hover: bool,
    sel: Option<SelectionProbe>,
    ctrl: bool,
) -> u16 {
    if dragging == Dragging::EditResize && edit is Resizing {
        handle_glyph(edit->Resizing_0)
    } else if dragging == Dragging::EditMove {
        XC_FLEUR
    } else if strip_hover {
        XC_HAND1
    } else {
        match sel {
            None => XC_CROSSHAIR,
            Some(p) => match p.handle {
                Some(h) => handle_glyph(h),
                None => if !p.inside {
                    XC_LEFT_PTR
                } else if ctrl {
                    XC_FLEUR
                } else {
                    XC_CROSSHAIR
                },
            },
        }
    }
}

pub fn pick_cursor(
    dragging: Dragging,
    edit: SelectionEdit,
    strip_hover: bool,
    sel: Option<SelectionProbe>,
    ctrl: bool,
) -> (g: u16)
    ensures
        g == cursor_for(dragging, edit, strip_hover, sel, ctrl),
{
    if let Dragging::EditResize = dragging {
        if let SelectionEdit::Resizing(h) = edit {
            return cursor_glyph_for_handle(h);
        }
    }
    if let Dragging::EditMove = dragging {
        return XC_FLEUR;
    }
    if strip_hover {
        return XC_HAND1;
    }
    match sel {
        None => XC_CROSSHAIR,
        Some(p) => match p.handle {
            Some(h) => cursor_glyph_for_handle(h),
            None => {
                if !p.inside {
                    XC_LEFT_PTR
                } else if ctrl {
                    XC_FLEUR
                } else {
                    XC_CROSSHAIR
                }
            },
        },
    }
}

/// Pointer shapes of the cursor-shape protocol that the glyphs map to.
#[derive(Debug, Clone, Copy, PartialEq, Eq, Structural)]
pub enum CursorShape {
    Default,
    Crosshair,
    Move,
    Pointer,
    NsResize,
    EwResize,
    NeswResize,
    NwseResize,
    WResize,
}

/// The shape for a glyph: the top and bottom edges resize vertically, the
/// right edge horizontally, the left edge leftwards, the corners diagonally;
/// glyphs the overlay does not use show the default arrow.

pub open spec fn shape_of(glyph: u16) -> CursorShape {
    if glyph == XC_CROSSHAIR {
        CursorShape::Crosshair
    } else if glyph == XC_FLEUR {
        CursorShape::Move
    } else if glyph == XC_HAND1 {
        CursorShape::Pointer
    } else if glyph == 138 || glyph == 16 {
        CursorShape::NsResize
    } else if glyph == 96 {
        CursorShape::EwResize
    } else if glyph == 136 || glyph == 12 {
        CursorShape::NeswResize
    } else if glyph == 134 || glyph == 14 {
        CursorShape::NwseResize
    } else if glyph == 70 {
        CursorShape::WResize
    } else {
        CursorShape::Default
    }
}

/// The protocol shape shown for a cursor-font glyph; unknown glyphs show the
/// default arrow.
pub fn cursor_shape(glyph: u16) -> (s: CursorShape)
    ensures
        s == shape_of(glyph),
{
    if glyph == XC_CROSSHAIR {
        CursorShape::Crosshair
    } else if glyph == XC_FLEUR {
        CursorShape::Move
    } else if glyph == XC_HAND1 {
        CursorShape::Pointer
    } else if glyph == 138 || glyph == 16 {
        CursorShape::NsResize
    } else if glyph == 96 {
        CursorShape::EwResize
    } else if glyph == 136 || glyph == 12 {
        CursorShape::NeswResize
    } else if glyph == 134 || glyph == 14 {
        CursorShape::NwseResize
    } else if glyph == 70 {
        CursorShape::WResize
    } else {
        CursorShape::Default
    }
}

/// Every grab handle shows a resize shape along its own axis, never the
/// default arrow: top and bottom vertical, right and left horizontal,
/// north-east and south-west on one diagonal, north-west and south-east on
/// the other.
pub proof fn lemma_handle_shapes(h: Handle)
    ensures
        shape_of(handle_glyph(h)) == match h {
            Handle::N | Handle::S => CursorShape::NsResize,
            Handle::E => CursorShape::EwResize,
            Handle::W => CursorShape::WResize,
            Handle::NE | Handle::SW => CursorShape::NeswResize,
            Handle::NW | Handle::SE => CursorShape::NwseResize,
        },
{
}

/// The annotation a finished draft of `tool` commits, `None` for the counter
/// tool, which places on click and has no draft.
pub open spec fn draft_kind_of(tool: ToolKind, block: u32) -> Option<AnnotationKind> {
    match tool {
        ToolKind::Pencil => Some(AnnotationKind::Pencil),
        ToolKind::Highlighter => Some(AnnotationKind::Pencil),
        ToolKind::Line => Some(AnnotationKind::Line),
        ToolKind::Arrow => Some(AnnotationKind::Arrow),
        ToolKind::Rect => Some(AnnotationKind::Rect),
        ToolKind::Ellipse => Some(AnnotationKind::Ellipse),
        ToolKind::Pixelate => Some(AnnotationKind::Pixelate { block }),
        ToolKind::Counter => None,
        ToolKind::Spotlight => Some(AnnotationKind::Spotlight),
        ToolKind::Widget(k) => Some(AnnotationKind::Widget(k)),
    }
}

pub fn draft_kind(tool: ToolKind, block: u32) -> (r: Option<AnnotationKind>)
    ensures
        r == draft_kind_of(tool, block),
{
    match tool {
        ToolKind::Pencil => Some(AnnotationKind::Pencil),
        ToolKind::Highlighter => Some(AnnotationKind::Pencil),
        ToolKind::Line => Some(AnnotationKind::Line),
        ToolKind::Arrow => Some(AnnotationKind::Arrow),
        ToolKind::Rect => Some(AnnotationKind::Rect),
        ToolKind::Ellipse => Some(AnnotationKind::Ellipse),
        ToolKind::Pixelate => Some(AnnotationKind::Pixelate { block }),
        ToolKind::Counter => None,
        ToolKind::Spotlight => Some(AnnotationKind::Spotlight),
        ToolKind::Widget(k) => Some(AnnotationKind::Widget(k)),
    }
}

/// A draft never commits a counter: counters only come from clicks, so the
/// live counter stays in step with the bubbles on the canvas.
pub proof fn lemma_drafts_are_not_counters(tool: ToolKind, block: u32)
    ensures
        draft_kind_of(tool, block) matches Some(k) ==> !(k is Counter),
{
}

/// Each drawing tool commits the annotation of its own name, whatever the
/// configured pixelate block: the highlighter commits a pencil stroke, the
/// pixelate tool a pixelate of exactly that block, a widget tool the widget
/// of the same kind, and the counter tool no draft at all.
pub proof fn lemma_tools_commit_their_own_kind(block: u32, w: crate::canvas::WidgetKind)
    ensures
        draft_kind_of(ToolKind::Pencil, block) == Some(AnnotationKind::Pencil),
        draft_kind_of(ToolKind::Highlighter, block) == Some(AnnotationKind::Pencil),
        draft_kind_of(ToolKind::Line, block) == Some(AnnotationKind::Line),
        draft_kind_of(ToolKind::Arrow, block) == Some(AnnotationKind::Arrow),
        draft_kind_of(ToolKind::Rect, block) == Some(AnnotationKind::Rect),
        draft_kind_of(ToolKind::Ellipse, block) == Some(AnnotationKind::Ellipse),
        draft_kind_of(ToolKind::Pixelate, block) == Some(AnnotationKind::Pixelate { block }),
        draft_kind_of(ToolKind::Counter, block) is None,
        draft_kind_of(ToolKind::Spotlight, block) == Some(AnnotationKind::Spotlight),
        draft_kind_of(ToolKind::Widget(w), block) == Some(AnnotationKind::Widget(w)),
{
}

/// Different tools commit different annotations (the highlighter draws
/// with the pencil's annotation), and only the pixelate tool's annotation
/// depends on the block size.
pub proof fn lemma_tool_kinds_distinct(t1: ToolKind, t2: ToolKind, b1: u32, b2: u32)
    requires
        t1 != t2,
        !(t1 is Pencil && t2 is Highlighter),
        !(t1 is Highlighter && t2 is Pencil),
        draft_kind_of(t1, b1) is Some,
    ensures
        draft_kind_of(t1, b1) != draft_kind_of(t2, b2),
        !(t1 is Pixelate) ==> draft_kind_of(t1, b1) == draft_kind_of(t1, b2),
{
}

/// Fingerprint of one committed pixelate: the bit patterns of its rect and
/// its block size.
pub type PixelateKey = (u32, u32, u32, u32, u32);

/// How the image with the committed pixelates baked in is brought up to date.
#[derive(Debug, Clone, Copy, PartialEq, Eq, Structural)]
pub enum BaseRefresh {
    /// The baked pixelates are the committed ones.
    Unchanged,
    /// Exactly one pixelate was committed after the baked ones: pixelate it
    /// into the current image.
    AppendLast,
    /// Anything else (undo, redo of an older one): rebuild from the captured
    /// image.
    Rebuild,
}

pub open spec fn base_refresh_of(baked: Seq<PixelateKey>, current: Seq<PixelateKey>) -> BaseRefresh {
    if current == baked {
        BaseRefresh::Unchanged
    } else if current.len() == baked.len() + 1 && current.subrange(0, baked.len() as int) == baked {
        BaseRefresh::AppendLast
    } else {
        BaseRefresh::Rebuild
    }
}

fn key_eq(a: PixelateKey, b: PixelateKey) -> (r: bool)
    ensures
        r <==> a == b,
{
    a.0 == b.0 && a.1 == b.1 && a.2 == b.2 && a.3 == b.3 && a.4 == b.4
}

/// `a` is a prefix of `b`.
fn is_prefix(a: &Vec<PixelateKey>, b: &Vec<PixelateKey>) -> (r: bool)
    ensures
        r <==> (a@.len() <= b@.len() && b@.subrange(0, a@.len() as int) == a@),
{
    if a.len() > b.len() {
        return false;
    }
    let mut i: usize = 0;
    while i < a.len()
        invariant
            a@.len() <= b@.len(),
            0 <= i <= a@.len(),
            forall|j: int| 0 <= j < i ==> a@[j] == b@[j],
        decreases a@.len() - i,
    {
        if !key_eq(a[i], b[i]) {
            assert(b@.subrange(0, a@.len() as int)[i as int] != a@[i as int]);
            return false;
        }
        i += 1;
    }
    assert(b@.subrange(0, a@.len() as int) =~= a@);
    true
}

pub fn base_refresh(baked: &Vec<PixelateKey>, current: &Vec<PixelateKey>) -> (r: BaseRefresh)
    ensures
        r == base_refresh_of(baked@, current@),
{
    let same_len = baked.len() == current.len();
    if same_len && is_prefix(baked, current) {
        assert(current@ =~= current@.subrange(0, baked@.len() as int));
        return BaseRefresh::Unchanged;
    }
    if baked.len() < current.len() && current.len() - baked.len() == 1 && is_prefix(
        baked,
        current,
    ) {
        return BaseRefresh::AppendLast;
    }
    assert(current@ != baked@) by {
        if current@ == baked@ {
            assert(current@ =~= current@.subrange(0, baked@.len() as int));
        }
    }
    BaseRefresh::Rebuild
}

/// Once the base is refreshed to the committed pixelates, refreshing again
/// without new commits changes nothing; an append keeps every baked key in
/// place and adds only the newest one.
pub proof fn lemma_base_refresh_settles(baked: Seq<PixelateKey>, current: Seq<PixelateKey>)
    ensures
        base_refresh_of(current, current) == BaseRefresh::Unchanged,
        base_refresh_of(baked, current) == BaseRefresh::AppendLast ==> current == baked.push(
            current.last(),
        ),
{
    if base_refresh_of(baked, current) == BaseRefresh::AppendLast {
        assert(current =~= baked.push(current.last()));
    }
}

/// The baked image is left alone exactly when it already holds the
/// committed pixelates: any difference (an undo, a redo of an older one, a
/// different pixelate) is acted on. It is only patched in place when the
/// committed pixelates are the baked ones plus one more at the end;
/// everything else rebuilds from the captured image.
pub proof fn lemma_base_refresh_plan(baked: Seq<PixelateKey>, current: Seq<PixelateKey>)
    ensures
        base_refresh_of(baked, current) == BaseRefresh::Unchanged <==> current == baked,
        base_refresh_of(baked, current) == BaseRefresh::AppendLast <==> (current.len() > 0
            && current == baked.push(current.last())),
        base_refresh_of(baked, current) == BaseRefresh::Rebuild <==> (current != baked && !(
        current.len() > 0 && current == baked.push(current.last()))),
        current.len() < baked.len() ==> base_refresh_of(baked, current) == BaseRefresh::Rebuild,
{
    if current.len() > 0 && current == baked.push(current.last()) {
        assert(current.subrange(0, baked.len() as int) =~= baked);
    }
    if current.len() == baked.len() + 1 && current.subrange(0, baked.len() as int) == baked {
        assert(current =~= baked.push(current.last()));
    }
}

/// Without Ctrl, the digit keys arm the tools in the order the strip shows
/// them: 1 pencil, 2 highlighter, 3 line, 4 arrow, 5 rectangle, 6 ellipse,
/// 7 pixelate, 8 counter; nothing else on the canvas changes.
pub proof fn lemma_digit_keys_arm_named_tools<G>(m: CanvasModel<G>)
    ensures
        key_effect(m, KS_1, false) == (CanvasModel { tool: Some(ToolKind::Pencil), ..m }),
        key_effect(m, (KS_1 + 1) as u32, false) == (CanvasModel {
            tool: Some(ToolKind::Highlighter),
            ..m
        }),
        key_effect(m, (KS_1 + 2) as u32, false) == (CanvasModel { tool: Some(ToolKind::Line), ..m }),
        key_effect(m, (KS_1 + 3) as u32, false) == (CanvasModel {
            tool: Some(ToolKind::Arrow),
            ..m
        }),
        key_effect(m, (KS_1 + 4) as u32, false) == (CanvasModel { tool: Some(ToolKind::Rect), ..m }),
        key_effect(m, (KS_1 + 5) as u32, false) == (CanvasModel {
            tool: Some(ToolKind::Ellipse),
            ..m
        }),
        key_effect(m, (KS_1 + 6) as u32, false) == (CanvasModel {
            tool: Some(ToolKind::Pixelate),
            ..m
        }),
        key_effect(m, KS_8, false) == (CanvasModel { tool: Some(ToolKind::Counter), ..m }),
{
    crate::canvas::lemma_tool_strip_order();
}

/// The pointer is inside the frame and not on a grab handle.
pub open spec fn in_frame_body(sel: Option<SelectionProbe>) -> bool {
    match sel {
        Some(q) => q.handle is None && q.inside,
        None => false,
    }
}

/// There is a frame, and the pointer is outside it and not on a handle.
pub open spec fn outside_frame(sel: Option<SelectionProbe>) -> bool {
    match sel {
        Some(q) => q.handle is None && !q.inside,
        None => false,
    }
}

/// A press on the strip goes to the strip, whatever else holds. Elsewhere,
/// while a region is being selected a press starts a new region; while
/// annotating, a grab handle is resized before anything else, a press
/// outside the frame does nothing, and inside the frame the armed tool acts
/// (the counter tool drops a bubble, any other tool starts a draft of
/// itself) unless Ctrl is held or no tool is armed, which moves the frame.
pub proof fn lemma_press_decisions(
    strip: Option<Option<Hit>>,
    mode: Mode,
    sel: Option<SelectionProbe>,
    tool: Option<ToolKind>,
    ctrl: bool,
)
    ensures
        ({
            let p = press_outcome(strip, mode, sel, tool, ctrl);
            &&& (strip matches Some(Some(h)) ==> p == Press::StripButton(h))
            &&& (strip == Some(None::<Hit>) ==> p == Press::Swallow)
            &&& (strip is None && mode == Mode::SelectingRegion ==> p == Press::StartRegion)
            &&& (strip is None && mode == Mode::Annotating && sel is None ==> p == Press::Ignore)
            &&& (sel matches Some(q) ==> (q.handle matches Some(h) ==> (strip is None && mode
                == Mode::Annotating ==> p == Press::Resize(h))))
            &&& (p matches Press::StartDraft(t) ==> (strip is None && mode == Mode::Annotating
                && tool == Some(t) && !ctrl && t != ToolKind::Counter && in_frame_body(sel)))
            &&& (p == Press::PlaceCounter <==> (strip is None && mode == Mode::Annotating
                && tool == Some(ToolKind::Counter) && !ctrl && in_frame_body(sel)))
            &&& (tool matches Some(t) ==> (strip is None && mode == Mode::Annotating && !ctrl
                && t != ToolKind::Counter && in_frame_body(sel) ==> p == Press::StartDraft(t)))
            &&& (p == Press::Move ==> (tool is None || ctrl))
        }),
{
}

/// A press on a strip button followed by a release that barely moved, on
/// the same button, clicks that button; a release only ever clicks the
/// button that was pressed and is still under the pointer. A draft started
/// by a press is committed on release, a dragged region is settled, and a
/// frame edit ends.
pub proof fn lemma_press_then_release(
    h: Hit,
    d: Dragging,
    was_click: bool,
    hit_now: Option<Hit>,
    mode: Mode,
    sel: Option<SelectionProbe>,
    tool: Option<ToolKind>,
    ctrl: bool,
)
    ensures
        release_outcome(
            press_drag(press_outcome(Some(Some(h)), mode, sel, tool, ctrl)),
            true,
            Some(h),
        ) == Release::Click(h),
        release_outcome(d, was_click, hit_now) matches Release::Click(c) ==> (d == Dragging::Strip(
            c,
        ) && was_click && hit_now == Some(c)),
        press_outcome(None, mode, sel, tool, ctrl) matches Press::StartDraft(_)
            ==> release_outcome(press_drag(press_outcome(None, mode, sel, tool, ctrl)), was_click, hit_now)
            == Release::CommitDraft,
        press_outcome(None, Mode::SelectingRegion, sel, tool, ctrl) == Press::StartRegion,
        release_outcome(press_drag(Press::StartRegion), was_click, hit_now) == Release::SettleRegion,
        release_outcome(press_drag(Press::Move), was_click, hit_now) == Release::EndEdit,
        release_outcome(Dragging::Idle, was_click, hit_now) == Release::Nothing,
{
}

/// While the frame is being resized the cursor shows that handle's resize
/// glyph, and while it is moved the move glyph, whatever is under the
/// pointer. Otherwise the strip shows the hand, a handle its resize glyph,
/// and the plain arrow shows exactly outside the frame.
pub proof fn lemma_cursor_choice(
    dragging: Dragging,
    edit: SelectionEdit,
    strip_hover: bool,
    sel: Option<SelectionProbe>,
    ctrl: bool,
    h: Handle,
)
    ensures
        cursor_for(Dragging::EditResize, SelectionEdit::Resizing(h), strip_hover, sel, ctrl)
            == handle_glyph(h),
        cursor_for(Dragging::EditMove, edit, strip_hover, sel, ctrl) == XC_FLEUR,
        dragging != Dragging::EditResize && dragging != Dragging::EditMove ==> {
            let g = cursor_for(dragging, edit, strip_hover, sel, ctrl);
            &&& (strip_hover ==> g == XC_HAND1)
            &&& (!strip_hover && sel is None ==> g == XC_CROSSHAIR)
            &&& (!strip_hover ==> (sel matches Some(q) ==> (q.handle matches Some(k) ==> g
                == handle_glyph(k))))
            &&& (g == XC_LEFT_PTR <==> (!strip_hover && outside_frame(sel)))
            &&& (!strip_hover ==> (sel matches Some(q) ==> (q.handle is None && q.inside ==> g
                == if ctrl {
                XC_FLEUR
            } else {
                XC_CROSSHAIR
            })))
        },
{
    lemma_handle_glyphs_distinct(h, h);
    if let Some(q) = sel {
        if let Some(k) = q.handle {
            lemma_handle_glyphs_distinct(k, k);
        }
    }
}

} // verus!
