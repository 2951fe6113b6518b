//! Drawing tools, annotation kinds and the undo/redo canvas.
//!
//! Annotation geometry is held by the caller's payload type `G`; the canvas
//! only needs the discrete kind of each annotation (whether it is a numbered
//! counter) to keep its live counter in step with undo and redo.

use vstd::prelude::*;

verus! {

/// Drag-to-size UI mock kinds.
#[derive(Debug, Clone, Copy, PartialEq, Eq, Hash, Structural)]
pub enum WidgetKind {
    Button,
    Input,
    ImageX,
    Checkbox,
    Toggle,
    Measure,
}

impl WidgetKind {
    pub const ALL: [WidgetKind; 6] = [
        WidgetKind::Button,
        WidgetKind::Input,
        WidgetKind::ImageX,
        WidgetKind::Checkbox,
        WidgetKind::Toggle,
        WidgetKind::Measure,
    ];
}

/// Annotation tools, in tool-strip order.
#[derive(Debug, Clone, Copy, PartialEq, Eq, Hash, Structural)]
pub enum ToolKind {
    Pencil,
    Highlighter,
    Line,
    Arrow,
    Rect,
    Ellipse,
    Pixelate,
    Counter,
    Spotlight,
    Widget(WidgetKind),
}

impl ToolKind {
    /// Every tool, in tool-strip order: the nine drawing tools, then one
    /// widget tool per entry of `WidgetKind::ALL`.
    pub fn all() -> (r: [ToolKind; 15])
        ensures
            r@ == tool_strip(),
    {
        let r = [
            ToolKind::Pencil,
            ToolKind::Highlighter,
            ToolKind::Line,
            ToolKind::Arrow,
            ToolKind::Rect,
            ToolKind::Ellipse,
            ToolKind::Pixelate,
            ToolKind::Counter,
            ToolKind::Spotlight,
            ToolKind::Widget(WidgetKind::Button),
            ToolKind::Widget(WidgetKind::Input),
            ToolKind::Widget(WidgetKind::ImageX),
            ToolKind::Widget(WidgetKind::Checkbox),
            ToolKind::Widget(WidgetKind::Toggle),
            ToolKind::Widget(WidgetKind::Measure),
        ];
        assert(r@ =~= tool_strip());
        r
    }

    /// Drag-to-size widget stamp, if any.
    pub fn widget_kind(self) -> (r: Option<WidgetKind>)
        ensures
            r is Some <==> self is Widget,
            r matches Some(k) ==> self == ToolKind::Widget(k),
    {
        match self {
            ToolKind::Widget(k) => Some(k),
            _ => None,
        }
    }
}

/// The tool strip: drawing tools first, then the widget tools in the order of
/// `WidgetKind::ALL`.
pub open spec fn tool_strip() -> Seq<ToolKind> {
    seq![
        ToolKind::Pencil,
        ToolKind::Highlighter,
        ToolKind::Line,
        ToolKind::Arrow,
        ToolKind::Rect,
        ToolKind::Ellipse,
        ToolKind::Pixelate,
        ToolKind::Counter,
        ToolKind::Spotlight,
    ] + WidgetKind::ALL@.map_values(|k: WidgetKind| ToolKind::Widget(k))
}

/// The strip holds fifteen tools, each once: pencil, highlighter, line,
/// arrow, rectangle, ellipse, pixelate, counter and spotlight, then the
/// button, input, image, checkbox, toggle and measure widgets.
pub proof fn lemma_tool_strip_order()
    ensures
        tool_strip().len() == 15,
        tool_strip()[0] == ToolKind::Pencil,
        tool_strip()[1] == ToolKind::Highlighter,
        tool_strip()[2] == ToolKind::Line,
        tool_strip()[3] == ToolKind::Arrow,
        tool_strip()[4] == ToolKind::Rect,
        tool_strip()[5] == ToolKind::Ellipse,
        tool_strip()[6] == ToolKind::Pixelate,
        tool_strip()[7] == ToolKind::Counter,
        tool_strip()[8] == ToolKind::Spotlight,
        tool_strip()[9] == ToolKind::Widget(WidgetKind::Button),
        tool_strip()[10] == ToolKind::Widget(WidgetKind::Input),
        tool_strip()[11] == ToolKind::Widget(WidgetKind::ImageX),
        tool_strip()[12] == ToolKind::Widget(WidgetKind::Checkbox),
        tool_strip()[13] == ToolKind::Widget(WidgetKind::Toggle),
        tool_strip()[14] == ToolKind::Widget(WidgetKind::Measure),
        forall|i: int, j: int| 0 <= i < j < 15 ==> tool_strip()[i] != tool_strip()[j],
{
    assert(WidgetKind::ALL@.map_values(|k: WidgetKind| ToolKind::Widget(k))[5] == ToolKind::Widget(
        WidgetKind::Measure,
    ));
}

/// The discrete part of a committed annotation. Geometry and colour live in
/// the payload of [`Annotation`].
#[derive(Debug, Clone, Copy, PartialEq, Eq, Structural)]
pub enum AnnotationKind {
    Pencil,
    Line,
    Arrow,
    Rect,
    Ellipse,
    Pixelate { block: u32 },
    /// Axis-aligned rect that stays at full brightness; the rest of the crop
    /// is dimmed.
    Spotlight,
    /// Numbered bubble.
    Counter { number: u32 },
    Widget(WidgetKind),
}

/// A committed annotation: its kind plus the caller's geometry payload.
#[derive(Debug, Clone)]
pub struct Annotation<G> {
    pub kind: AnnotationKind,
    pub shape: G,
}

impl<G> Annotation<G> {
    pub open spec fn is_counter(self) -> bool {
        self.kind is Counter
    }
}

/// Mathematical state of a [`Canvas`].
#[verifier::ext_equal]
pub struct CanvasModel<G> {
    pub annotations: Seq<Annotation<G>>,
    pub redo: Seq<Annotation<G>>,
    pub tool: Option<ToolKind>,
    pub counter: nat,
}

impl<G> CanvasModel<G> {
    /// Commit an annotation: it goes on top and the redo stack is forgotten.
    pub open spec fn pushed(self, a: Annotation<G>) -> CanvasModel<G> {
        CanvasModel { annotations: self.annotations.push(a), redo: Seq::empty(), ..self }
    }

    /// Move the newest annotation to the redo stack; undoing a counter gives
    /// its number back (never below zero).
    pub open spec fn undone(self) -> CanvasModel<G> {
        if self.annotations.len() == 0 {
            self
        } else {
            let top = self.annotations.last();
            CanvasModel {
                annotations: self.annotations.drop_last(),
                redo: self.redo.push(top),
                tool: self.tool,
                counter: if top.is_counter() {
                    if self.counter == 0 {
                        0
                    } else {
                        (self.counter - 1) as nat
                    }
                } else {
                    self.counter
                },
            }
        }
    }

    /// Move the newest undone annotation back; redoing a counter takes a
    /// number again.
    pub open spec fn redone(self) -> CanvasModel<G> {
        if self.redo.len() == 0 {
            self
        } else {
            let top = self.redo.last();
            CanvasModel {
                annotations: self.annotations.push(top),
                redo: self.redo.drop_last(),
                tool: self.tool,
                counter: if top.is_counter() {
                    self.counter + 1
                } else {
                    self.counter
                },
            }
        }
    }

    /// A redo would not overflow the live counter.
    pub open spec fn can_redo(self) -> bool {
        self.redo.len() > 0 && self.redo.last().is_counter() ==> self.counter < u32::MAX
    }
}

/// Committed annotations, the redo stack, the armed tool and the live counter
/// that numbers the next counter bubble.
#[derive(Debug)]
pub struct Canvas<G> {
    pub annotations: Vec<Annotation<G>>,
    pub redo: Vec<Annotation<G>>,
    /// `None` means no drawing tool is armed — inside-drag of the selection
    /// rectangle moves it instead of starting an annotation.
    pub tool: Option<ToolKind>,
    counter: u32,
}

impl<G> View for Canvas<G> {
    type V = CanvasModel<G>;

    closed spec fn view(&self) -> CanvasModel<G> {
        CanvasModel {
            annotations: self.annotations@,
            redo: self.redo@,
            tool: self.tool,
            counter: self.counter as nat,
        }
    }
}

impl<G> Canvas<G> {
    /// An empty canvas with no tool armed.
    pub fn new() -> (c: Canvas<G>)
        ensures
            c@.annotations.len() == 0,
            c@.redo.len() == 0,
            c@.tool is None,
            c@.counter == 0,
    {
        Canvas { annotations: Vec::new(), redo: Vec::new(), tool: None, counter: 0 }
    }

    /// The committed annotations, oldest first (the `annotations` field).
    pub fn annotations(&self) -> (r: &Vec<Annotation<G>>)
        ensures
            r@ == self@.annotations,
    {
        &self.annotations
    }

    /// The undone annotations, the next to redo last (the `redo` field).
    pub fn redo_stack(&self) -> (r: &Vec<Annotation<G>>)
        ensures
            r@ == self@.redo,
    {
        &self.redo
    }

    /// The live counter: the number of the last counter bubble handed out.
    pub fn counter(&self) -> (n: u32)
        ensures
            n == self@.counter,
    {
        self.counter
    }

    pub fn push(&mut self, a: Annotation<G>)
        ensures
            final(self)@ == old(self)@.pushed(a),
    {
        self.annotations.push(a);
        self.redo.clear();
        assert(self@ =~= old(self)@.pushed(a));
    }

    pub fn undo(&mut self)
        ensures
            final(self)@ == old(self)@.undone(),
    {
        if let Some(a) = self.annotations.pop() {
            if matches!(a.kind, AnnotationKind::Counter { .. }) {
                self.counter = self.counter.saturating_sub(1);
            }
            self.redo.push(a);
        }
        assert(self@ =~= old(self)@.undone());
    }

    pub fn redo(&mut self)
        requires
            old(self)@.can_redo(),
        ensures
            final(self)@ == old(self)@.redone(),
    {
        if let Some(a) = self.redo.pop() {
            if matches!(a.kind, AnnotationKind::Counter { .. }) {
                self.counter += 1;
            }
            self.annotations.push(a);
        }
        assert(self@ =~= old(self)@.redone());
    }

    /// The armed tool.
    pub fn tool(&self) -> (t: Option<ToolKind>)
        ensures
            t == self@.tool,
    {
        self.tool
    }

    /// Arm a tool, or disarm with `None`; nothing else changes.
    pub fn set_tool(&mut self, t: Option<ToolKind>)
        ensures
            final(self)@ == (CanvasModel { tool: t, ..old(self)@ }),
    {
        self.tool = t;
        assert(self@ =~= (CanvasModel { tool: t, ..old(self)@ }));
    }

    /// Take the next counter number.
    pub fn next_counter(&mut self) -> (n: u32)
        requires
            old(self)@.counter < u32::MAX,
        ensures
            n == old(self)@.counter + 1,
            final(self)@ == (CanvasModel { counter: n as nat, ..old(self)@ }),
    {
        self.counter += 1;
        assert(self@ =~= (CanvasModel { counter: self.counter as nat, ..old(self)@ }));
        self.counter
    }
}

impl<G> Default for Canvas<G> {
    fn default() -> (c: Canvas<G>)
        ensures
            c@.annotations.len() == 0,
            c@.redo.len() == 0,
            c@.tool is None,
            c@.counter == 0,
    {
        Canvas::new()
    }
}

/// Redo gives back exactly what undo took, unless undo had to clamp a counter
/// that was already at zero.
pub proof fn lemma_undo_then_redo<G>(m: CanvasModel<G>)
    requires
        m.annotations.len() > 0,
        m.annotations.last().is_counter() ==> m.counter > 0,
    ensures
        m.undone().redone() == m,
{
    assert(m.undone().redone() =~= m);
}

/// Undo takes back exactly what redo restored.
pub proof fn lemma_redo_then_undo<G>(m: CanvasModel<G>)
    requires
        m.redo.len() > 0,
    ensures
        m.redone().undone() == m,
{
    assert(m.redone().undone() =~= m);
}

/// Undo and redo only move annotations between the two stacks: none is lost
/// or made up, and the armed tool is untouched.
pub proof fn lemma_undo_redo_conserve<G>(m: CanvasModel<G>)
    ensures
        m.undone().annotations.len() + m.undone().redo.len() == m.annotations.len()
            + m.redo.len(),
        m.redone().annotations.len() + m.redone().redo.len() == m.annotations.len()
            + m.redo.len(),
        m.undone().tool == m.tool,
        m.redone().tool == m.tool,
{
}

/// Committing a new annotation forgets every undone one, so a following redo
/// changes nothing.
pub proof fn lemma_push_then_redo_is_noop<G>(m: CanvasModel<G>, a: Annotation<G>)
    ensures
        m.pushed(a).redone() == m.pushed(a),
        m.pushed(a).undone() == (CanvasModel {
            annotations: m.annotations,
            redo: seq![a],
            tool: m.tool,
            counter: if a.is_counter() {
                if m.counter == 0 {
                    0
                } else {
                    (m.counter - 1) as nat
                }
            } else {
                m.counter
            },
        }),
{
    assert(m.pushed(a).annotations.drop_last() =~= m.annotations);
    assert(m.pushed(a).undone().redo =~= seq![a]);
}

/// Number of counter bubbles among the annotations.
pub open spec fn counters_in<G>(s: Seq<Annotation<G>>) -> nat
    decreases s.len(),
{
    if s.len() == 0 {
        0
    } else {
        counters_in(s.drop_last()) + if s.last().is_counter() {
            1nat
        } else {
            0nat
        }
    }
}

/// The live counter is the number of counter bubbles on the canvas.
pub open spec fn counter_in_step<G>(m: CanvasModel<G>) -> bool {
    m.counter == counters_in(m.annotations)
}

/// The live counter keeps counting the bubbles on the canvas through every
/// edit: committing a drawing (never a counter), placing the next numbered
/// bubble, undo and redo. So the next bubble placed is numbered one past the
/// bubbles showing.
pub proof fn lemma_counter_tracks_bubbles<G>(m: CanvasModel<G>, a: Annotation<G>)
    requires
        counter_in_step(m),
    ensures
        !a.is_counter() ==> counter_in_step(m.pushed(a)),
        a.kind == (AnnotationKind::Counter { number: (m.counter + 1) as u32 })
            ==> counter_in_step((CanvasModel { counter: m.counter + 1, ..m }).pushed(a)),
        counter_in_step(m.undone()),
        counter_in_step(m.redone()),
{
    assert(m.pushed(a).annotations.drop_last() =~= m.annotations);
    if m.annotations.len() > 0 {
        assert(m.undone().annotations == m.annotations.drop_last());
    }
    if m.redo.len() > 0 {
        assert(m.redone().annotations.drop_last() =~= m.annotations);
    }
}

/// The widget tools sit at the end of the strip, in the order of
/// `WidgetKind::ALL`.
pub proof fn lemma_tool_order()
    ensures
        tool_strip().len() == 15,
        tool_strip()[8] == ToolKind::Spotlight,
        forall|i: int| 0 <= i < 6 ==> tool_strip()[9 + i] == ToolKind::Widget(
            #[trigger] WidgetKind::ALL@[i],
        ),
        forall|i: int| 0 <= i < 9 ==> !(#[trigger] tool_strip()[i] is Widget),
        forall|i: int, j: int|
            0 <= i < j < 15 ==> #[trigger] tool_strip()[i] != #[trigger] tool_strip()[j],
{
}

} // verus!
