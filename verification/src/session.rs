//! The sketch session: the mode, the active tool, the pending first click,
//! the extrusion distance and the store, and what each command does to them.
use vstd::prelude::*;
use crate::point::{Point, Ray};
use crate::primitive::{construct, Primitive, Tool};
use crate::store::{SketchStore, StoreView};
use crate::extrude::Solid;
use crate::overlay::{store_overlay, OverlayItem, Paint};
use crate::projector::{projected, screen_to_world};
use crate::units::{DEFAULT_EXTRUDE_DISTANCE, SELECT_TOLERANCE};

verus! {

/// What the application is doing.
#[derive(Clone, Copy, Debug, PartialEq, Eq, Structural)]
pub enum Mode {
    /// Looking at the scene. This is where a session starts.
    Viewing,
    /// Drawing on the sketch plane.
    Sketching,
}

/// What the camera has to do when the mode changes.
#[derive(Clone, Copy, Debug, PartialEq, Eq, Structural)]
pub enum ViewChange {
    /// Look straight down at the sketch plane, and orbit with the middle
    /// button, so that the primary button is free for drawing.
    TopDown,
    /// Give the camera back to the viewer: orbit with the primary button.
    Restore,
}

/// A command of the user, as the panel beside the scene sends it.
#[derive(Clone, Copy, Debug, PartialEq, Eq, Structural)]
pub enum Command {
    /// Start a sketch.
    StartSketch,
    /// Finish the sketch.
    FinishSketch,
    /// Make this tool the active one.
    SelectTool(Tool),
    /// Set the extrusion distance, in ticks.
    SetExtrudeDistance(i32),
    /// Extrude the picked shape now.
    Extrude,
}

/// What a command asks of the world outside the session.
#[derive(Clone, Copy, Debug, PartialEq, Eq)]
pub enum Effect {
    /// Nothing.
    Nothing,
    /// The camera has to change.
    View(ViewChange),
    /// A solid has to be added to the scene.
    Emit(Solid),
}

/// What one frame brings in.
#[derive(Clone, Copy, Debug, PartialEq, Eq, Structural)]
pub struct FrameInput {
    /// Whether a widget of the panel has the pointer. The panel comes
    /// first: while it has the pointer, the cursor counts as being over no
    /// point of the plane and the presses of both buttons are passed over.
    pub pointer_captured: bool,
    /// The ray that the camera casts through the cursor, or `None` when the
    /// cursor is outside the window.
    pub cursor_ray: Option<Ray>,
    /// Whether the primary button went down in this frame.
    pub primary_pressed: bool,
    /// Whether the secondary button went down in this frame.
    pub secondary_pressed: bool,
    /// Whether the command to extrude was given in this frame.
    pub extrude_requested: bool,
}

/// What one frame gives out.
#[derive(Debug, PartialEq, Eq)]
pub struct FrameOutput {
    /// The solid that an extrusion in this frame has produced.
    pub solid: Option<Solid>,
    /// What to draw over the scene: the shapes of the store, and after them
    /// the shape that is being drawn.
    pub overlay: Vec<OverlayItem>,
}

impl FrameInput {
    /// The point of the plane that this frame's clicks go to.
    pub open spec fn point(self) -> Option<Point> {
        if self.pointer_captured {
            None
        } else {
            projected(self.cursor_ray)
        }
    }
}

/// What a session holds.
pub struct SessionView {
    pub mode: Mode,
    pub tool: Tool,
    /// The first click of a shape whose second click is still to come.
    pub anchor: Option<Point>,
    pub extrude_distance: int,
    pub store: StoreView,
}

impl SessionView {
    /// A session as it starts.
    pub open spec fn initial() -> SessionView {
        SessionView {
            mode: Mode::Viewing,
            tool: Tool::Line,
            anchor: None,
            extrude_distance: DEFAULT_EXTRUDE_DISTANCE as int,
            store: StoreView::empty(),
        }
    }

    /// Outside a sketch there is no pending click and no shape.
    pub open spec fn inv(self) -> bool {
        &&& self.store.wf()
        &&& self.mode == Mode::Viewing ==> self.anchor is None && self.store.entries.len() == 0
    }

    /// The session with everything that belongs to one sketch forgotten: the
    /// shapes, the selection, the pending click and the extrusion distance.
    /// The mode and the tool stay.
    pub open spec fn reset(self) -> SessionView {
        SessionView {
            anchor: None,
            extrude_distance: DEFAULT_EXTRUDE_DISTANCE as int,
            store: StoreView::empty(),
            ..self
        }
    }

    /// The session after the command to start a sketch.
    pub open spec fn start_sketch(self) -> SessionView {
        if self.mode == Mode::Viewing {
            SessionView { mode: Mode::Sketching, ..self.reset() }
        } else {
            self
        }
    }

    /// The session after the command to finish the sketch.
    pub open spec fn finish_sketch(self) -> SessionView {
        if self.mode == Mode::Sketching {
            SessionView { mode: Mode::Viewing, ..self.reset() }
        } else {
            self
        }
    }

    /// The session after the user has chosen `tool`.
    pub open spec fn set_tool(self, tool: Tool) -> SessionView {
        if self.mode == Mode::Sketching {
            SessionView { tool, ..self }
        } else {
            self
        }
    }

    /// The session after the user has set the extrusion distance.
    pub open spec fn set_extrude_distance(self, distance: int) -> SessionView {
        if self.mode == Mode::Sketching {
            SessionView { extrude_distance: distance, ..self }
        } else {
            self
        }
    }

    /// The session after a press of the primary button, with the cursor over
    /// `point` of the plane, or over no point of it.
    pub open spec fn primary_click(self, point: Option<Point>) -> SessionView {
        if self.mode != Mode::Sketching {
            self
        } else {
            match point {
                None => self,
                Some(p) => if self.tool == Tool::Select {
                    SessionView { store: self.store.select(p, SELECT_TOLERANCE as int), ..self }
                } else {
                    match self.anchor {
                        None => SessionView { anchor: Some(p), ..self },
                        Some(a) => SessionView {
                            anchor: None,
                            store: self.store.commit(construct(self.tool, a, p).unwrap()),
                            ..self
                        },
                    }
                },
            }
        }
    }

    /// The session after a press of the secondary button.
    pub open spec fn secondary_click(self) -> SessionView {
        SessionView { anchor: None, ..self }
    }

    /// The session after the command to extrude.
    pub open spec fn extrude(self) -> SessionView {
        if self.mode == Mode::Sketching {
            SessionView { store: self.store.extrude(), ..self }
        } else {
            self
        }
    }

    /// The solid that the command to extrude gives, if it gives one.
    pub open spec fn extrusion(self) -> Option<Solid> {
        if self.mode == Mode::Sketching {
            self.store.extrusion(self.extrude_distance)
        } else {
            None
        }
    }

    /// The shape that a second click at `cursor` would draw.
    pub open spec fn preview(self, cursor: Option<Point>) -> Option<Primitive> {
        match (self.anchor, cursor) {
            (Some(a), Some(c)) => construct(self.tool, a, c),
            _ => None,
        }
    }

    /// What is drawn over the scene with the cursor at `cursor`: the shapes
    /// of the store, and after them the preview in the highlight.
    pub open spec fn overlay(self, cursor: Option<Point>) -> Seq<OverlayItem> {
        match self.preview(cursor) {
            Some(primitive) => self.store.overlay().push(
                OverlayItem { primitive, paint: Paint::Highlight },
            ),
            None => self.store.overlay(),
        }
    }

    /// Whether the panel offers `command` in the mode of this session: only
    /// the start of a sketch while viewing, everything else while sketching.
    pub open spec fn offers(self, command: Command) -> bool {
        match command {
            Command::StartSketch => self.mode == Mode::Viewing,
            _ => self.mode == Mode::Sketching,
        }
    }

    /// The session after `command`.
    pub open spec fn apply(self, command: Command) -> SessionView {
        match command {
            Command::StartSketch => self.start_sketch(),
            Command::FinishSketch => self.finish_sketch(),
            Command::SelectTool(tool) => self.set_tool(tool),
            Command::SetExtrudeDistance(distance) => self.set_extrude_distance(distance as int),
            Command::Extrude => self.extrude(),
        }
    }

    /// What `command` asks of the world outside the session.
    pub open spec fn effect(self, command: Command) -> Effect {
        match command {
            Command::StartSketch => if self.mode == Mode::Viewing {
                Effect::View(ViewChange::TopDown)
            } else {
                Effect::Nothing
            },
            Command::FinishSketch => if self.mode == Mode::Sketching {
                Effect::View(ViewChange::Restore)
            } else {
                Effect::Nothing
            },
            Command::Extrude => match self.extrusion() {
                Some(solid) => Effect::Emit(solid),
                None => Effect::Nothing,
            },
            _ => Effect::Nothing,
        }
    }

    /// The session after the clicks of one frame: first the primary button,
    /// then the secondary. While a widget of the panel has the pointer,
    /// neither button reaches the sketch.
    pub open spec fn clicks(self, input: FrameInput) -> SessionView {
        if input.pointer_captured {
            self
        } else {
            let first = if input.primary_pressed {
                self.primary_click(input.point())
            } else {
                self
            };
            if input.secondary_pressed {
                first.secondary_click()
            } else {
                first
            }
        }
    }

    /// The session after one frame: the clicks, then the extrusion.
    pub open spec fn tick(self, input: FrameInput) -> SessionView {
        if input.extrude_requested {
            self.clicks(input).extrude()
        } else {
            self.clicks(input)
        }
    }

    /// The solid that one frame produces, if it produces one.
    pub open spec fn tick_solid(self, input: FrameInput) -> Option<Solid> {
        if input.extrude_requested {
            self.clicks(input).extrusion()
        } else {
            None
        }
    }
}

/// One sketch session.
///
/// A session is the single owner of everything the engine knows. Each
/// command of the user and each click is one call on it.
pub struct Session {
    mode: Mode,
    tool: Tool,
    anchor: Option<Point>,
    extrude_distance: i32,
    store: SketchStore,
}

impl View for Session {
    type V = SessionView;

    closed spec fn view(&self) -> SessionView {
        SessionView {
            mode: self.mode,
            tool: self.tool,
            anchor: self.anchor,
            extrude_distance: self.extrude_distance as int,
            store: self.store@,
        }
    }
}

impl Session {
    /// A session in the viewing mode, with the line tool, an empty store and
    /// the default extrusion distance.
    pub fn new() -> (s: Session)
        ensures
            s@ == SessionView::initial(),
            s@.inv(),
    {
        Session {
            mode: Mode::Viewing,
            tool: Tool::Line,
            anchor: None,
            extrude_distance: DEFAULT_EXTRUDE_DISTANCE,
            store: SketchStore::new(),
        }
    }

    /// The mode.
    pub fn mode(&self) -> (m: Mode)
        ensures
            m == self@.mode,
    {
        self.mode
    }

    /// The active tool.
    pub fn tool(&self) -> (t: Tool)
        ensures
            t == self@.tool,
    {
        self.tool
    }

    /// Whether `tool` is the active tool.
    pub fn is_active_tool(&self, tool: Tool) -> (r: bool)
        ensures
            r == (self@.tool == tool),
    {
        self.tool == tool
    }

    /// The pending first click.
    pub fn anchor(&self) -> (a: Option<Point>)
        ensures
            a == self@.anchor,
    {
        self.anchor
    }

    /// The extrusion distance, in ticks.
    pub fn extrude_distance(&self) -> (d: i32)
        ensures
            d == self@.extrude_distance,
    {
        self.extrude_distance
    }

    /// The store.
    pub fn store(&self) -> (s: &SketchStore)
        ensures
            s@ == self@.store,
    {
        &self.store
    }

    /// Forgets everything that belongs to one sketch.
    fn reset(&mut self)
        ensures
            final(self)@ == old(self)@.reset(),
            old(self)@.inv() ==> final(self)@.inv(),
    {
        self.anchor = None;
        self.extrude_distance = DEFAULT_EXTRUDE_DISTANCE;
        self.store.clear();
    }

    /// Handles the command to start a sketch.
    ///
    /// From the viewing mode the session enters the sketching mode with an
    /// empty store, no pending click and the default extrusion distance, and
    /// the camera is to look straight down. In the sketching mode the command
    /// does nothing.
    pub fn start_sketch(&mut self) -> (change: Option<ViewChange>)
        ensures
            final(self)@ == old(self)@.start_sketch(),
            change == (if old(self)@.mode == Mode::Viewing {
                Some(ViewChange::TopDown)
            } else {
                None
            }),
            old(self)@.inv() ==> final(self)@.inv(),
    {
        if self.mode == Mode::Viewing {
            self.reset();
            self.mode = Mode::Sketching;
            Some(ViewChange::TopDown)
        } else {
            None
        }
    }

    /// Handles the command to finish the sketch.
    ///
    /// From the sketching mode the session returns to the viewing mode, again
    /// with everything of the sketch forgotten, and the camera is given back.
    /// In the viewing mode the command does nothing.
    pub fn finish_sketch(&mut self) -> (change: Option<ViewChange>)
        ensures
            final(self)@ == old(self)@.finish_sketch(),
            change == (if old(self)@.mode == Mode::Sketching {
                Some(ViewChange::Restore)
            } else {
                None
            }),
            old(self)@.inv() ==> final(self)@.inv(),
    {
        if self.mode == Mode::Sketching {
            self.reset();
            self.mode = Mode::Viewing;
            Some(ViewChange::Restore)
        } else {
            None
        }
    }

    /// Makes `tool` the active tool. A tool can be chosen only while
    /// sketching; otherwise the call does nothing and returns `false`.
    ///
    /// A pending first click stays pending: the shape is finished under the
    /// new tool.
    pub fn set_tool(&mut self, tool: Tool) -> (done: bool)
        ensures
            final(self)@ == old(self)@.set_tool(tool),
            done == (old(self)@.mode == Mode::Sketching),
            old(self)@.inv() ==> final(self)@.inv(),
    {
        if self.mode == Mode::Sketching {
            self.tool = tool;
            true
        } else {
            false
        }
    }

    /// Sets the extrusion distance, in ticks. Any distance is accepted, also
    /// zero and negative ones. The distance can be set only while sketching;
    /// otherwise the call does nothing and returns `false`.
    pub fn set_extrude_distance(&mut self, distance: i32) -> (done: bool)
        ensures
            final(self)@ == old(self)@.set_extrude_distance(distance as int),
            done == (old(self)@.mode == Mode::Sketching),
            old(self)@.inv() ==> final(self)@.inv(),
    {
        if self.mode == Mode::Sketching {
            self.extrude_distance = distance;
            true
        } else {
            false
        }
    }

    /// Handles a press of the primary button with the cursor over `point`.
    ///
    /// Outside the sketching mode, and when the cursor is over no point of
    /// the plane, nothing happens. With the selection tool the click picks a
    /// shape. With a drawing tool the first click is kept as the anchor and
    /// the second click adds the shape from the anchor to `point` to the
    /// store.
    pub fn primary_click(&mut self, point: Option<Point>)
        ensures
            final(self)@ == old(self)@.primary_click(point),
            old(self)@.inv() ==> final(self)@.inv(),
    {
        if self.mode == Mode::Sketching {
            if let Some(p) = point {
                if self.tool == Tool::Select {
                    self.store.select_at(p, SELECT_TOLERANCE);
                } else {
                    match self.anchor {
                        None => {
                            self.anchor = Some(p);
                        },
                        Some(a) => {
                            if let Some(primitive) = Primitive::construct(self.tool, a, p) {
                                self.store.commit(primitive);
                            }
                            self.anchor = None;
                        },
                    }
                }
            }
        }
    }

    /// Handles a press of the secondary button: drops the pending first
    /// click. Without a pending click nothing changes.
    pub fn secondary_click(&mut self)
        ensures
            final(self)@ == old(self)@.secondary_click(),
            old(self)@.inv() ==> final(self)@.inv(),
    {
        self.anchor = None;
    }

    /// Handles the command to extrude: extrudes the picked shape by the
    /// extrusion distance and retires it.
    ///
    /// Without a picked shape that is still visible nothing happens and
    /// `None` is returned.
    pub fn extrude(&mut self) -> (solid: Option<Solid>)
        ensures
            final(self)@ == old(self)@.extrude(),
            solid == old(self)@.extrusion(),
            old(self)@.inv() ==> final(self)@.inv(),
    {
        if self.mode == Mode::Sketching {
            self.store.extrude_selected(self.extrude_distance)
        } else {
            None
        }
    }

    /// The shape that a second click at `cursor` would draw, for display
    /// only: it is not in the store.
    pub fn preview(&self, cursor: Option<Point>) -> (shape: Option<Primitive>)
        ensures
            shape == self@.preview(cursor),
    {
        match (self.anchor, cursor) {
            (Some(a), Some(c)) => Primitive::construct(self.tool, a, c),
            _ => None,
        }
    }

    /// What to draw over the scene with the cursor over `cursor`: the shapes
    /// of the store that are not retired, the picked one in the accent and
    /// the others neutral, and after them the preview in the highlight.
    pub fn overlay(&self, cursor: Option<Point>) -> (items: Vec<OverlayItem>)
        ensures
            items@ == self@.overlay(cursor),
    {
        let mut items: Vec<OverlayItem> = store_overlay(&self.store);
        if let Some(primitive) = self.preview(cursor) {
            items.push(OverlayItem { primitive, paint: Paint::Highlight });
        }
        items
    }

    /// Whether the panel offers `command` in the current mode.
    pub fn offers(&self, command: Command) -> (r: bool)
        ensures
            r == self@.offers(command),
    {
        match command {
            Command::StartSketch => self.mode == Mode::Viewing,
            _ => self.mode == Mode::Sketching,
        }
    }

    /// Carries out a command of the panel and says what it asks of the world
    /// outside: a change of the camera, a solid to add to the scene, or
    /// nothing. A command that the panel does not offer in the current mode
    /// changes nothing.
    pub fn apply(&mut self, command: Command) -> (effect: Effect)
        ensures
            final(self)@ == old(self)@.apply(command),
            effect == old(self)@.effect(command),
            !old(self)@.offers(command) ==> final(self)@ == old(self)@ && effect == Effect::Nothing,
            old(self)@.inv() ==> final(self)@.inv(),
    {
        match command {
            Command::StartSketch => match self.start_sketch() {
                Some(change) => Effect::View(change),
                None => Effect::Nothing,
            },
            Command::FinishSketch => match self.finish_sketch() {
                Some(change) => Effect::View(change),
                None => Effect::Nothing,
            },
            Command::SelectTool(tool) => {
                self.set_tool(tool);
                Effect::Nothing
            },
            Command::SetExtrudeDistance(distance) => {
                self.set_extrude_distance(distance);
                Effect::Nothing
            },
            Command::Extrude => match self.extrude() {
                Some(solid) => Effect::Emit(solid),
                None => Effect::Nothing,
            },
        }
    }

    /// Runs one frame: projects the cursor onto the plane, handles the
    /// clicks, then the extrusion, and lists what to draw.
    ///
    /// While a widget of the panel has the pointer, the panel comes first:
    /// neither button reaches the sketch, and no preview is drawn. A command
    /// to extrude is carried out all the same.
    pub fn tick(&mut self, input: &FrameInput) -> (output: FrameOutput)
        ensures
            final(self)@ == old(self)@.tick(*input),
            output.solid == old(self)@.tick_solid(*input),
            output.overlay@ == final(self)@.overlay(input.point()),
            old(self)@.inv() ==> final(self)@.inv(),
    {
        let point: Option<Point> = if input.pointer_captured {
            None
        } else {
            screen_to_world(input.cursor_ray)
        };
        if !input.pointer_captured {
            if input.primary_pressed {
                self.primary_click(point);
            }
            if input.secondary_pressed {
                self.secondary_click();
            }
        }
        let solid: Option<Solid> = if input.extrude_requested {
            self.extrude()
        } else {
            None
        };
        let overlay: Vec<OverlayItem> = self.overlay(point);
        FrameOutput { solid, overlay }
    }
}

} // verus!
