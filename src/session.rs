use vstd::prelude::*;

use crate::frame::{rendered, resized, Frame, FrameError};
use crate::geometry::{normalized, DirtyRect, Point, Rect};
use crate::selection::SelectionState;

verus! {

/// Button code of the primary (left) pointer button.
pub const PRIMARY_BUTTON: u32 = 0x110;

/// Key code of the cancel (Escape) key.
pub const CANCEL_KEY: u32 = 1;

/// A notification from the display session, in the terms the selection logic needs.
#[derive(Debug, Clone, Copy, PartialEq, Eq, Structural)]
pub enum Input {
    /// The pointer entered the overlay at `pos`.
    Enter { pos: Point },
    /// The pointer moved to `pos`.
    Motion { pos: Point },
    /// A pointer button was pressed or released.
    Button { code: u32, pressed: bool },
    /// A key was pressed or released.
    Key { code: u32, pressed: bool },
    /// The overlay was closed by the display session.
    Closed,
}

/// The one result a session reports, at the moment it terminates.
#[derive(Debug, Clone, Copy, PartialEq, Eq, Structural)]
pub enum Report {
    /// The selected rectangle.
    Selected(Rect),
    /// The selection was cancelled.
    Cancelled,
}

/// The input translator's state: the selection, the pointer, what the last pointer
/// event saw, whether a redraw is requested, and whether pointer movement while idle
/// requests one too (off by default).
#[derive(Debug, Clone, Copy, PartialEq, Eq, Structural)]
pub struct Translator {
    pub selection: SelectionState,
    pub pointer: Point,
    pub last_pointer: Point,
    pub last_selection: SelectionState,
    pub needs_redraw: bool,
    pub redraw_while_idle: bool,
}

/// The pointer arriving at `pos`: it is recorded, and while a selection is under way (or
/// at any time, where enabled) a change of position or of state since the last pointer
/// event requests a redraw.
pub open spec fn pointer_moved(t: Translator, pos: Point) -> Translator {
    let changed = pos != t.last_pointer || t.selection != t.last_selection;
    Translator {
        pointer: pos,
        last_pointer: pos,
        last_selection: t.selection,
        needs_redraw: t.needs_redraw || ((!(t.selection is Idle) || t.redraw_while_idle)
            && changed),
        ..t
    }
}

/// One input applied to the translator: the next state, and the report made by this
/// input, if any. Once terminated, nothing changes and nothing is reported.
pub open spec fn translated(t: Translator, input: Input) -> (Translator, Option<Report>) {
    if t.selection is Terminated {
        (t, None)
    } else {
        match input {
            Input::Enter { pos } => (pointer_moved(t, pos), None),
            Input::Motion { pos } => (pointer_moved(t, pos), None),
            Input::Button { code, pressed } => {
                if code != PRIMARY_BUTTON {
                    (t, None)
                } else if pressed {
                    if t.selection is Idle {
                        let s = SelectionState::Selecting { start: t.pointer };
                        (
                            Translator {
                                selection: s,
                                last_pointer: t.pointer,
                                last_selection: s,
                                needs_redraw: true,
                                ..t
                            },
                            None,
                        )
                    } else {
                        (t, None)
                    }
                } else {
                    match t.selection {
                        SelectionState::Selecting { start } => {
                            let r = normalized(start, t.pointer);
                            (
                                Translator {
                                    selection: SelectionState::Terminated { result: Some(r) },
                                    ..t
                                },
                                Some(Report::Selected(r)),
                            )
                        },
                        _ => (t, None),
                    }
                }
            },
            Input::Key { code, pressed } => {
                if code == CANCEL_KEY && pressed {
                    (
                        Translator { selection: SelectionState::Terminated { result: None }, ..t },
                        Some(Report::Cancelled),
                    )
                } else {
                    (t, None)
                }
            },
            Input::Closed => (
                Translator { selection: SelectionState::Terminated { result: None }, ..t },
                Some(Report::Cancelled),
            ),
        }
    }
}

impl Translator {
    pub open spec fn new_spec() -> Translator {
        Translator {
            selection: SelectionState::Idle,
            pointer: Point { x: 0, y: 0 },
            last_pointer: Point { x: 0, y: 0 },
            last_selection: SelectionState::Idle,
            needs_redraw: true,
            redraw_while_idle: false,
        }
    }

    /// Idle, with the pointer at the origin and a first redraw requested.
    pub fn new() -> (t: Translator)
        ensures
            t == Translator::new_spec(),
    {
        Translator {
            selection: SelectionState::Idle,
            pointer: Point { x: 0, y: 0 },
            last_pointer: Point { x: 0, y: 0 },
            last_selection: SelectionState::Idle,
            needs_redraw: true,
            redraw_while_idle: false,
        }
    }

    /// As `new`, with pointer movement while idle requesting redraws where `enabled`.
    pub fn with_idle_redraw(enabled: bool) -> (t: Translator)
        ensures
            t == (Translator { redraw_while_idle: enabled, ..Translator::new_spec() }),
    {
        let mut t = Translator::new();
        t.redraw_while_idle = enabled;
        t
    }

    fn track_pointer(&mut self, pos: Point)
        ensures
            *final(self) == pointer_moved(*old(self), pos),
    {
        let changed = pos != self.last_pointer || self.selection != self.last_selection;
        if (!self.selection_is_idle() || self.redraw_while_idle) && changed {
            self.needs_redraw = true;
        }
        self.pointer = pos;
        self.last_pointer = pos;
        self.last_selection = self.selection;
    }

    fn selection_is_idle(&self) -> (b: bool)
        ensures
            b == (self.selection is Idle),
    {
        match self.selection {
            SelectionState::Idle => true,
            _ => false,
        }
    }

    /// Applies one input, as `translated` says, and returns the report it makes.
    pub fn handle(&mut self, input: Input) -> (r: Option<Report>)
        ensures
            (*final(self), r) == translated(*old(self), input),
    {
        if self.selection.is_terminated() {
            return None;
        }
        match input {
            Input::Enter { pos } => {
                self.track_pointer(pos);
                None
            },
            Input::Motion { pos } => {
                self.track_pointer(pos);
                None
            },
            Input::Button { code, pressed } => {
                if code != PRIMARY_BUTTON {
                    None
                } else if pressed {
                    if self.selection_is_idle() {
                        self.selection = self.selection.press(self.pointer);
                        self.last_pointer = self.pointer;
                        self.last_selection = self.selection;
                        self.needs_redraw = true;
                    }
                    None
                } else {
                    let next = self.selection.release(self.pointer);
                    self.selection = next;
                    match next {
                        SelectionState::Terminated { result: Some(r) } => Some(Report::Selected(r)),
                        _ => None,
                    }
                }
            },
            Input::Key { code, pressed } => {
                if code == CANCEL_KEY && pressed {
                    self.selection = self.selection.cancel();
                    Some(Report::Cancelled)
                } else {
                    None
                }
            },
            Input::Closed => {
                self.selection = self.selection.cancel();
                Some(Report::Cancelled)
            },
        }
    }
}

/// The whole selection session: the renderer with its slots, and the input translator.
pub struct Session {
    pub frame: Frame,
    pub input: Translator,
}

impl Session {
    pub open spec fn wf(&self) -> bool {
        self.frame.wf()
    }

    /// An idle session on an empty viewport, with a first redraw requested.
    pub fn new() -> (s: Session)
        ensures
            s.wf(),
            s.frame.width == 0,
            s.frame.height == 0,
            s.frame.full_redraw,
            s.frame.prev_rect is None,
            s.frame.active == 0,
            s.input == Translator::new_spec(),
    {
        Session { frame: Frame::new(), input: Translator::new() }
    }

    /// As `new`, with pointer movement while idle requesting redraws where `enabled`.
    pub fn with_idle_redraw(enabled: bool) -> (s: Session)
        ensures
            s.wf(),
            s.frame.width == 0,
            s.frame.height == 0,
            s.frame.full_redraw,
            s.frame.prev_rect is None,
            s.frame.active == 0,
            s.input == (Translator { redraw_while_idle: enabled, ..Translator::new_spec() }),
    {
        Session { frame: Frame::new(), input: Translator::with_idle_redraw(enabled) }
    }

    /// Whether the session still waits for input.
    pub fn is_running(&self) -> (b: bool)
        ensures
            b == !(self.input.selection is Terminated),
    {
        !self.input.selection.is_terminated()
    }

    /// Whether a render is due.
    pub fn needs_redraw(&self) -> (b: bool)
        ensures
            b == self.input.needs_redraw,
    {
        self.input.needs_redraw
    }

    /// Applies one input; the frame does not change. The report, if any, is to be
    /// shown at once.
    pub fn handle(&mut self, input: Input) -> (r: Option<Report>)
        requires
            old(self).wf(),
        ensures
            final(self).wf(),
            final(self).frame == old(self).frame,
            (final(self).input, r) == translated(old(self).input, input),
    {
        self.input.handle(input)
    }

    /// A resize notification: the frame takes the new size (see `Frame::resize`) and a
    /// redraw is requested. A refused size changes nothing.
    pub fn resize(&mut self, width: u32, height: u32) -> (r: Result<(), FrameError>)
        requires
            old(self).wf(),
        ensures
            final(self).wf(),
            resized(old(self).frame, final(self).frame, width, height, r),
            r is Ok ==> final(self).input == (Translator { needs_redraw: true, ..old(self).input }),
            r is Err ==> final(self).input == old(self).input,
    {
        let r = self.frame.resize(width, height);
        if r.is_ok() {
            self.input.needs_redraw = true;
        }
        r
    }

    /// Renders the current selection and pointer into `target`, the inactive slot's
    /// view (see `Frame::render`), and clears the redraw request.
    pub fn render(&mut self, target: &mut [u8]) -> (r: Option<DirtyRect>)
        requires
            old(self).wf(),
            old(target)@.len() == old(self).frame.canvas@.len(),
        ensures
            final(self).wf(),
            rendered(
                old(self).frame,
                final(self).frame,
                old(target)@,
                final(target)@,
                old(self).input.selection,
                old(self).input.pointer,
                r,
            ),
            final(self).input == (Translator { needs_redraw: false, ..old(self).input }),
    {
        let r = self.frame.render(self.input.selection, self.input.pointer, target);
        self.input.needs_redraw = false;
        r
    }
}

} // verus!
