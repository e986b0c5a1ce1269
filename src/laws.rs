use vstd::prelude::*;

use crate::frame::{buffer_len, current_box, rendered, resized, Frame, FrameError};
use crate::geometry::{
    dirty_region, full_view, normalized, outlined_box, spec_abs_diff, spec_min, DirtyRect, Point,
};
use crate::selection::SelectionState;
use crate::session::{translated, Input, Report, Translator, CANCEL_KEY, PRIMARY_BUTTON};

verus! {

/// The translator after each input of `inputs` in turn.
pub open spec fn run(t: Translator, inputs: Seq<Input>) -> Translator
    decreases inputs.len(),
{
    if inputs.len() == 0 {
        t
    } else {
        run(translated(t, inputs[0]).0, inputs.drop_first())
    }
}

/// The reports made by the inputs of `inputs`, applied in turn, one entry per input.
pub open spec fn reports(t: Translator, inputs: Seq<Input>) -> Seq<Option<Report>>
    decreases inputs.len(),
{
    if inputs.len() == 0 {
        Seq::empty()
    } else {
        seq![translated(t, inputs[0]).1].add(reports(translated(t, inputs[0]).0, inputs.drop_first()))
    }
}

/// A well-formed frame's canvas and background cache both hold exactly four bytes per
/// pixel of the viewport.
pub proof fn lemma_buffers_fit_viewport(f: Frame)
    requires
        f.wf(),
    ensures
        f.canvas@.len() == 4 * f.width * f.height,
        f.background@.len() == 4 * f.width * f.height,
{
}

/// A successful resize leaves canvas and background cache at four bytes per pixel of the
/// new size.
pub proof fn lemma_resize_buffer_sizes(
    f: Frame,
    g: Frame,
    width: u32,
    height: u32,
    r: Result<(), FrameError>,
)
    requires
        g.wf(),
        resized(f, g, width, height, r),
        r is Ok,
    ensures
        g.canvas@.len() == 4 * width * height,
        g.background@.len() == 4 * width * height,
{
}

/// The normalized rectangle of two corners starts at their smaller coordinates and
/// spans their distances, which are never negative and are kept exactly.
pub proof fn lemma_normalized_fields(start: Point, end: Point)
    ensures
        normalized(start, end).x == spec_min(start.x as int, end.x as int),
        normalized(start, end).y == spec_min(start.y as int, end.y as int),
        normalized(start, end).width as int == spec_abs_diff(start.x as int, end.x as int),
        normalized(start, end).height as int == spec_abs_diff(start.y as int, end.y as int),
        spec_abs_diff(start.x as int, end.x as int) >= 0,
        spec_abs_diff(start.y as int, end.y as int) >= 0,
        normalized(start, end) == normalized(end, start),
{
}

/// On a non-empty viewport the outlined selection box is non-empty and inside it.
pub proof fn lemma_outlined_within(width: u32, height: u32, start: Point, pos: Point)
    requires
        width > 0,
        height > 0,
    ensures
        outlined_box(width, height, start, pos).within(width as int, height as int),
{
}

/// The region a render redraws is never empty and always lies inside the viewport.
pub proof fn lemma_dirty_within_viewport(
    width: u32,
    height: u32,
    full: bool,
    prev: Option<DirtyRect>,
    curr: Option<DirtyRect>,
)
    requires
        width > 0,
        height > 0,
        prev matches Some(b) ==> b.within(width as int, height as int),
        curr matches Some(b) ==> b.within(width as int, height as int),
    ensures
        dirty_region(width, height, full, prev, curr).within(width as int, height as int),
{
}

/// Whatever a render returns lies inside the viewport.
pub proof fn lemma_render_within_viewport(
    f: Frame,
    g: Frame,
    t: Seq<u8>,
    u: Seq<u8>,
    selection: SelectionState,
    pointer: Point,
    r: Option<DirtyRect>,
)
    requires
        f.wf(),
        rendered(f, g, t, u, selection, pointer, r),
    ensures
        r matches Some(d) ==> d.within(f.width as int, f.height as int),
{
}

/// Rendering the same selection and pointer twice in a row: the second render redraws
/// exactly the box stored by the first, not the whole viewport.
pub proof fn lemma_steady_redraw(
    f1: Frame,
    f2: Frame,
    f3: Frame,
    t1: Seq<u8>,
    t2: Seq<u8>,
    u1: Seq<u8>,
    u2: Seq<u8>,
    selection: SelectionState,
    pointer: Point,
    r1: Option<DirtyRect>,
    r2: Option<DirtyRect>,
)
    requires
        f1.wf(),
        f1.width > 0,
        f1.height > 0,
        selection is Selecting,
        rendered(f1, f2, t1, u1, selection, pointer, r1),
        rendered(f2, f3, t2, u2, selection, pointer, r2),
    ensures
        f2.prev_rect is Some,
        r2 == f2.prev_rect,
        r2 == current_box(f1.width, f1.height, selection, pointer),
{
    let start = selection->start;
    lemma_outlined_within(f1.width, f1.height, start, pointer);
}

/// After a successful resize to a non-empty size, the next render redraws the whole new
/// viewport, whatever the selection and pointer.
pub proof fn lemma_resize_forces_full_redraw(
    f1: Frame,
    f2: Frame,
    f3: Frame,
    width: u32,
    height: u32,
    r0: Result<(), FrameError>,
    t: Seq<u8>,
    u: Seq<u8>,
    selection: SelectionState,
    pointer: Point,
    r: Option<DirtyRect>,
)
    requires
        resized(f1, f2, width, height, r0),
        r0 is Ok,
        width > 0,
        height > 0,
        rendered(f2, f3, t, u, selection, pointer, r),
    ensures
        f2.canvas@.len() == buffer_len(width, height),
        f2.active == 0,
        r == Some(full_view(width, height)),
{
}

/// The cancel key, pressed, or the session closing: the selection ends, with no result
/// unless one was already reported, and never with a coordinate report.
pub proof fn lemma_cancel_terminates(t: Translator, input: Input)
    requires
        input is Closed || input == (Input::Key { code: CANCEL_KEY, pressed: true }),
    ensures
        translated(t, input).0.selection is Terminated,
        !(translated(t, input).1 matches Some(Report::Selected(_))),
        !(t.selection is Terminated) ==> translated(t, input).0.selection == (SelectionState::Terminated {
            result: None,
        }) && translated(t, input).1 == Some(Report::Cancelled),
        t.selection is Terminated ==> translated(t, input) == (t, None::<Report>),
{
}

/// Once terminated, no input changes the translator or makes a report.
pub proof fn lemma_terminated_is_final(t: Translator, inputs: Seq<Input>)
    requires
        t.selection is Terminated,
    ensures
        run(t, inputs) == t,
        forall|i: int| 0 <= i < inputs.len() ==> #[trigger] reports(t, inputs)[i] is None,
        reports(t, inputs).len() == inputs.len(),
    decreases inputs.len(),
{
    if inputs.len() > 0 {
        lemma_terminated_is_final(t, inputs.drop_first());
        let rest = reports(t, inputs.drop_first());
        assert(reports(t, inputs) == seq![None::<Report>].add(rest));
    }
}

/// After a cancel, whatever inputs follow, no report of a rectangle is ever made.
pub proof fn lemma_no_coordinates_after_cancel(t: Translator, later: Seq<Input>)
    ensures
        ({
            let c = translated(t, Input::Key { code: CANCEL_KEY, pressed: true }).0;
            &&& run(c, later) == c
            &&& forall|i: int| 0 <= i < later.len() ==> #[trigger] reports(c, later)[i] is None
        }),
{
    let c = translated(t, Input::Key { code: CANCEL_KEY, pressed: true }).0;
    lemma_cancel_terminates(t, Input::Key { code: CANCEL_KEY, pressed: true });
    lemma_terminated_is_final(c, later);
}

/// A primary-button release while idle changes nothing and reports nothing, however
/// often it comes.
pub proof fn lemma_idle_release_is_noop(t: Translator)
    requires
        t.selection is Idle,
    ensures
        translated(t, Input::Button { code: PRIMARY_BUTTON, pressed: false }) == (t, None::<Report>),
{
}

} // verus!
