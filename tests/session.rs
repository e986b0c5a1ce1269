use region_overlay::frame::FrameError;
use region_overlay::geometry::{DirtyRect, Point, Rect};
use region_overlay::selection::SelectionState;
use region_overlay::session::{Input, Report, Session, CANCEL_KEY, PRIMARY_BUTTON};

fn motion(x: i32, y: i32) -> Input {
    Input::Motion { pos: Point { x, y } }
}

fn primary(pressed: bool) -> Input {
    Input::Button { code: PRIMARY_BUTTON, pressed }
}

fn cancel() -> Input {
    Input::Key { code: CANCEL_KEY, pressed: true }
}

fn line(r: &Report) -> String {
    match r {
        Report::Selected(rect) => format!("{},{},{}x{}", rect.x, rect.y, rect.width, rect.height),
        Report::Cancelled => "Selection cancelled.".to_string(),
    }
}

fn render(s: &mut Session) -> Option<DirtyRect> {
    let mut slot = vec![0u8; s.frame.byte_len()];
    s.render(&mut slot[..])
}

#[test]
fn drag_reports_rectangle() {
    let mut s = Session::new();
    assert_eq!(s.resize(1920, 1080), Ok(()));
    assert_eq!(s.handle(motion(100, 50)), None);
    assert_eq!(s.handle(primary(true)), None);
    assert!(s.needs_redraw());
    assert_eq!(s.handle(motion(300, 260)), None);
    let r = s.handle(primary(false)).expect("a report");
    assert_eq!(r, Report::Selected(Rect { x: 100, y: 50, width: 200, height: 210 }));
    assert_eq!(line(&r), "100,50,200x210");
    assert!(!s.is_running());
}

#[test]
fn cancel_before_release() {
    let mut s = Session::new();
    assert_eq!(s.resize(800, 600), Ok(()));
    s.handle(motion(10, 10));
    assert_eq!(s.handle(primary(true)), None);
    let r = s.handle(cancel()).expect("a report");
    assert_eq!(line(&r), "Selection cancelled.");
    assert_eq!(s.input.selection, SelectionState::Terminated { result: None });
    assert_eq!(s.handle(primary(false)), None);
    assert_eq!(s.handle(cancel()), None);
    assert!(!s.is_running());
}

#[test]
fn first_render_after_resize_is_full() {
    let mut s = Session::new();
    assert_eq!(render(&mut s), None);
    assert_eq!(s.resize(1024, 768), Ok(()));
    assert_eq!(render(&mut s), Some(DirtyRect { min_x: 0, min_y: 0, max_x: 1024, max_y: 768 }));
}

#[test]
fn cancel_in_every_state() {
    let mut idle = Session::new();
    assert_eq!(idle.handle(cancel()), Some(Report::Cancelled));
    assert_eq!(idle.input.selection, SelectionState::Terminated { result: None });

    let mut selecting = Session::new();
    selecting.handle(primary(true));
    assert_eq!(selecting.handle(Input::Closed), Some(Report::Cancelled));
    assert_eq!(selecting.input.selection, SelectionState::Terminated { result: None });
    for input in [motion(5, 5), primary(true), primary(false), cancel(), Input::Closed] {
        assert_eq!(selecting.handle(input), None);
    }
}

#[test]
fn idle_release_is_ignored() {
    let mut s = Session::new();
    s.handle(motion(4, 4));
    let before = s.input;
    assert_eq!(s.handle(primary(false)), None);
    assert_eq!(s.input, before);
    assert_eq!(s.handle(primary(false)), None);
    assert_eq!(s.input, before);
}

#[test]
fn other_codes_are_ignored() {
    let mut s = Session::new();
    let before = s.input;
    assert_eq!(s.handle(Input::Button { code: 0x111, pressed: true }), None);
    assert_eq!(s.handle(Input::Key { code: 30, pressed: true }), None);
    assert_eq!(s.handle(Input::Key { code: CANCEL_KEY, pressed: false }), None);
    assert_eq!(s.input, before);
}

#[test]
fn idle_motion_requests_no_redraw() {
    let mut s = Session::new();
    assert_eq!(s.resize(100, 100), Ok(()));
    render(&mut s);
    assert!(!s.needs_redraw());
    s.handle(motion(20, 30));
    assert!(!s.needs_redraw());
    assert_eq!(s.input.pointer, Point { x: 20, y: 30 });
    s.handle(primary(true));
    assert!(s.needs_redraw());
    render(&mut s);
    s.handle(motion(20, 30));
    assert!(!s.needs_redraw());
    s.handle(motion(21, 30));
    assert!(s.needs_redraw());
}

#[test]
fn enter_moves_pointer() {
    let mut s = Session::new();
    s.handle(Input::Enter { pos: Point { x: 12, y: 34 } });
    assert_eq!(s.input.pointer, Point { x: 12, y: 34 });
    s.handle(primary(true));
    assert_eq!(s.input.selection, SelectionState::Selecting { start: Point { x: 12, y: 34 } });
}

#[test]
fn steady_selection_redraws_only_its_box() {
    let mut s = Session::new();
    assert_eq!(s.resize(640, 480), Ok(()));
    assert_eq!(render(&mut s), Some(DirtyRect { min_x: 0, min_y: 0, max_x: 640, max_y: 480 }));
    s.handle(motion(10, 20));
    s.handle(primary(true));
    s.handle(motion(50, 60));
    let b = DirtyRect { min_x: 9, min_y: 19, max_x: 51, max_y: 61 };
    assert_eq!(render(&mut s), Some(b));
    assert_eq!(s.frame.prev_rect, Some(b));
    assert_eq!(render(&mut s), Some(b));
    s.handle(motion(30, 70));
    assert_eq!(render(&mut s), Some(DirtyRect { min_x: 9, min_y: 19, max_x: 51, max_y: 71 }));
}

#[test]
fn resize_resets_slots_and_forces_full_redraw() {
    let mut s = Session::new();
    assert_eq!(s.resize(200, 100), Ok(()));
    s.handle(motion(10, 10));
    s.handle(primary(true));
    s.handle(motion(20, 20));
    render(&mut s);
    assert_eq!(s.frame.active_slot(), 1);
    assert_eq!(s.resize(300, 150), Ok(()));
    assert!(s.needs_redraw());
    assert_eq!(s.frame.byte_len(), 4 * 300 * 150);
    assert_eq!(s.frame.active_slot(), 0);
    assert_eq!(s.frame.inactive_slot(), 1);
    assert_eq!(render(&mut s), Some(DirtyRect { min_x: 0, min_y: 0, max_x: 300, max_y: 150 }));
}

#[test]
fn oversized_viewport_is_refused() {
    let mut s = Session::new();
    assert_eq!(s.resize(65536, 65536), Err(FrameError::TooLarge));
    assert_eq!(s.frame.width, 0);
    assert_eq!(s.frame.byte_len(), 0);
}

#[test]
fn render_on_empty_viewport_does_nothing() {
    let mut s = Session::new();
    assert_eq!(s.resize(0, 50), Ok(()));
    let mut slot: Vec<u8> = Vec::new();
    assert_eq!(s.render(&mut slot[..]), None);
    assert_eq!(s.frame.active_slot(), 0);
}

#[test]
fn idle_motion_redraws_when_enabled() {
    let mut s = Session::with_idle_redraw(true);
    assert_eq!(s.resize(100, 100), Ok(()));
    render(&mut s);
    assert!(!s.needs_redraw());
    s.handle(motion(20, 30));
    assert!(s.needs_redraw());
    render(&mut s);
    s.handle(motion(20, 30));
    assert!(!s.needs_redraw());
}

#[test]
fn dirty_rect_stays_inside_viewport() {
    let mut s = Session::new();
    assert_eq!(s.resize(64, 48), Ok(()));
    s.handle(motion(-30, 200));
    s.handle(primary(true));
    for (x, y) in [(-5, -5), (63, 47), (64, 48), (1000, -1000), (i32::MIN, i32::MAX), (10, 10)] {
        s.handle(motion(x, y));
        let d = render(&mut s).expect("a region");
        assert!(d.min_x < d.max_x && d.max_x <= 64, "{:?}", d);
        assert!(d.min_y < d.max_y && d.max_y <= 48, "{:?}", d);
    }
}
