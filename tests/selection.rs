use region_overlay::geometry::{normalize, outline_box, dirty_area, DirtyRect, Point, Rect};
use region_overlay::selection::SelectionState;

fn pt(x: i32, y: i32) -> Point {
    Point { x, y }
}

#[test]
fn normalize_orders_corners() {
    let r = normalize(pt(300, 260), pt(100, 50));
    assert_eq!(r, Rect { x: 100, y: 50, width: 200, height: 210 });
    assert_eq!(normalize(pt(100, 50), pt(300, 260)), r);
}

#[test]
fn normalize_mixed_corners() {
    let r = normalize(pt(10, 90), pt(40, 20));
    assert_eq!(r, Rect { x: 10, y: 20, width: 30, height: 70 });
}

#[test]
fn normalize_zero_size() {
    assert_eq!(normalize(pt(7, 7), pt(7, 7)), Rect { x: 7, y: 7, width: 0, height: 0 });
}

#[test]
fn normalize_extreme_coordinates() {
    let r = normalize(pt(i32::MIN, i32::MAX), pt(i32::MAX, i32::MIN));
    assert_eq!(r.x, i32::MIN);
    assert_eq!(r.y, i32::MIN);
    assert_eq!(r.width, u32::MAX);
    assert_eq!(r.height, u32::MAX);
}

#[test]
fn press_starts_only_when_idle() {
    let s = SelectionState::Idle.press(pt(3, 4));
    assert_eq!(s, SelectionState::Selecting { start: pt(3, 4) });
    assert_eq!(s.press(pt(9, 9)), s);
}

#[test]
fn release_ends_selection() {
    let s = SelectionState::Selecting { start: pt(5, 5) }.release(pt(1, 8));
    assert_eq!(s, SelectionState::Terminated { result: Some(Rect { x: 1, y: 5, width: 4, height: 3 }) });
    assert_eq!(SelectionState::Idle.release(pt(1, 1)), SelectionState::Idle);
}

#[test]
fn cancel_from_each_state() {
    let none = SelectionState::Terminated { result: None };
    assert_eq!(SelectionState::Idle.cancel(), none);
    assert_eq!(SelectionState::Selecting { start: pt(1, 2) }.cancel(), none);
    assert_eq!(none.cancel(), none);
    assert!(none.is_terminated());
    assert!(!SelectionState::Idle.is_terminated());
}

#[test]
fn outline_box_adds_margin() {
    let b = outline_box(1920, 1080, pt(100, 50), pt(300, 260));
    assert_eq!(b, DirtyRect { min_x: 99, min_y: 49, max_x: 301, max_y: 261 });
}

#[test]
fn outline_box_clips_to_viewport() {
    let b = outline_box(800, 600, pt(-20, 0), pt(900, 700));
    assert_eq!(b, DirtyRect { min_x: 0, min_y: 0, max_x: 800, max_y: 600 });
    let c = outline_box(800, 600, pt(1000, 1000), pt(2000, 2000));
    assert_eq!(c, DirtyRect { min_x: 799, min_y: 599, max_x: 800, max_y: 600 });
}

#[test]
fn dirty_area_unions_boxes() {
    let a = DirtyRect { min_x: 10, min_y: 10, max_x: 20, max_y: 20 };
    let b = DirtyRect { min_x: 15, min_y: 5, max_x: 30, max_y: 12 };
    assert_eq!(dirty_area(100, 100, false, Some(a), Some(b)), DirtyRect { min_x: 10, min_y: 5, max_x: 30, max_y: 20 });
    assert_eq!(dirty_area(100, 100, false, None, Some(b)), b);
    assert_eq!(dirty_area(100, 100, false, Some(a), None), a);
    assert_eq!(dirty_area(100, 100, false, None, None), DirtyRect { min_x: 0, min_y: 0, max_x: 100, max_y: 100 });
    assert_eq!(dirty_area(100, 100, true, Some(a), Some(b)), DirtyRect { min_x: 0, min_y: 0, max_x: 100, max_y: 100 });
}
