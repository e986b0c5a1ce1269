use region_overlay::cursor::{load_cursor, prepare_cursor, swap_red_blue};
use region_overlay::geometry::Point;

#[test]
fn swap_exchanges_red_and_blue() {
    let mut v = vec![1u8, 2, 3, 4, 5, 6, 7, 8, 9, 10];
    swap_red_blue(&mut v);
    assert_eq!(v, vec![3, 2, 1, 4, 7, 6, 5, 8, 9, 10]);
}

#[test]
fn prepare_sets_hotspot_at_centre() {
    let c = prepare_cursor(5, 4, vec![0u8; 80]);
    assert_eq!(c.hotspot, Point { x: 2, y: 2 });
    assert_eq!(c.pixels.len(), 80);
}

#[test]
fn load_rejects_garbage() {
    assert!(load_cursor(&[1, 2, 3, 4]).is_none());
}

#[test]
fn load_decodes_png() {
    let img = image::RgbaImage::from_raw(2, 1, vec![10, 20, 30, 40, 50, 60, 70, 80]).unwrap();
    let mut bytes: Vec<u8> = Vec::new();
    img.write_to(&mut std::io::Cursor::new(&mut bytes), image::ImageFormat::Png).unwrap();
    let c = load_cursor(&bytes).expect("decodes");
    assert_eq!((c.width, c.height), (2, 1));
    assert_eq!(c.pixels, vec![30, 20, 10, 40, 70, 60, 50, 80]);
    assert_eq!(c.hotspot, Point { x: 1, y: 0 });
}
