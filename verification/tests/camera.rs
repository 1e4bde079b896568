use rusty_sandbox::camera::{Camera, Pan, MAX_ZOOM};
use rusty_sandbox::path::Point;

#[test]
fn camera_starts_without_zoom_or_offset() {
    let camera = Camera::new();
    assert_eq!(camera.zoom(), 1);
    assert_eq!(camera.offset_x(), 0);
    assert_eq!(camera.offset_y(), 0);
}

#[test]
fn zoom_stays_between_one_and_five() {
    let mut camera = Camera::new();
    camera.zoom_out();
    assert_eq!(camera.zoom(), 1);
    for expected in 2..=5 {
        camera.zoom_in();
        assert_eq!(camera.zoom(), expected);
    }
    camera.zoom_in();
    assert_eq!(camera.zoom(), 5);
    assert_eq!(MAX_ZOOM, 5);
    camera.zoom_out();
    assert_eq!(camera.zoom(), 4);
}

#[test]
fn pan_moves_the_offset_by_one() {
    let mut camera = Camera::new();
    camera.pan(Pan::Up);
    assert_eq!((camera.offset_x(), camera.offset_y()), (0, 1));
    camera.pan(Pan::Left);
    assert_eq!((camera.offset_x(), camera.offset_y()), (1, 1));
    camera.pan(Pan::Down);
    camera.pan(Pan::Down);
    assert_eq!((camera.offset_x(), camera.offset_y()), (1, -1));
    camera.pan(Pan::Right);
    camera.pan(Pan::Right);
    assert_eq!((camera.offset_x(), camera.offset_y()), (-1, -1));
}

#[test]
fn can_pan_until_the_offset_is_at_its_limit() {
    let mut camera = Camera::new();
    for _ in 0..i16::MAX {
        assert!(camera.can_pan(Pan::Up));
        camera.pan(Pan::Up);
    }
    assert_eq!(camera.offset_y(), i16::MAX);
    assert!(!camera.can_pan(Pan::Up));
    assert!(camera.can_pan(Pan::Down));
    assert!(camera.can_pan(Pan::Left));
    assert!(camera.can_pan(Pan::Right));
}

#[test]
fn to_grid_divides_by_the_zoom_and_takes_off_the_offset() {
    let mut camera = Camera::new();
    assert_eq!(camera.to_grid(37, 12), Point { x: 37, y: 12 });
    camera.zoom_in();
    camera.zoom_in();
    assert_eq!(camera.to_grid(37, 12), Point { x: 12, y: 4 });
    camera.pan(Pan::Left);
    camera.pan(Pan::Down);
    assert_eq!(camera.to_grid(37, 12), Point { x: 11, y: 5 });
    assert_eq!(camera.to_grid(0, 0), Point { x: -1, y: 1 });
    assert_eq!(camera.to_grid(u16::MAX, u16::MAX), Point { x: 21844, y: 21846 });
}
