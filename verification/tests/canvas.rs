use eink::canvas::Canvas;

#[test]
fn new_canvas_is_white() {
    let c = Canvas::new(4, 3);
    assert_eq!((c.width(), c.height()), (4, 3));
    for y in 0..3 {
        for x in 0..4 {
            assert!(!c.is_on(x, y));
        }
    }
}

#[test]
fn reads_back_a_set_pixel() {
    let mut c = Canvas::new(4, 3);
    c.set_pixel(2, 1, true);
    assert!(c.is_on(2, 1));
    assert!(!c.is_on(1, 2));
    assert!(!c.is_on(1, 1));
    c.set_pixel(2, 1, false);
    assert!(!c.is_on(2, 1));
}

#[test]
fn ignores_and_reads_out_of_bounds_as_white() {
    let mut c = Canvas::new(4, 3);
    c.set_pixel(-1, 0, true);
    c.set_pixel(4, 0, true);
    c.set_pixel(0, 3, true);
    c.set_pixel(0, -7, true);
    assert_eq!(c.gray_pixels(), vec![255u8; 12]);
    assert!(!c.is_on(10, 10));
}

#[test]
fn exports_black_on_white_samples() {
    let mut c = Canvas::new(3, 2);
    c.set_pixel(0, 0, true);
    c.set_pixel(2, 1, true);
    assert_eq!(c.gray_pixels(), vec![0, 255, 255, 255, 255, 0]);
}

#[test]
fn last_pixel_drawn_wins() {
    let mut c = Canvas::new(3, 2);
    c.set_pixel(0, 0, true);
    c.draw_pixels(&vec![(1, 1, true), (2, 0, true), (1, 1, false), (-1, 0, true), (3, 1, true), (0, 0, false)]);
    assert_eq!((c.width(), c.height()), (3, 2));
    assert!(!c.is_on(0, 0));
    assert!(!c.is_on(1, 1));
    assert!(c.is_on(2, 0));
    assert!(!c.is_on(0, 1));
    assert!(!c.is_on(2, 1));
}
