use rtracer::Canvas;

#[test]
fn can_create_a_canvas() {
    let c: Canvas<u32> = Canvas::new(10, 20, 0);

    assert_eq!(c.width(), 10);
    assert_eq!(c.height(), 20);
    for y in 0..20 {
        for x in 0..10 {
            assert_eq!(c.pixel_at(x, y), 0);
        }
    }
}

#[test]
fn canvas_pixels_be_set_to_a_color() {
    let mut c: Canvas<u32> = Canvas::new(10, 20, 0);
    let red = 0x00FF0000;
    c.write_pixel(2, 3, red);

    assert_eq!(c.pixel_at(2, 3), red);
    // Neighbours keep their old value.
    assert_eq!(c.pixel_at(3, 2), 0);
    assert_eq!(c.pixel_at(1, 3), 0);
    assert_eq!(c.pixel_at(2, 4), 0);
}
