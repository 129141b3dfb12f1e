use rtracer::pixel_coordinates;
use rtracer::write_results;
use rtracer::Canvas;

#[test]
fn pixel_coordinates_cover_the_image_row_by_row() {
    let points = pixel_coordinates(3, 2);

    assert_eq!(
        points,
        vec![(0, 0), (0, 1), (0, 2), (1, 0), (1, 1), (1, 2)]
    );
}

#[test]
fn pixel_coordinates_of_an_empty_image() {
    assert_eq!(pixel_coordinates(0, 5), vec![]);
    assert_eq!(pixel_coordinates(5, 0), vec![]);
}

#[test]
fn write_back_commits_every_result_in_order() {
    let mut canvas: Canvas<u32> = Canvas::new(3, 2, 0);
    // (row, column, color) triples; the later write to (0, 1) wins.
    let results = vec![(0, 1, 5), (1, 2, 7), (0, 1, 9)];

    write_results(&mut canvas, &results);

    assert_eq!(canvas.pixel_at(1, 0), 9);
    assert_eq!(canvas.pixel_at(2, 1), 7);
    assert_eq!(canvas.pixel_at(0, 0), 0);
}
