use rtracer::Intersection;

#[test]
fn an_intersection_encapsulates_t_and_object() {
    let i = Intersection::new(35, 0);

    assert_eq!(i.t(), 35);
    assert_eq!(i.object(), 0);
}

#[test]
fn the_hit_when_all_intersections_have_positive_t() {
    let i1 = Intersection::new(1, 0);
    let i2 = Intersection::new(2, 0);

    let intersections = vec![i1, i2];
    let hit = Intersection::hit(intersections).unwrap();

    assert_eq!(hit, i1);
}

#[test]
fn the_hit_when_some_intersections_have_negative_t() {
    let i1 = Intersection::new(-1, 0);
    let i2 = Intersection::new(1, 0);

    let intersections = vec![i1, i2];
    let hit = Intersection::hit(intersections).unwrap();

    assert_eq!(hit, i2);
}

#[test]
fn the_hit_when_all_intersections_have_negative_t() {
    let i1 = Intersection::new(-2, 0);
    let i2 = Intersection::new(-1, 0);

    let intersections = vec![i1, i2];
    let hit = Intersection::hit(intersections);

    assert_eq!(hit, None);
}

#[test]
fn the_hit_is_always_the_lowest_nonnegative_intersection() {
    let i1 = Intersection::new(5, 0);
    let i2 = Intersection::new(7, 0);
    let i3 = Intersection::new(-3, 0);
    let i4 = Intersection::new(2, 0);
    let hit = Intersection::hit(vec![i1, i2, i3, i4]).unwrap();

    assert_eq!(hit, i4);
}

#[test]
fn the_hit_of_no_candidates_is_none() {
    assert_eq!(Intersection::hit(vec![]), None);
}

#[test]
fn a_candidate_exactly_at_the_ray_origin_counts_as_a_hit() {
    let i1 = Intersection::new(0, 3);
    let i2 = Intersection::new(5, 4);

    let hit = Intersection::hit(vec![i2, i1]).unwrap();

    assert_eq!(hit, i1);
}
