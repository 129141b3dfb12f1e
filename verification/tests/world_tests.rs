use rtracer::all_lights_occluded;
use rtracer::light_occluded;
use rtracer::sort_intersections;
use rtracer::Intersection;
use rtracer::World;

#[test]
fn creating_a_world() {
    let world: World<i64, i64> = World::new();
    let scene = world.generate();

    assert_eq!(scene.lights(), vec![]);
    assert_eq!(scene.objects(), vec![]);
}

#[test]
fn the_builder_accumulates_lights_and_objects_in_order() {
    let scene = World::new()
        .add_light(7)
        .add_object(100)
        .add_light(8)
        .add_object(200)
        .generate();

    assert_eq!(scene.lights(), vec![7, 8]);
    assert_eq!(scene.objects(), vec![100, 200]);
}

#[test]
fn resetting_the_lights_keeps_the_objects() {
    let scene = World::new()
        .add_light(7)
        .add_object(100)
        .reset_lights()
        .add_light(9)
        .generate();

    assert_eq!(scene.lights(), vec![9]);
    assert_eq!(scene.objects(), vec![100]);
}

#[test]
fn sorting_orders_candidates_by_t() {
    let v = vec![
        Intersection::new(7, 0),
        Intersection::new(-3, 1),
        Intersection::new(5, 2),
        Intersection::new(2, 3),
    ];

    let sorted = sort_intersections(v);

    let ts: Vec<i64> = sorted.iter().map(|i| i.t()).collect();
    assert_eq!(ts, vec![-3, 2, 5, 7]);
    let shapes: Vec<usize> = sorted.iter().map(|i| i.object()).collect();
    assert_eq!(shapes, vec![1, 3, 2, 0]);
}

#[test]
fn sorting_keeps_equal_candidates() {
    let v = vec![
        Intersection::new(2, 0),
        Intersection::new(2, 1),
        Intersection::new(1, 2),
    ];

    let sorted = sort_intersections(v);

    let ts: Vec<i64> = sorted.iter().map(|i| i.t()).collect();
    assert_eq!(ts, vec![1, 2, 2]);
    // Both candidates at t = 2 survive, whatever their order.
    let mut shapes: Vec<usize> = sorted[1..].iter().map(|i| i.object()).collect();
    shapes.sort();
    assert_eq!(shapes, vec![0, 1]);
}

#[test]
fn a_light_is_occluded_by_a_strictly_closer_hit() {
    let hit = Some(Intersection::new(4, 0));

    assert!(light_occluded(hit, 10));
}

#[test]
fn a_hit_beyond_the_light_does_not_occlude() {
    let hit = Some(Intersection::new(12, 0));

    assert!(!light_occluded(hit, 10));
}

#[test]
fn a_hit_exactly_at_the_light_does_not_occlude() {
    let hit = Some(Intersection::new(10, 0));

    assert!(!light_occluded(hit, 10));
}

#[test]
fn no_hit_means_no_occlusion() {
    assert!(!light_occluded(None, 10));
}

#[test]
fn the_shadow_flag_needs_every_light_occluded() {
    assert!(all_lights_occluded(&vec![true, true, true]));
    assert!(!all_lights_occluded(&vec![true, false, true]));
    assert!(!all_lights_occluded(&vec![false]));
    // With no lights at all the flag holds vacuously.
    assert!(all_lights_occluded(&vec![]));
}
