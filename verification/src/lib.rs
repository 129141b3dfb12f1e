//! Core logic of an offline ray-tracing renderer.
//!
//! The renderer casts one ray per pixel through a virtual camera into a scene
//! of transformed shapes, picks the nearest visible intersection, and shades
//! it with a Phong model and hard shadows.  This crate holds the parts of that
//! pipeline whose behaviour is discrete and order-based — the closed set of
//! shape kinds, intersection records and the nearest-valid-hit rule, the
//! shadow-occlusion decision, the pixel buffer, the pixel enumeration and
//! write-back of a full-image render, and the chunked incremental work
//! scheduler — each with a verified contract.

mod canvas;
mod intersection;
mod matrix;
mod render;
mod shape;
mod worker;
mod world;

pub use canvas::Canvas;
pub use intersection::Intersection;
pub use matrix::skip_index;
pub use matrix::MatrixMethods;
pub use render::apply_writes;
pub use render::pixel_coordinates;
pub use render::write_results;
pub use shape::ShapeType;
pub use worker::Worker;
pub use worker::WorkerState;
pub use world::all_lights_occluded;
pub use world::lemma_first_nonnegative_of_sorted_is_hit;
pub use world::light_occluded;
pub use world::sort_intersections;
pub use world::sorted_by_t;
pub use world::World;
pub use world::WorldImpl;
