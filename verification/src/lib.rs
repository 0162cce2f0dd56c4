//! The intersection core of a small ray tracer.
//!
//! A ray is cast into a world of primitives, and the world answers with the
//! nearest hit inside a parameter interval, or with nothing. Numbers are
//! binary64 values held by their encodings ([`scalar::Scalar`]): this crate
//! compares them, negates them and builds them from integers, all exactly,
//! and leaves rounded arithmetic to its callers, who hand in what they have
//! computed. What is decided here is proved: which of two roots counts as the
//! hit of a sphere, which way a surface normal is stored, and which of the
//! hits reported by the primitives of a world is the nearest.
pub mod hittable;
pub mod hittable_list;
pub mod nearest;
pub mod progress;
pub mod ray;
pub mod scalar;
pub mod sphere;
pub mod vec3;
pub mod world;
