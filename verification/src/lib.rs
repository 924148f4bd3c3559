//! A path-tracing renderer whose arithmetic is exact: every scalar is a
//! saturating Q47.16 fixed-point number carried in an `i64`, so every
//! geometric and radiometric computation has a precise mathematical
//! specification and is verified against it.

pub mod fx;
pub mod rng;
pub mod vec3;
pub mod interval;
pub mod ray;
pub mod aabb;
pub mod trig;
pub mod onb;
pub mod hittable;
pub mod sphere;
pub mod quad;
pub mod perlin;
pub mod texture;
pub mod material;
pub mod bvh;
pub mod hittable_list;
pub mod translate;
pub mod medium;
pub mod color;
pub mod pdf;
pub mod camera;
