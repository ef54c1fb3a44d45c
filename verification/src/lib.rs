//! The core of a path tracer: bounding boxes and the hierarchy built over
//! them, the search for the nearest hit, the decisions that primitives and
//! materials take, the lattice of Perlin noise, image textures, and the
//! bookkeeping of a render shared among workers.
//!
//! The library never computes with real numbers. It knows every coordinate,
//! ray parameter and colour part by its rank, a 64-bit integer that is
//! ordered as the real number is, and it states and proves what follows from
//! order alone: which box holds which, which hit is nearest, which branch is
//! taken. The arithmetic in between belongs to the caller, who hands its
//! results in as ranks.

pub mod aabb;
pub mod arrange;
pub mod bvh;
pub mod hittable;
pub mod hull;
pub mod instance;
pub mod material;
pub mod math;
pub mod nearest;
pub mod objects;
pub mod perlin;
pub mod random;
pub mod ray;
pub mod record;
pub mod rectangle;
pub mod render;
pub mod scene;
pub mod texture;
pub mod volumes;
pub mod workers;
