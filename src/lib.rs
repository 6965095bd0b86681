//! Verified core of a small ray tracer: colours and their channel arithmetic,
//! textures, the nearest-hit and shadow decisions, the reflection depth guard,
//! and the assembly of the rendered picture.
pub mod base;
pub mod frame;
pub mod material;
pub mod scene;
