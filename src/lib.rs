//! Small verified utilities: integer helpers, string helpers, rectangles,
//! traffic lights, and in-memory sequence, counting-map and set operations.

pub mod numbers;
pub mod text;
pub mod token_map;
pub mod sequences;
pub mod sets;
pub mod geometry;
pub mod traffic;
