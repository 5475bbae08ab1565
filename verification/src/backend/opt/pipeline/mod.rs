pub mod dead_code;
pub mod folding;
pub mod math_utils;
pub mod semantics;
pub mod strength;
