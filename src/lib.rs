//! Phong shading of a single surface point under one ambient and one
//! directional light, computed in exact integer and fixed-point arithmetic.

pub mod color;
pub mod lights;
pub mod vector;
