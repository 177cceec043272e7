//! A small ray tracer, verified.
//!
//! The library computes where rays meet spheres and how the surface is lit
//! there: tuples for points and vectors, four-by-four matrices with
//! determinant and inverse by cofactor expansion, the affine transforms, the
//! ray-sphere intersection, the choice of the visible intersection, and the
//! Phong lighting model. A canvas collects the colours and writes them out
//! as plain text.
//!
//! All numbers are decimal fixed-point scalars (`float::MyFloat`), so every
//! operation has an exact meaning that the contracts state. The length of
//! a tuple, its normalizing and the intersection of a ray with a sphere
//! keep their intermediate results unrounded, in whole numbers of up to 256
//! bits (`wide`), and round once at the end. What takes machine floating
//! point (powers with a fractional exponent, sines and cosines) is left to
//! the caller, who hands the results in as scalars.
pub mod array2d;
pub mod canvas;
pub mod color;
pub mod decimal;
pub mod float;
pub mod intersection;
pub mod light;
pub mod material;
pub mod matrix2;
pub mod matrix3;
pub mod matrix4;
pub mod point;
pub mod ray;
pub mod shape;
pub mod transform;
pub mod tuple;
pub mod unit_length;
pub mod wide;
pub mod world;
