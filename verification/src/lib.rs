//! A path tracer for scenes of spheres.
//!
//! A picture is made pixel by pixel: the camera sends rays through each
//! pixel, each ray is followed from surface to surface until it is absorbed,
//! leaves the scene or has bounced often enough, and the light that arrives
//! along the rays of a pixel is summed.
//!
//! Every number is an IEEE 754 double held by its bit pattern, see
//! [`double::Double`]. What a pattern says of sign, class, order and whole
//! part is verified. Sums, products, quotients, roots, sines and cosines are
//! computed by software arithmetic and stand in the contracts under names:
//! a contract says which operations a result is made of and in which order,
//! not what number comes out.
//!
//! What follows from random draws is computed by functions that take the
//! draws as arguments and have exact contracts. The functions that draw say
//! that their result is what those return for some draws that can occur.

pub mod camera;
pub mod color;
pub mod double;
pub mod hittable;
pub mod hittable_list;
pub mod material;
pub mod ray;
pub mod renderer;
pub mod rtweekend;
pub mod scene;
pub mod sphere;
pub mod vec3;
