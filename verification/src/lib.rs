//! Core of a Monte-Carlo path tracer that renders a scene of spheres into a
//! plain-text image.
//!
//! The floating-point geometry (vectors, rays, materials, the integrator)
//! runs in the unverified front end; this library holds the parts whose
//! behaviour can be stated and proved over plain values:
//!
//! - the render schedule: how many workers to run and in which order image
//!   rows are handed out ([`schedule`]);
//! - the reorder buffer that restores strict top-to-bottom row order from
//!   workers that finish out of order ([`reorder`]);
//! - the text side of the image format: decimal formatting, the image header,
//!   pixel rows, and the coordinate-gradient image ([`text`], [`ppm`]);
//! - the command-line options the renderer accepts ([`cli`]).

pub mod cli;
pub mod color;
pub mod ppm;
pub mod reorder;
pub mod schedule;
pub mod text;
