//! A software renderer: scenes of placed models projected through a pinhole
//! camera and drawn, as outlines or filled or shaded triangles, onto a
//! buffer of pixels, with no help from graphics hardware.
//!
//! Every quantity is an integer. Pixel coordinates are whole numbers; the
//! real numbers of the scene (coordinates in space, entries of transforms,
//! intensities of light) are [`fixed::Fixed`] numbers with sixteen
//! fractional bits; and what is interpolated between two pixels is kept as
//! an exact fraction ([`ratio::Ratio`]) until the moment it is turned into
//! a pixel, so that a line ends exactly where it was asked to end and two
//! sides of a triangle compare as the true lines do.
//!
//! The modules, leaves first:
//!
//! - [`ratio`], [`fixed`]: exact fractions and fixed-point numbers.
//! - [`interp`]: the linear ramp between two values over a range of pixels.
//! - [`point`], [`color`], [`matrix`]: points, colours and 4x4 transforms.
//! - [`canvas`]: the pixel buffer and its centred coordinates.
//! - [`raster`], [`fill`], [`shade`]: lines and outlines, filled triangles,
//!   shaded triangles.
//! - [`model`], [`projection`], [`scene`]: models and their instances, the
//!   way from space to the canvas, and the rendering of a frame.
//! - [`outline`], [`setup`]: a box drawn by its edges, and the example scene.
//! - [`line_laws`], [`fill_laws`], [`matrix_laws`]: what holds of every
//!   line, of every filled triangle and of the transforms.
//!
//! Nothing is ever written outside the buffer: a figure that does not lie
//! on the canvas, or a point that cannot be projected, is reported to the
//! caller and leaves the canvas as it was.

pub mod canvas;
pub mod color;
pub mod fill;
pub mod fill_laws;
pub mod fixed;
pub mod interp;
pub mod line_laws;
pub mod matrix;
pub mod matrix_laws;
pub mod model;
pub mod outline;
pub mod point;
pub mod projection;
pub mod raster;
pub mod ratio;
pub mod scene;
pub mod setup;
pub mod shade;
