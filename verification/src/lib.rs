//! A small image-effect command-line library: effect-name dispatch,
//! parameter parsing, and the raster assembly of a generated fractal.
//!
//! The binary around this library opens, transforms and saves image
//! files and runs the floating-point escape-time iteration; everything
//! it decides — which handler an effect name selects, how parameters
//! and default values are read, and which bytes make up the fractal
//! raster — is specified and verified here.

pub mod cli;
pub mod crop;
pub mod effects;
pub mod fractal;
pub mod numerals;
