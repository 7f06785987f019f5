//! Verified core of an interactive Mandelbrot-set explorer.
//!
//! The complex plane is modelled in signed fixed-point arithmetic
//! (`fixed::SCALE` ticks per unit), so that the escape-time kernel, the
//! palette lookup and the viewport controller are exact integer functions
//! whose behaviour is stated in contracts and proved.  The rendering device
//! and the browser event glue live outside the library and exchange plain
//! values with it.

pub mod fixed;
pub mod kernel;
pub mod palette;
pub mod viewport;
