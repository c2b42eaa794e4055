//! The verified part of a ray tracer: everything about a render that is
//! counted rather than measured.
//!
//! - `layout` and `shading` say what the bytes of a picture are, how its rows
//!   are shared among workers, and why the picture does not depend on the
//!   number of workers.
//! - `renderdata` holds the raster and fills it, band by band, with the
//!   colours of a shading function.
//! - `encode` turns the bytes into a PPM and a PNG file.
//! - `trace` decides what a ray contributes once it is known whether it hit.
//! - `matrix` holds a 4 by 4 grid of coefficients of any kind and transposes
//!   it.
//! - `scene_text` and `scene_lines` read the numbers and names of a scene
//!   description, and `options` reads the command line.

pub mod encode;
pub mod layout;
pub mod matrix;
pub mod options;
pub mod renderdata;
pub mod scene_lines;
pub mod scene_text;
pub mod shading;
pub mod trace;
