//! Verified text handling of the `curvas` geodesic curve tool: command-line
//! interpretation, polygon vertex files, output file naming and KML assembly.
//! The floating-point geodesy itself lives in the application crate.

pub mod text;
pub mod cli;
pub mod polygon;
pub mod output;
