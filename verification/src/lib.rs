use vstd::prelude::*;

pub mod test_support;
pub mod text;
pub mod beat;
pub mod color;
pub mod scheduler;
pub mod orientation;
pub mod rng;
pub mod scan;
pub mod xml;
pub mod config;
pub mod madmom;
pub mod outputs;
pub mod visualizers;
pub mod server;
pub mod midi;
pub mod volume;
pub mod palette_names;
pub mod frame_hash;
pub mod flash;
pub mod diagnostics;
pub mod adsr;
pub mod link;
