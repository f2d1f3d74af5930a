use vstd::prelude::*;

pub mod audio;
pub mod commands;
pub mod common;
pub mod error;
pub mod mod_format;
pub mod model;
pub mod numeric;
pub mod options;
pub mod sample_file;
pub mod text;
pub mod xml;
pub mod xrns;
pub mod xm_format;

verus! {

} // verus!
