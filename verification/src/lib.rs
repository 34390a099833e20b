use vstd::prelude::*;

pub mod engine;
pub mod fs_model;
pub mod paths;
pub mod patterns;
pub mod validate;

verus! {

/// Configuration for one batch copy run: which patterns select files,
/// where they come from and go to, and how copying behaves.
pub struct Opt {
    pub excludes: Vec<String>,
    pub num_threads: usize,
    pub ignore_case: bool,
    pub create_dest: bool,
    pub no_overwrite: bool,
    pub patterns: Vec<String>,
    pub source: String,
    pub dest: String,
}

} // verus!
