//! The settings given on the command line.
use vstd::prelude::*;

verus! {

/// The settings of a run.
#[derive(Debug)]
pub struct Flags {
    pub non_interactive: bool,
    pub plugins_dir: String,
    pub config_path: String,
    pub current_dir: String,
    pub no_install: bool,
}

} // verus!
