//! The command-line surface as a plain value; reading the process arguments
//! happens outside.

use vstd::prelude::*;

verus! {

/// What the command line asks for.
#[derive(Debug)]
pub struct Args {
    /// The targets file to scan.
    pub in_file: String,
    /// The output directory for results.
    pub out_dir: String,
    /// The port(s) to detect.
    pub ports: Option<Vec<u16>>,
    /// The number of threads.
    pub th_num: Option<usize>,
    /// Request timeout in seconds.
    pub timeout: Option<u64>,
    /// Disable snapshot capture.
    pub disable_snapshot: bool,
    /// Enable debug mode.
    pub debug: bool,
}

} // verus!
