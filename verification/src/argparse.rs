//! An alternative command-line surface kept alongside `Args`, with paths
//! and a fixed thread default.

use vstd::prelude::*;

verus! {

/// What the alternative command line asks for.
#[derive(Debug)]
pub struct Cli {
    pub input_file: String,
    pub output_file: String,
    pub ports: Option<Vec<u16>>,
    pub thread_nums: usize,
    pub timeout: u64,
    pub disable_snapshot: bool,
    pub debug: bool,
}

impl Cli {
    /// Bundles parsed options into the surface value.
    pub fn new(
        input_file: String,
        output_file: String,
        ports: Option<Vec<u16>>,
        thread_nums: usize,
        timeout: u64,
        disable_snapshot: bool,
        debug: bool,
    ) -> (r: Self)
        ensures
            r.input_file == input_file,
            r.output_file == output_file,
            r.ports == ports,
            r.thread_nums == thread_nums,
            r.timeout == timeout,
            r.disable_snapshot == disable_snapshot,
            r.debug == debug,
    {
        Cli { input_file, output_file, ports, thread_nums, timeout, disable_snapshot, debug }
    }
}

} // verus!
