//! The options the renderer takes on its command line.

use vstd::prelude::*;

verus! {

/// The renderer's command-line options: a single switch that turns off the
/// worker pool and renders on one thread. The default is the threaded render.
pub struct Args {
    /// No multithreading.
    pub single_thread: bool,
}

impl Default for Args {
    fn default() -> (args: Args)
        ensures
            !args.single_thread,
    {
        Args { single_thread: false }
    }
}

} // verus!
