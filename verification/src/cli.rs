//! Command-line configuration of the editor. The binary parses the real
//! command line and hands the values over in this plain form.

use vstd::prelude::*;

verus! {

/// The editor's command-line options.
#[derive(Debug)]
pub struct CliArgs {
    /// A name overriding the default graphics device, if given.
    pub rend_device: Option<String>,
    /// Force the graphics API's validation layers on.
    pub rend_validation: bool,
    /// Override the number of frames in flight, if given.
    pub rend_frames_in_flight: Option<u32>,
}

impl CliArgs {
    /// The number of frames in flight to use: the override when one was
    /// given, the supplied default otherwise.
    pub fn frames_in_flight(&self, default_frames: u32) -> (n: u32)
        ensures
            n == match self.rend_frames_in_flight {
                Some(v) => v,
                None => default_frames,
            },
    {
        match &self.rend_frames_in_flight {
            Some(v) => *v,
            None => default_frames,
        }
    }
}

} // verus!
