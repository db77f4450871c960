//! Capture-source configuration.
//!
//! The capturer itself — connecting to the audio server and pumping raw
//! PCM chunks into the pipeline — is an external collaborator; the core
//! only carries its configuration: which capture source to open.

use vstd::prelude::*;

verus! {

/// Configuration of the audio capture boundary: the name of the source
/// the backend should record from.
pub struct AudioCapturer {
    /// Name of the capture source, as the audio backend knows it.
    pub source_name: String,
}

impl AudioCapturer {
    /// Remember the capture source to open.
    pub fn new(source_name: &str) -> (r: AudioCapturer)
        ensures
            r.source_name@ == source_name@,
    {
        AudioCapturer { source_name: source_name.to_owned() }
    }
}

} // verus!
