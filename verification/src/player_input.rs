//! Descriptors for the playback-side audio inputs. Playback itself — probing,
//! decoding and the engine's track machinery — is the engine's concern; this
//! library only carries these plain descriptors.

use vstd::prelude::*;

verus! {

/// Base marker for every audio input kind handed to the playback side.
pub struct PyInputBase;

impl PyInputBase {
    /// Create the base marker.
    pub fn new() -> (r: Self)
        ensures
            r == (PyInputBase {  }),
    {
        Self {  }
    }
}

/// The source encodings the playback side accepts.
#[derive(Debug, Clone, Copy, PartialEq, Eq, Structural)]
pub enum SupportedCodec {
    /// Raw stereo PCM samples.
    PCM,
    MP3,
    WAVE,
    MKV,
    FLAC,
    AAC,
}

} // verus!
