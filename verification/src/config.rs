//! Configuration values consumed by the parsing core and its collaborators.

use vstd::prelude::*;

verus! {

/// Quality level for visual effects.
#[derive(Debug, Clone, Copy, PartialEq, Eq, Structural)]
pub enum EffectQuality {
    Low,
    Medium,
    High,
    Ultra,
}

/// Configuration of the MIDI ingestion path.
#[derive(Debug, Clone)]
pub struct MidiConfig {
    pub streaming_enabled: bool,
    pub buffer_size: usize,
}

impl Default for MidiConfig {
    /// Streaming on, with a 64 KiB buffer.
    fn default() -> (c: MidiConfig)
        ensures
            c.streaming_enabled == true,
            c.buffer_size == 65536,
    {
        MidiConfig { streaming_enabled: true, buffer_size: 65536 }
    }
}

} // verus!
