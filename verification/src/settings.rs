//! The settings the core keeps besides the floating-point gain.
use vstd::prelude::*;

verus! {

/// How the voice key starts a session: only hold-to-talk exists.
#[derive(Debug, Clone, Copy, PartialEq, Eq, Structural, Hash)]
pub enum VoiceTriggerMode {
    Hold,
}

impl Default for VoiceTriggerMode {
    fn default() -> (r: Self)
        ensures
            r == VoiceTriggerMode::Hold,
    {
        VoiceTriggerMode::Hold
    }
}

} // verus!
