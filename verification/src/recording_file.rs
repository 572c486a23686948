use vstd::prelude::*;

use crate::recordings;
use crate::rules;

verus! {

/// The versioned document a finished game is saved as: the recording
/// together with the rules it was played under and the final tallies, enough
/// to reproduce or summarise the game later.
#[derive(Debug)]
pub struct RecordingFile {
    pub version: u32,
    pub recording: recordings::Recording,
    pub rules: rules::Rules,
    pub final_score: u32,
    pub final_lines_cleared: u32,
}

impl RecordingFile {
    /// Bundle a finished game's artifacts under a format version.
    pub fn new(
        version: u32,
        rules: rules::Rules,
        recording: recordings::Recording,
        final_score: u32,
        final_lines_cleared: u32,
    ) -> (f: RecordingFile)
        ensures
            f.version == version,
            f.rules == rules,
            f.recording == recording,
            f.final_score == final_score,
            f.final_lines_cleared == final_lines_cleared,
    {
        RecordingFile { version, recording, rules, final_score, final_lines_cleared }
    }
}

} // verus!
