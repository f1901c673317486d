//! The audible cues played at the edges of a dictation. The tones
//! themselves are synthesised and played by the application; the library
//! fixes which cue exists and the file each one is kept in.
use vstd::prelude::*;

verus! {

#[derive(Debug, Clone, Copy, PartialEq, Eq, Structural)]
pub enum Cue {
    Start,
    Stop,
    Error,
}

pub open spec fn spec_cue_file_name(cue: Cue) -> Seq<char> {
    match cue {
        Cue::Start => "start.wav"@,
        Cue::Stop => "stop.wav"@,
        Cue::Error => "error.wav"@,
    }
}

impl Cue {
    /// The name of the file, in the sounds directory, that holds this cue.
    pub fn file_name(self) -> (r: &'static str)
        ensures
            r@ == spec_cue_file_name(self),
    {
        match self {
            Cue::Start => "start.wav",
            Cue::Stop => "stop.wav",
            Cue::Error => "error.wav",
        }
    }
}

} // verus!
