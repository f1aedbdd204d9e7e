//! Session options of the remote model service.
use vstd::prelude::*;

verus! {

/// Response modality options.
#[derive(Clone, Copy, Debug, PartialEq, Eq, Structural)]
pub enum ResponseModality {
    Text,
    Audio,
}

impl ResponseModality {
    pub open spec fn spec_name(self) -> Seq<char> {
        match self {
            ResponseModality::Text => "TEXT"@,
            ResponseModality::Audio => "AUDIO"@,
        }
    }

    /// The protocol's name for the modality.
    pub fn as_str(&self) -> (r: &'static str)
        ensures
            r@ == self.spec_name(),
    {
        match self {
            ResponseModality::Text => "TEXT",
            ResponseModality::Audio => "AUDIO",
        }
    }
}

/// Media resolution options for video input.
#[derive(Clone, Copy, Debug, PartialEq, Eq, Structural)]
pub enum MediaResolution {
    Low,
    Medium,
    High,
}

impl MediaResolution {
    pub open spec fn spec_name(self) -> Seq<char> {
        match self {
            MediaResolution::Low => "MEDIA_RESOLUTION_LOW"@,
            MediaResolution::Medium => "MEDIA_RESOLUTION_MEDIUM"@,
            MediaResolution::High => "MEDIA_RESOLUTION_HIGH"@,
        }
    }

    /// The protocol's name for the resolution.
    pub fn as_str(&self) -> (r: &'static str)
        ensures
            r@ == self.spec_name(),
    {
        match self {
            MediaResolution::Low => "MEDIA_RESOLUTION_LOW",
            MediaResolution::Medium => "MEDIA_RESOLUTION_MEDIUM",
            MediaResolution::High => "MEDIA_RESOLUTION_HIGH",
        }
    }
}

} // verus!
