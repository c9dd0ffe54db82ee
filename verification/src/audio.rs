//! Audio formats, containers, and the table from container and quality level
//! to format.

use vstd::prelude::*;

verus! {

/// An audio encoding that the service can deliver.
#[derive(Clone, Copy, Debug, PartialEq, Eq, Structural, Hash)]
pub enum AudioFormat {
    AmrWb16000Hz,
    Audio16Khz128KBitRateMonoMp3,
    Audio16Khz16Bit32KbpsMonoOpus,
    Audio16Khz32KBitRateMonoMp3,
    Audio16Khz64KBitRateMonoMp3,
    Audio24Khz160KBitRateMonoMp3,
    Audio24Khz16Bit24KbpsMonoOpus,
    Audio24Khz16Bit48KbpsMonoOpus,
    Audio24Khz48KBitRateMonoMp3,
    Audio24Khz96KBitRateMonoMp3,
    Audio48Khz192KBitRateMonoMp3,
    Audio48Khz96KBitRateMonoMp3,
    Ogg16Khz16BitMonoOpus,
    Ogg24Khz16BitMonoOpus,
    Ogg48Khz16BitMonoOpus,
    Raw16Khz16BitMonoPcm,
    Raw16Khz16BitMonoTrueSilk,
    Raw22050Hz16BitMonoPcm,
    Raw24Khz16BitMonoPcm,
    Raw24Khz16BitMonoTrueSilk,
    Raw44100Hz16BitMonoPcm,
    Raw48Khz16BitMonoPcm,
    Raw8Khz16BitMonoPcm,
    Raw8Khz8BitMonoALaw,
    Raw8Khz8BitMonoMULaw,
    Riff16Khz16BitMonoPcm,
    Riff22050Hz16BitMonoPcm,
    Riff24Khz16BitMonoPcm,
    Riff44100Hz16BitMonoPcm,
    Riff48Khz16BitMonoPcm,
    Riff8Khz16BitMonoPcm,
    Riff8Khz8BitMonoALaw,
    Riff8Khz8BitMonoMULaw,
    Webm16Khz16BitMonoOpus,
    Webm24Khz16Bit24KbpsMonoOpus,
    Webm24Khz16BitMonoOpus,
}

impl AudioFormat {
    /// The format that is used where nothing asks for another.
    pub open spec fn spec_default() -> AudioFormat {
        AudioFormat::Riff24Khz16BitMonoPcm
    }
}

impl Default for AudioFormat {
    fn default() -> (r: AudioFormat)
        ensures
            r == AudioFormat::spec_default(),
    {
        AudioFormat::Riff24Khz16BitMonoPcm
    }
}

/// The container that holds the audio.
#[derive(Clone, Copy, Debug, PartialEq, Eq, Structural, Hash)]
pub enum ContainerFormat {
    Mp3,
    Ogg,
    Webm,
    Wav,
}

impl ContainerFormat {
    /// The container that is used where none is named.
    pub open spec fn spec_default() -> ContainerFormat {
        ContainerFormat::Wav
    }

    /// The name of the container, in lower case.
    pub open spec fn name(self) -> Seq<char> {
        match self {
            ContainerFormat::Mp3 => "mp3"@,
            ContainerFormat::Ogg => "ogg"@,
            ContainerFormat::Webm => "webm"@,
            ContainerFormat::Wav => "wav"@,
        }
    }

    /// The name of the container, in lower case.
    pub fn as_str(&self) -> (r: &'static str)
        ensures
            r@ == self.name(),
    {
        match self {
            ContainerFormat::Mp3 => "mp3",
            ContainerFormat::Ogg => "ogg",
            ContainerFormat::Webm => "webm",
            ContainerFormat::Wav => "wav",
        }
    }
}

impl Default for ContainerFormat {
    fn default() -> (r: ContainerFormat)
        ensures
            r == ContainerFormat::spec_default(),
    {
        ContainerFormat::Wav
    }
}

/// The lowest and the highest quality level that a container has.
pub open spec fn quality_bounds(container: ContainerFormat) -> (int, int) {
    match container {
        ContainerFormat::Mp3 => (-4, 3),
        ContainerFormat::Ogg => (-1, 1),
        ContainerFormat::Webm => (-1, 1),
        ContainerFormat::Wav => (-2, 1),
    }
}

/// The table of formats: what a container holds at a quality level, if it
/// has that level. Level 0 is the container's usual format; lower levels
/// take less space, higher ones sound better.
pub open spec fn quality_format(container: ContainerFormat, quality: int) -> Option<AudioFormat> {
    match container {
        ContainerFormat::Mp3 => if quality == -4 {
            Some(AudioFormat::Audio16Khz32KBitRateMonoMp3)
        } else if quality == -3 {
            Some(AudioFormat::Audio16Khz64KBitRateMonoMp3)
        } else if quality == -2 {
            Some(AudioFormat::Audio16Khz128KBitRateMonoMp3)
        } else if quality == -1 {
            Some(AudioFormat::Audio24Khz48KBitRateMonoMp3)
        } else if quality == 0 {
            Some(AudioFormat::Audio24Khz96KBitRateMonoMp3)
        } else if quality == 1 {
            Some(AudioFormat::Audio24Khz160KBitRateMonoMp3)
        } else if quality == 2 {
            Some(AudioFormat::Audio48Khz96KBitRateMonoMp3)
        } else if quality == 3 {
            Some(AudioFormat::Audio48Khz192KBitRateMonoMp3)
        } else {
            None
        },
        ContainerFormat::Ogg => if quality == -1 {
            Some(AudioFormat::Ogg16Khz16BitMonoOpus)
        } else if quality == 0 {
            Some(AudioFormat::Ogg24Khz16BitMonoOpus)
        } else if quality == 1 {
            Some(AudioFormat::Ogg48Khz16BitMonoOpus)
        } else {
            None
        },
        ContainerFormat::Webm => if quality == -1 {
            Some(AudioFormat::Webm16Khz16BitMonoOpus)
        } else if quality == 0 {
            Some(AudioFormat::Webm24Khz16BitMonoOpus)
        } else if quality == 1 {
            Some(AudioFormat::Webm24Khz16Bit24KbpsMonoOpus)
        } else {
            None
        },
        ContainerFormat::Wav => if quality == -2 {
            Some(AudioFormat::Riff8Khz16BitMonoPcm)
        } else if quality == -1 {
            Some(AudioFormat::Riff16Khz16BitMonoPcm)
        } else if quality == 0 {
            Some(AudioFormat::Riff24Khz16BitMonoPcm)
        } else if quality == 1 {
            Some(AudioFormat::Riff24Khz16BitMonoPcm)
        } else {
            None
        },
    }
}

/// The lowest and the highest quality level of `container`.
pub fn quality_range(container: ContainerFormat) -> (r: (i8, i8))
    ensures
        (r.0 as int, r.1 as int) == quality_bounds(container),
{
    match container {
        ContainerFormat::Mp3 => (-4, 3),
        ContainerFormat::Ogg => (-1, 1),
        ContainerFormat::Webm => (-1, 1),
        ContainerFormat::Wav => (-2, 1),
    }
}

/// Looks `quality` up in the table of `container`. There is no format for a
/// level that the container does not have: no other level stands in for it.
pub fn lookup_quality(container: ContainerFormat, quality: i32) -> (r: Option<AudioFormat>)
    ensures
        r == quality_format(container, quality as int),
{
    match container {
        ContainerFormat::Mp3 => match quality {
            -4 => Some(AudioFormat::Audio16Khz32KBitRateMonoMp3),
            -3 => Some(AudioFormat::Audio16Khz64KBitRateMonoMp3),
            -2 => Some(AudioFormat::Audio16Khz128KBitRateMonoMp3),
            -1 => Some(AudioFormat::Audio24Khz48KBitRateMonoMp3),
            0 => Some(AudioFormat::Audio24Khz96KBitRateMonoMp3),
            1 => Some(AudioFormat::Audio24Khz160KBitRateMonoMp3),
            2 => Some(AudioFormat::Audio48Khz96KBitRateMonoMp3),
            3 => Some(AudioFormat::Audio48Khz192KBitRateMonoMp3),
            _ => None,
        },
        ContainerFormat::Ogg => match quality {
            -1 => Some(AudioFormat::Ogg16Khz16BitMonoOpus),
            0 => Some(AudioFormat::Ogg24Khz16BitMonoOpus),
            1 => Some(AudioFormat::Ogg48Khz16BitMonoOpus),
            _ => None,
        },
        ContainerFormat::Webm => match quality {
            -1 => Some(AudioFormat::Webm16Khz16BitMonoOpus),
            0 => Some(AudioFormat::Webm24Khz16BitMonoOpus),
            1 => Some(AudioFormat::Webm24Khz16Bit24KbpsMonoOpus),
            _ => None,
        },
        ContainerFormat::Wav => match quality {
            -2 => Some(AudioFormat::Riff8Khz16BitMonoPcm),
            -1 => Some(AudioFormat::Riff16Khz16BitMonoPcm),
            0 => Some(AudioFormat::Riff24Khz16BitMonoPcm),
            1 => Some(AudioFormat::Riff24Khz16BitMonoPcm),
            _ => None,
        },
    }
}

/// A container has a format at exactly the levels within its bounds, and
/// level 0 is among them.
pub proof fn lemma_quality_levels(container: ContainerFormat, quality: int)
    ensures
        quality_format(container, quality) is Some <==> quality_bounds(container).0 <= quality
            <= quality_bounds(container).1,
        quality_format(container, 0) is Some,
{
}

} // verus!
