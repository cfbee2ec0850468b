//! Audio format definitions: sample rates and channel counts.

use vstd::prelude::*;

verus! {

/// Sample rate in Hertz.
#[derive(Debug, Clone, Copy, PartialEq, Eq, Structural)]
pub enum SampleRate {
    Hz44100,
    Hz48000,
    Hz88200,
    Hz96000,
}

/// The frequency in Hertz that a sample rate stands for.
pub open spec fn sample_rate_hz(rate: SampleRate) -> u32 {
    match rate {
        SampleRate::Hz44100 => 44100,
        SampleRate::Hz48000 => 48000,
        SampleRate::Hz88200 => 88200,
        SampleRate::Hz96000 => 96000,
    }
}

impl SampleRate {
    /// The rate in Hertz.
    pub fn hz(self) -> (r: u32)
        ensures
            r == sample_rate_hz(self),
    {
        match self {
            SampleRate::Hz44100 => 44100,
            SampleRate::Hz48000 => 48000,
            SampleRate::Hz88200 => 88200,
            SampleRate::Hz96000 => 96000,
        }
    }

    /// The supported rate with the given frequency, if any.
    pub fn from_hz(hz: u32) -> (r: Option<SampleRate>)
        ensures
            r matches Some(rate) ==> sample_rate_hz(rate) == hz,
            r is None <==> !(hz == 44100 || hz == 48000 || hz == 88200 || hz == 96000),
    {
        match hz {
            44100 => Some(SampleRate::Hz44100),
            48000 => Some(SampleRate::Hz48000),
            88200 => Some(SampleRate::Hz88200),
            96000 => Some(SampleRate::Hz96000),
            _ => None,
        }
    }
}

/// Number of audio channels.
#[derive(Debug, Clone, Copy, PartialEq, Eq, Structural)]
pub enum ChannelCount {
    Mono,
    Stereo,
}

/// The number of channels that a channel count stands for.
pub open spec fn channel_count_value(c: ChannelCount) -> usize {
    match c {
        ChannelCount::Mono => 1,
        ChannelCount::Stereo => 2,
    }
}

impl ChannelCount {
    /// The number of channels.
    pub fn count(self) -> (r: usize)
        ensures
            r == channel_count_value(self),
    {
        match self {
            ChannelCount::Mono => 1,
            ChannelCount::Stereo => 2,
        }
    }

    /// The channel layout with the given number of channels, if any.
    pub fn from_count(count: usize) -> (r: Option<ChannelCount>)
        ensures
            r matches Some(c) ==> channel_count_value(c) == count,
            r is None <==> !(count == 1 || count == 2),
    {
        match count {
            1 => Some(ChannelCount::Mono),
            2 => Some(ChannelCount::Stereo),
            _ => None,
        }
    }
}

/// Reading a sample rate's frequency back gives the same rate.
pub proof fn lemma_sample_rate_round_trip(rate: SampleRate)
    ensures
        sample_rate_hz(rate) == 44100 ==> rate == SampleRate::Hz44100,
        sample_rate_hz(rate) == 48000 ==> rate == SampleRate::Hz48000,
        sample_rate_hz(rate) == 88200 ==> rate == SampleRate::Hz88200,
        sample_rate_hz(rate) == 96000 ==> rate == SampleRate::Hz96000,
{
}

} // verus!
