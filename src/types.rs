use vstd::prelude::*;
use crate::error::{Error, ErrorCode};

verus! {

/// The "auto" sentinel of the control protocol.
pub const OPUS_AUTO: i32 = -1000;
/// The "maximum bitrate" sentinel of the control protocol.
pub const OPUS_BITRATE_MAX: i32 = -1;
/// Raw value of `Application::Voip`.
pub const OPUS_APPLICATION_VOIP: i32 = 2048;
/// Raw value of `Application::Audio`.
pub const OPUS_APPLICATION_AUDIO: i32 = 2049;
/// Raw value of `Application::LowDelay`.
pub const OPUS_APPLICATION_RESTRICTED_LOWDELAY: i32 = 2051;
/// Raw value of `Signal::Voice`.
pub const OPUS_SIGNAL_VOICE: i32 = 3001;
/// Raw value of `Signal::Music`.
pub const OPUS_SIGNAL_MUSIC: i32 = 3002;
/// Raw value of `Bandwidth::Narrowband`.
pub const OPUS_BANDWIDTH_NARROWBAND: i32 = 1101;
/// Raw value of `Bandwidth::Mediumband`.
pub const OPUS_BANDWIDTH_MEDIUMBAND: i32 = 1102;
/// Raw value of `Bandwidth::Wideband`.
pub const OPUS_BANDWIDTH_WIDEBAND: i32 = 1103;
/// Raw value of `Bandwidth::Superwideband`.
pub const OPUS_BANDWIDTH_SUPERWIDEBAND: i32 = 1104;
/// Raw value of `Bandwidth::Fullband`.
pub const OPUS_BANDWIDTH_FULLBAND: i32 = 1105;
/// Raw value of `FrameSize::Arg`.
pub const OPUS_FRAMESIZE_ARG: i32 = 5000;
/// Raw value of `FrameSize::Ms2_5`.
pub const OPUS_FRAMESIZE_2_5_MS: i32 = 5001;
/// Raw value of `FrameSize::Ms5`.
pub const OPUS_FRAMESIZE_5_MS: i32 = 5002;
/// Raw value of `FrameSize::Ms10`.
pub const OPUS_FRAMESIZE_10_MS: i32 = 5003;
/// Raw value of `FrameSize::Ms20`.
pub const OPUS_FRAMESIZE_20_MS: i32 = 5004;
/// Raw value of `FrameSize::Ms40`.
pub const OPUS_FRAMESIZE_40_MS: i32 = 5005;
/// Raw value of `FrameSize::Ms60`.
pub const OPUS_FRAMESIZE_60_MS: i32 = 5006;
/// Raw value of `FrameSize::Ms80`.
pub const OPUS_FRAMESIZE_80_MS: i32 = 5007;
/// Raw value of `FrameSize::Ms100`.
pub const OPUS_FRAMESIZE_100_MS: i32 = 5008;
/// Raw value of `FrameSize::Ms120`.
pub const OPUS_FRAMESIZE_120_MS: i32 = 5009;

/// The possible applications for the codec.
#[derive(Debug, Clone, Copy, PartialEq, Eq, Structural, Hash)]
pub enum Application {
    /// Best for most VoIP/videoconference applications where listening quality
    /// and intelligibility matter most.
    Voip,
    /// Best for broadcast/high-fidelity application where the decoded audio
    /// should be as close as possible to the input.
    Audio,
    /// Only use when lowest-achievable latency is what matters most.
    LowDelay,
}

impl Application {
    /// The raw value of this application.
    pub open spec fn spec_raw(self) -> i32 {
        match self {
            Application::Voip => OPUS_APPLICATION_VOIP,
            Application::Audio => OPUS_APPLICATION_AUDIO,
            Application::LowDelay => OPUS_APPLICATION_RESTRICTED_LOWDELAY,
        }
    }

    /// The application whose raw value is `raw`, if any.
    pub open spec fn spec_from_raw(raw: i32) -> Option<Application> {
        if raw == OPUS_APPLICATION_VOIP {
            Some(Application::Voip)
        } else if raw == OPUS_APPLICATION_AUDIO {
            Some(Application::Audio)
        } else if raw == OPUS_APPLICATION_RESTRICTED_LOWDELAY {
            Some(Application::LowDelay)
        } else {
            None
        }
    }

    /// The raw value of this application.
    pub fn raw(self) -> (r: i32)
        ensures
            r == self.spec_raw(),
    {
        match self {
            Application::Voip => OPUS_APPLICATION_VOIP,
            Application::Audio => OPUS_APPLICATION_AUDIO,
            Application::LowDelay => OPUS_APPLICATION_RESTRICTED_LOWDELAY,
        }
    }

    /// The application whose raw value is `raw`, if any.
    pub fn from_int(raw: i32) -> (r: Option<Application>)
        ensures
            r == Application::spec_from_raw(raw),
    {
        if raw == OPUS_APPLICATION_VOIP {
            Some(Application::Voip)
        } else if raw == OPUS_APPLICATION_AUDIO {
            Some(Application::Audio)
        } else if raw == OPUS_APPLICATION_RESTRICTED_LOWDELAY {
            Some(Application::LowDelay)
        } else {
            None
        }
    }

    /// Decode a raw application; a value outside the known set is a `BadArg`
    /// failure of `what`.
    pub fn from_raw(raw: i32, what: &'static str) -> (r: Result<Application, Error>)
        ensures
            Application::spec_from_raw(raw) is Some <==> r is Ok,
            r is Ok ==> Some(r->Ok_0) == Application::spec_from_raw(raw),
            r is Err ==> r->Err_0.spec_code() == ErrorCode::BadArg
                && r->Err_0.spec_function() == what@,
    {
        match Application::from_int(raw) {
            Some(a) => Ok(a),
            None => Err(Error::bad_arg(what)),
        }
    }
}

/// The available channel setings.
#[derive(Debug, Clone, Copy, PartialEq, Eq, Structural, Hash)]
pub enum Channels {
    /// One channel.
    Mono,
    /// Two channels, left and right.
    Stereo,
}

impl Channels {
    /// The number of channels.
    pub open spec fn spec_count(self) -> i32 {
        match self {
            Channels::Mono => 1,
            Channels::Stereo => 2,
        }
    }

    /// The setting with `count` channels, if any.
    pub open spec fn spec_from_count(count: i32) -> Option<Channels> {
        if count == 1 {
            Some(Channels::Mono)
        } else if count == 2 {
            Some(Channels::Stereo)
        } else {
            None
        }
    }

    /// The number of channels.
    pub fn count(self) -> (r: i32)
        ensures
            r == self.spec_count(),
    {
        match self {
            Channels::Mono => 1,
            Channels::Stereo => 2,
        }
    }

    /// The setting with `count` channels, if any.
    pub fn from_count(count: i32) -> (r: Option<Channels>)
        ensures
            r == Channels::spec_from_count(count),
    {
        if count == 1 {
            Some(Channels::Mono)
        } else if count == 2 {
            Some(Channels::Stereo)
        } else {
            None
        }
    }
}

/// The available bandwidth level settings.
#[derive(Debug, Clone, Copy, PartialEq, Eq, Structural, Hash)]
pub enum Bandwidth {
    /// Auto/default setting.
    Auto,
    /// 4kHz bandpass.
    Narrowband,
    /// 6kHz bandpass.
    Mediumband,
    /// 8kHz bandpass.
    Wideband,
    /// 12kHz bandpass.
    Superwideband,
    /// 20kHz bandpass.
    Fullband,
}

impl Bandwidth {
    /// The raw value of this bandwidth.
    pub open spec fn spec_raw(self) -> i32 {
        match self {
            Bandwidth::Auto => OPUS_AUTO,
            Bandwidth::Narrowband => OPUS_BANDWIDTH_NARROWBAND,
            Bandwidth::Mediumband => OPUS_BANDWIDTH_MEDIUMBAND,
            Bandwidth::Wideband => OPUS_BANDWIDTH_WIDEBAND,
            Bandwidth::Superwideband => OPUS_BANDWIDTH_SUPERWIDEBAND,
            Bandwidth::Fullband => OPUS_BANDWIDTH_FULLBAND,
        }
    }

    /// The bandwidth whose raw value is `raw`, if any.
    pub open spec fn spec_from_raw(raw: i32) -> Option<Bandwidth> {
        if raw == OPUS_AUTO {
            Some(Bandwidth::Auto)
        } else if raw == OPUS_BANDWIDTH_NARROWBAND {
            Some(Bandwidth::Narrowband)
        } else if raw == OPUS_BANDWIDTH_MEDIUMBAND {
            Some(Bandwidth::Mediumband)
        } else if raw == OPUS_BANDWIDTH_WIDEBAND {
            Some(Bandwidth::Wideband)
        } else if raw == OPUS_BANDWIDTH_SUPERWIDEBAND {
            Some(Bandwidth::Superwideband)
        } else if raw == OPUS_BANDWIDTH_FULLBAND {
            Some(Bandwidth::Fullband)
        } else {
            None
        }
    }

    /// The bandwidth whose raw value is `value`, if any.
    pub fn from_int(value: i32) -> (r: Option<Bandwidth>)
        ensures
            r == Bandwidth::spec_from_raw(value),
    {
        if value == OPUS_AUTO {
            Some(Bandwidth::Auto)
        } else if value == OPUS_BANDWIDTH_NARROWBAND {
            Some(Bandwidth::Narrowband)
        } else if value == OPUS_BANDWIDTH_MEDIUMBAND {
            Some(Bandwidth::Mediumband)
        } else if value == OPUS_BANDWIDTH_WIDEBAND {
            Some(Bandwidth::Wideband)
        } else if value == OPUS_BANDWIDTH_SUPERWIDEBAND {
            Some(Bandwidth::Superwideband)
        } else if value == OPUS_BANDWIDTH_FULLBAND {
            Some(Bandwidth::Fullband)
        } else {
            None
        }
    }

    /// Decode a raw bandwidth; a value outside the known set is a `BadArg`
    /// failure of `what`.
    pub fn decode(value: i32, what: &'static str) -> (r: Result<Bandwidth, Error>)
        ensures
            Bandwidth::spec_from_raw(value) is Some <==> r is Ok,
            r is Ok ==> Some(r->Ok_0) == Bandwidth::spec_from_raw(value),
            r is Err ==> r->Err_0.spec_code() == ErrorCode::BadArg
                && r->Err_0.spec_function() == what@,
    {
        match Bandwidth::from_int(value) {
            Some(bandwidth) => Ok(bandwidth),
            None => Err(Error::bad_arg(what)),
        }
    }

    /// The raw value of this bandwidth.
    pub fn raw(self) -> (r: i32)
        ensures
            r == self.spec_raw(),
    {
        match self {
            Bandwidth::Auto => OPUS_AUTO,
            Bandwidth::Narrowband => OPUS_BANDWIDTH_NARROWBAND,
            Bandwidth::Mediumband => OPUS_BANDWIDTH_MEDIUMBAND,
            Bandwidth::Wideband => OPUS_BANDWIDTH_WIDEBAND,
            Bandwidth::Superwideband => OPUS_BANDWIDTH_SUPERWIDEBAND,
            Bandwidth::Fullband => OPUS_BANDWIDTH_FULLBAND,
        }
    }
}

impl Default for Bandwidth {
    fn default() -> (r: Self)
        ensures
            r == Bandwidth::Auto,
    {
        Bandwidth::Auto
    }
}

/// Possible bitrates.
#[derive(Debug, Clone, Copy, PartialEq, Eq, Structural, Hash)]
pub enum Bitrate {
    /// Explicit bitrate choice (in bits/second).
    Bits(i32),
    /// Maximum bitrate allowed (up to maximum number of bytes for the packet).
    Max,
    /// Default bitrate decided by the encoder (not recommended).
    Auto,
}

impl Bitrate {
    /// An explicit bitrate never takes the value of a sentinel.
    pub open spec fn wf(self) -> bool {
        match self {
            Bitrate::Bits(b) => b != OPUS_AUTO && b != OPUS_BITRATE_MAX,
            _ => true,
        }
    }

    /// The raw value of this bitrate.
    pub open spec fn spec_raw(self) -> i32 {
        match self {
            Bitrate::Auto => OPUS_AUTO,
            Bitrate::Max => OPUS_BITRATE_MAX,
            Bitrate::Bits(raw) => raw,
        }
    }

    /// The bitrate that a raw value stands for.
    pub open spec fn spec_from_raw(raw: i32) -> Bitrate {
        if raw == OPUS_AUTO {
            Bitrate::Auto
        } else if raw == OPUS_BITRATE_MAX {
            Bitrate::Max
        } else {
            Bitrate::Bits(raw)
        }
    }

    /// The bitrate that a raw value stands for: one of the two sentinels, or
    /// an explicit bitrate.
    pub fn from_raw_value(raw: i32) -> (r: Bitrate)
        ensures
            r == Bitrate::spec_from_raw(raw),
    {
        if raw == OPUS_AUTO {
            Bitrate::Auto
        } else if raw == OPUS_BITRATE_MAX {
            Bitrate::Max
        } else {
            Bitrate::Bits(raw)
        }
    }

    /// Decode a raw bitrate; every raw value stands for some bitrate.
    pub fn from_raw(raw: i32) -> (r: Result<Bitrate, Error>)
        ensures
            r == Ok::<Bitrate, Error>(Bitrate::spec_from_raw(raw)),
    {
        Ok(Bitrate::from_raw_value(raw))
    }

    /// The raw value of this bitrate.
    pub fn raw(self) -> (r: i32)
        ensures
            r == self.spec_raw(),
    {
        match self {
            Bitrate::Auto => OPUS_AUTO,
            Bitrate::Max => OPUS_BITRATE_MAX,
            Bitrate::Bits(raw) => raw,
        }
    }
}

/// Possible signal types. Hints for the encoder's mode selection.
#[derive(Debug, Clone, Copy, PartialEq, Eq, Structural, Hash)]
pub enum Signal {
    /// Auto/default setting.
    Auto,
    /// Bias thresholds towards choosing LPC or Hybrid modes.
    Voice,
    /// Bias thresholds towards choosing MDCT modes.
    Music,
}

impl Signal {
    /// The raw value of this signal type.
    pub open spec fn spec_raw(self) -> i32 {
        match self {
            Signal::Auto => OPUS_AUTO,
            Signal::Voice => OPUS_SIGNAL_VOICE,
            Signal::Music => OPUS_SIGNAL_MUSIC,
        }
    }

    /// The signal type whose raw value is `raw`, if any.
    pub open spec fn spec_from_raw(raw: i32) -> Option<Signal> {
        if raw == OPUS_AUTO {
            Some(Signal::Auto)
        } else if raw == OPUS_SIGNAL_VOICE {
            Some(Signal::Voice)
        } else if raw == OPUS_SIGNAL_MUSIC {
            Some(Signal::Music)
        } else {
            None
        }
    }

    /// The signal type whose raw value is `raw`, if any.
    pub fn from_int(raw: i32) -> (r: Option<Signal>)
        ensures
            r == Signal::spec_from_raw(raw),
    {
        if raw == OPUS_AUTO {
            Some(Signal::Auto)
        } else if raw == OPUS_SIGNAL_VOICE {
            Some(Signal::Voice)
        } else if raw == OPUS_SIGNAL_MUSIC {
            Some(Signal::Music)
        } else {
            None
        }
    }

    /// Decode a raw signal type; a value outside the known set is a `BadArg`
    /// failure of `what`.
    pub fn from_raw(raw: i32, what: &'static str) -> (r: Result<Signal, Error>)
        ensures
            Signal::spec_from_raw(raw) is Some <==> r is Ok,
            r is Ok ==> Some(r->Ok_0) == Signal::spec_from_raw(raw),
            r is Err ==> r->Err_0.spec_code() == ErrorCode::BadArg
                && r->Err_0.spec_function() == what@,
    {
        match Signal::from_int(raw) {
            Some(s) => Ok(s),
            None => Err(Error::bad_arg(what)),
        }
    }

    /// The raw value of this signal type.
    pub fn raw(self) -> (r: i32)
        ensures
            r == self.spec_raw(),
    {
        match self {
            Signal::Auto => OPUS_AUTO,
            Signal::Voice => OPUS_SIGNAL_VOICE,
            Signal::Music => OPUS_SIGNAL_MUSIC,
        }
    }
}

impl Default for Signal {
    fn default() -> (r: Self)
        ensures
            r == Signal::Auto,
    {
        Signal::Auto
    }
}

/// Possible frame sizes. Controls encoder's use of variable duration frames.
#[derive(Debug, Clone, Copy, PartialEq, Eq, Structural, Hash)]
pub enum FrameSize {
    /// Select frame size from the argument (default).
    Arg,
    /// Use 2.5 ms frames.
    Ms2_5,
    /// Use 5 ms frames.
    Ms5,
    /// Use 10 ms frames.
    Ms10,
    /// Use 20 ms frames.
    Ms20,
    /// Use 40 ms frames.
    Ms40,
    /// Use 60 ms frames.
    Ms60,
    /// Use 80 ms frames.
    Ms80,
    /// Use 100 ms frames.
    Ms100,
    /// Use 120 ms frames.
    Ms120,
}

impl FrameSize {
    /// The raw value of this frame size.
    pub open spec fn spec_raw(self) -> i32 {
        match self {
            FrameSize::Arg => OPUS_FRAMESIZE_ARG,
            FrameSize::Ms2_5 => OPUS_FRAMESIZE_2_5_MS,
            FrameSize::Ms5 => OPUS_FRAMESIZE_5_MS,
            FrameSize::Ms10 => OPUS_FRAMESIZE_10_MS,
            FrameSize::Ms20 => OPUS_FRAMESIZE_20_MS,
            FrameSize::Ms40 => OPUS_FRAMESIZE_40_MS,
            FrameSize::Ms60 => OPUS_FRAMESIZE_60_MS,
            FrameSize::Ms80 => OPUS_FRAMESIZE_80_MS,
            FrameSize::Ms100 => OPUS_FRAMESIZE_100_MS,
            FrameSize::Ms120 => OPUS_FRAMESIZE_120_MS,
        }
    }

    /// The frame size whose raw value is `raw`, if any.
    pub open spec fn spec_from_raw(raw: i32) -> Option<FrameSize> {
        if raw == OPUS_FRAMESIZE_ARG {
            Some(FrameSize::Arg)
        } else if raw == OPUS_FRAMESIZE_2_5_MS {
            Some(FrameSize::Ms2_5)
        } else if raw == OPUS_FRAMESIZE_5_MS {
            Some(FrameSize::Ms5)
        } else if raw == OPUS_FRAMESIZE_10_MS {
            Some(FrameSize::Ms10)
        } else if raw == OPUS_FRAMESIZE_20_MS {
            Some(FrameSize::Ms20)
        } else if raw == OPUS_FRAMESIZE_40_MS {
            Some(FrameSize::Ms40)
        } else if raw == OPUS_FRAMESIZE_60_MS {
            Some(FrameSize::Ms60)
        } else if raw == OPUS_FRAMESIZE_80_MS {
            Some(FrameSize::Ms80)
        } else if raw == OPUS_FRAMESIZE_100_MS {
            Some(FrameSize::Ms100)
        } else if raw == OPUS_FRAMESIZE_120_MS {
            Some(FrameSize::Ms120)
        } else {
            None
        }
    }

    /// The frame size whose raw value is `raw`, if any.
    pub fn from_int(raw: i32) -> (r: Option<FrameSize>)
        ensures
            r == FrameSize::spec_from_raw(raw),
    {
        if raw == OPUS_FRAMESIZE_ARG {
            Some(FrameSize::Arg)
        } else if raw == OPUS_FRAMESIZE_2_5_MS {
            Some(FrameSize::Ms2_5)
        } else if raw == OPUS_FRAMESIZE_5_MS {
            Some(FrameSize::Ms5)
        } else if raw == OPUS_FRAMESIZE_10_MS {
            Some(FrameSize::Ms10)
        } else if raw == OPUS_FRAMESIZE_20_MS {
            Some(FrameSize::Ms20)
        } else if raw == OPUS_FRAMESIZE_40_MS {
            Some(FrameSize::Ms40)
        } else if raw == OPUS_FRAMESIZE_60_MS {
            Some(FrameSize::Ms60)
        } else if raw == OPUS_FRAMESIZE_80_MS {
            Some(FrameSize::Ms80)
        } else if raw == OPUS_FRAMESIZE_100_MS {
            Some(FrameSize::Ms100)
        } else if raw == OPUS_FRAMESIZE_120_MS {
            Some(FrameSize::Ms120)
        } else {
            None
        }
    }

    /// Decode a raw frame size; a value outside the known set is a `BadArg`
    /// failure of `what`.
    pub fn from_raw(raw: i32, what: &'static str) -> (r: Result<FrameSize, Error>)
        ensures
            FrameSize::spec_from_raw(raw) is Some <==> r is Ok,
            r is Ok ==> Some(r->Ok_0) == FrameSize::spec_from_raw(raw),
            r is Err ==> r->Err_0.spec_code() == ErrorCode::BadArg
                && r->Err_0.spec_function() == what@,
    {
        match FrameSize::from_int(raw) {
            Some(f) => Ok(f),
            None => Err(Error::bad_arg(what)),
        }
    }

    /// The raw value of this frame size.
    pub fn raw(self) -> (r: i32)
        ensures
            r == self.spec_raw(),
    {
        match self {
            FrameSize::Arg => OPUS_FRAMESIZE_ARG,
            FrameSize::Ms2_5 => OPUS_FRAMESIZE_2_5_MS,
            FrameSize::Ms5 => OPUS_FRAMESIZE_5_MS,
            FrameSize::Ms10 => OPUS_FRAMESIZE_10_MS,
            FrameSize::Ms20 => OPUS_FRAMESIZE_20_MS,
            FrameSize::Ms40 => OPUS_FRAMESIZE_40_MS,
            FrameSize::Ms60 => OPUS_FRAMESIZE_60_MS,
            FrameSize::Ms80 => OPUS_FRAMESIZE_80_MS,
            FrameSize::Ms100 => OPUS_FRAMESIZE_100_MS,
            FrameSize::Ms120 => OPUS_FRAMESIZE_120_MS,
        }
    }
}

impl Default for FrameSize {
    fn default() -> (r: Self)
        ensures
            r == FrameSize::Arg,
    {
        FrameSize::Arg
    }
}

} // verus!
