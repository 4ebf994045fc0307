use vstd::prelude::*;
use crate::error::{error_code_of, Error, ErrorCode};
use crate::types::{Application, Bandwidth, Bitrate, Channels, FrameSize, Signal, OPUS_AUTO};

verus! {

/// Request number: reset the codec state.
pub const OPUS_RESET_STATE: i32 = 4028;

/// The kind of native handle that a control request is sent to.
#[derive(Debug, Clone, Copy, PartialEq, Eq, Structural, Hash)]
pub enum HandleKind {
    /// A single-stream encoder.
    Encoder,
    /// A single-stream decoder.
    Decoder,
    /// A multistream encoder.
    MSEncoder,
    /// A multistream decoder.
    MSDecoder,
}

impl HandleKind {
    /// The name of the native control entry point of this kind of handle.
    pub open spec fn spec_ctl_name(self) -> Seq<char> {
        match self {
            HandleKind::Encoder => "opus_encoder_ctl"@,
            HandleKind::Decoder => "opus_decoder_ctl"@,
            HandleKind::MSEncoder => "opus_multistream_encoder_ctl"@,
            HandleKind::MSDecoder => "opus_multistream_decoder_ctl"@,
        }
    }

    /// The name of the native control entry point of this kind of handle.
    pub fn ctl_name(self) -> (r: &'static str)
        ensures
            r@ == self.spec_ctl_name(),
    {
        match self {
            HandleKind::Encoder => "opus_encoder_ctl",
            HandleKind::Decoder => "opus_decoder_ctl",
            HandleKind::MSEncoder => "opus_multistream_encoder_ctl",
            HandleKind::MSDecoder => "opus_multistream_decoder_ctl",
        }
    }
}

/// A codec parameter that can be read through the control entry point.
#[derive(Debug, Clone, Copy, PartialEq, Eq, Structural, Hash)]
pub enum Param {
    /// The final range of the entropy coder.
    FinalRange,
    /// The bandpass in use.
    Bandwidth,
    /// The sampling rate the codec was initialized with.
    SampleRate,
    /// Whether phase inversion for intensity stereo is disabled.
    PhaseInversionDisabled,
    /// Whether the encoder is in discontinuous transmission.
    InDtx,
    /// The encoder's computational complexity.
    Complexity,
    /// The encoder's bitrate.
    Bitrate,
    /// Whether variable bitrate is enabled.
    Vbr,
    /// Whether constrained variable bitrate is enabled.
    VbrConstraint,
    /// The forced channel configuration.
    ForceChannels,
    /// The maximum bandpass that the encoder selects automatically.
    MaxBandwidth,
    /// The signal type hint.
    Signal,
    /// The intended application.
    Application,
    /// The total samples of delay added by the codec.
    Lookahead,
    /// Whether inband forward error correction is used.
    InbandFec,
    /// The expected packet loss percentage.
    PacketLossPerc,
    /// Whether discontinuous transmission is used.
    Dtx,
    /// The depth of the signal being encoded.
    LsbDepth,
    /// The use of variable duration frames.
    ExpertFrameDuration,
    /// Whether prediction is disabled.
    PredictionDisabled,
    /// The decoder gain adjustment.
    Gain,
    /// The duration of the last packet decoded or concealed.
    LastPacketDuration,
    /// The pitch of the last decoded frame.
    Pitch,
}

/// A typed value read back through the control entry point.
#[derive(Debug, Clone, Copy, PartialEq, Eq, Structural, Hash)]
pub enum Reply {
    /// A flag.
    Bool(bool),
    /// A signed integer.
    Int(i32),
    /// An unsigned integer.
    Unsigned(u32),
    /// A bitrate.
    Bitrate(Bitrate),
    /// A bandwidth.
    Bandwidth(Bandwidth),
    /// A signal type.
    Signal(Signal),
    /// An application.
    Application(Application),
    /// A frame size.
    FrameSize(FrameSize),
    /// A forced channel configuration, `None` for automatic.
    ForceChannels(Option<Channels>),
}

/// The raw payload of a flag.
pub open spec fn spec_bool_raw(b: bool) -> i32 {
    if b {
        1
    } else {
        0
    }
}

/// The raw payload of a forced channel configuration.
pub open spec fn spec_force_channels_raw(c: Option<Channels>) -> i32 {
    match c {
        None => OPUS_AUTO,
        Some(ch) => ch.spec_count(),
    }
}

/// The forced channel configuration that a raw value stands for, if any.
pub open spec fn spec_force_channels_from_raw(raw: i32) -> Option<Option<Channels>> {
    if raw == OPUS_AUTO {
        Some(None)
    } else if raw == 1 {
        Some(Some(Channels::Mono))
    } else if raw == 2 {
        Some(Some(Channels::Stereo))
    } else {
        None
    }
}

/// The raw payload of a flag.
pub fn bool_raw(b: bool) -> (r: i32)
    ensures
        r == spec_bool_raw(b),
{
    if b {
        1
    } else {
        0
    }
}

impl Param {
    /// The request number that reads this parameter.
    pub open spec fn spec_get_request(self) -> i32 {
        match self {
            Param::FinalRange => 4031,
            Param::Bandwidth => 4009,
            Param::SampleRate => 4029,
            Param::PhaseInversionDisabled => 4047,
            Param::InDtx => 4049,
            Param::Complexity => 4011,
            Param::Bitrate => 4003,
            Param::Vbr => 4007,
            Param::VbrConstraint => 4021,
            Param::ForceChannels => 4023,
            Param::MaxBandwidth => 4005,
            Param::Signal => 4025,
            Param::Application => 4001,
            Param::Lookahead => 4027,
            Param::InbandFec => 4013,
            Param::PacketLossPerc => 4015,
            Param::Dtx => 4017,
            Param::LsbDepth => 4037,
            Param::ExpertFrameDuration => 4041,
            Param::PredictionDisabled => 4043,
            Param::Gain => 4045,
            Param::LastPacketDuration => 4039,
            Param::Pitch => 4033,
        }
    }

    /// The typed value that a raw reply stands for, if it lies in the
    /// parameter's domain.
    pub open spec fn spec_decode(self, raw: i32) -> Option<Reply> {
        match self {
            Param::FinalRange | Param::SampleRate | Param::LastPacketDuration => Some(
                Reply::Unsigned(raw as u32),
            ),
            Param::PhaseInversionDisabled | Param::InDtx | Param::Vbr | Param::VbrConstraint
            | Param::InbandFec | Param::Dtx | Param::PredictionDisabled => Some(
                Reply::Bool(raw != 0),
            ),
            Param::Complexity | Param::Lookahead | Param::PacketLossPerc | Param::LsbDepth
            | Param::Gain | Param::Pitch => Some(Reply::Int(raw)),
            Param::Bitrate => Some(Reply::Bitrate(Bitrate::spec_from_raw(raw))),
            Param::Bandwidth | Param::MaxBandwidth => match Bandwidth::spec_from_raw(raw) {
                Some(b) => Some(Reply::Bandwidth(b)),
                None => None,
            },
            Param::Signal => match Signal::spec_from_raw(raw) {
                Some(s) => Some(Reply::Signal(s)),
                None => None,
            },
            Param::Application => match Application::spec_from_raw(raw) {
                Some(a) => Some(Reply::Application(a)),
                None => None,
            },
            Param::ExpertFrameDuration => match FrameSize::spec_from_raw(raw) {
                Some(f) => Some(Reply::FrameSize(f)),
                None => None,
            },
            Param::ForceChannels => match spec_force_channels_from_raw(raw) {
                Some(c) => Some(Reply::ForceChannels(c)),
                None => None,
            },
        }
    }

    /// The request number that reads this parameter.
    pub fn get_request(self) -> (r: i32)
        ensures
            r == self.spec_get_request(),
    {
        match self {
            Param::FinalRange => 4031,
            Param::Bandwidth => 4009,
            Param::SampleRate => 4029,
            Param::PhaseInversionDisabled => 4047,
            Param::InDtx => 4049,
            Param::Complexity => 4011,
            Param::Bitrate => 4003,
            Param::Vbr => 4007,
            Param::VbrConstraint => 4021,
            Param::ForceChannels => 4023,
            Param::MaxBandwidth => 4005,
            Param::Signal => 4025,
            Param::Application => 4001,
            Param::Lookahead => 4027,
            Param::InbandFec => 4013,
            Param::PacketLossPerc => 4015,
            Param::Dtx => 4017,
            Param::LsbDepth => 4037,
            Param::ExpertFrameDuration => 4041,
            Param::PredictionDisabled => 4043,
            Param::Gain => 4045,
            Param::LastPacketDuration => 4039,
            Param::Pitch => 4033,
        }
    }

    /// The name of the request that reads this parameter.
    pub open spec fn spec_get_name(self) -> Seq<char> {
        match self {
            Param::FinalRange => "OPUS_GET_FINAL_RANGE_REQUEST"@,
            Param::Bandwidth => "OPUS_GET_BANDWIDTH_REQUEST"@,
            Param::SampleRate => "OPUS_GET_SAMPLE_RATE_REQUEST"@,
            Param::PhaseInversionDisabled => "OPUS_GET_PHASE_INVERSION_DISABLED_REQUEST"@,
            Param::InDtx => "OPUS_GET_IN_DTX_REQUEST"@,
            Param::Complexity => "OPUS_GET_COMPLEXITY_REQUEST"@,
            Param::Bitrate => "OPUS_GET_BITRATE_REQUEST"@,
            Param::Vbr => "OPUS_GET_VBR_REQUEST"@,
            Param::VbrConstraint => "OPUS_GET_VBR_CONSTRAINT_REQUEST"@,
            Param::ForceChannels => "OPUS_GET_FORCE_CHANNELS_REQUEST"@,
            Param::MaxBandwidth => "OPUS_GET_MAX_BANDWIDTH_REQUEST"@,
            Param::Signal => "OPUS_GET_SIGNAL_REQUEST"@,
            Param::Application => "OPUS_GET_APPLICATION_REQUEST"@,
            Param::Lookahead => "OPUS_GET_LOOKAHEAD_REQUEST"@,
            Param::InbandFec => "OPUS_GET_INBAND_FEC_REQUEST"@,
            Param::PacketLossPerc => "OPUS_GET_PACKET_LOSS_PERC_REQUEST"@,
            Param::Dtx => "OPUS_GET_DTX_REQUEST"@,
            Param::LsbDepth => "OPUS_GET_LSB_DEPTH_REQUEST"@,
            Param::ExpertFrameDuration => "OPUS_GET_EXPERT_FRAME_DURATION_REQUEST"@,
            Param::PredictionDisabled => "OPUS_GET_PREDICTION_DISABLED_REQUEST"@,
            Param::Gain => "OPUS_GET_GAIN_REQUEST"@,
            Param::LastPacketDuration => "OPUS_GET_LAST_PACKET_DURATION_REQUEST"@,
            Param::Pitch => "OPUS_GET_PITCH_REQUEST"@,
        }
    }

    /// The name of the request that reads this parameter.
    pub fn get_name(self) -> (r: &'static str)
        ensures
            r@ == self.spec_get_name(),
    {
        match self {
            Param::FinalRange => "OPUS_GET_FINAL_RANGE_REQUEST",
            Param::Bandwidth => "OPUS_GET_BANDWIDTH_REQUEST",
            Param::SampleRate => "OPUS_GET_SAMPLE_RATE_REQUEST",
            Param::PhaseInversionDisabled => "OPUS_GET_PHASE_INVERSION_DISABLED_REQUEST",
            Param::InDtx => "OPUS_GET_IN_DTX_REQUEST",
            Param::Complexity => "OPUS_GET_COMPLEXITY_REQUEST",
            Param::Bitrate => "OPUS_GET_BITRATE_REQUEST",
            Param::Vbr => "OPUS_GET_VBR_REQUEST",
            Param::VbrConstraint => "OPUS_GET_VBR_CONSTRAINT_REQUEST",
            Param::ForceChannels => "OPUS_GET_FORCE_CHANNELS_REQUEST",
            Param::MaxBandwidth => "OPUS_GET_MAX_BANDWIDTH_REQUEST",
            Param::Signal => "OPUS_GET_SIGNAL_REQUEST",
            Param::Application => "OPUS_GET_APPLICATION_REQUEST",
            Param::Lookahead => "OPUS_GET_LOOKAHEAD_REQUEST",
            Param::InbandFec => "OPUS_GET_INBAND_FEC_REQUEST",
            Param::PacketLossPerc => "OPUS_GET_PACKET_LOSS_PERC_REQUEST",
            Param::Dtx => "OPUS_GET_DTX_REQUEST",
            Param::LsbDepth => "OPUS_GET_LSB_DEPTH_REQUEST",
            Param::ExpertFrameDuration => "OPUS_GET_EXPERT_FRAME_DURATION_REQUEST",
            Param::PredictionDisabled => "OPUS_GET_PREDICTION_DISABLED_REQUEST",
            Param::Gain => "OPUS_GET_GAIN_REQUEST",
            Param::LastPacketDuration => "OPUS_GET_LAST_PACKET_DURATION_REQUEST",
            Param::Pitch => "OPUS_GET_PITCH_REQUEST",
        }
    }

    /// Decode a raw reply; a value outside the parameter's domain is `None`.
    pub fn decode(self, raw: i32) -> (r: Option<Reply>)
        ensures
            r == self.spec_decode(raw),
    {
        match self {
            Param::FinalRange | Param::SampleRate | Param::LastPacketDuration => Some(
                Reply::Unsigned(raw as u32),
            ),
            Param::PhaseInversionDisabled | Param::InDtx | Param::Vbr | Param::VbrConstraint
            | Param::InbandFec | Param::Dtx | Param::PredictionDisabled => Some(
                Reply::Bool(raw != 0),
            ),
            Param::Complexity | Param::Lookahead | Param::PacketLossPerc | Param::LsbDepth
            | Param::Gain | Param::Pitch => Some(Reply::Int(raw)),
            Param::Bitrate => Some(Reply::Bitrate(Bitrate::from_raw_value(raw))),
            Param::Bandwidth | Param::MaxBandwidth => match Bandwidth::from_int(raw) {
                Some(b) => Some(Reply::Bandwidth(b)),
                None => None,
            },
            Param::Signal => match Signal::from_int(raw) {
                Some(s) => Some(Reply::Signal(s)),
                None => None,
            },
            Param::Application => match Application::from_int(raw) {
                Some(a) => Some(Reply::Application(a)),
                None => None,
            },
            Param::ExpertFrameDuration => match FrameSize::from_int(raw) {
                Some(f) => Some(Reply::FrameSize(f)),
                None => None,
            },
            Param::ForceChannels => {
                if raw == OPUS_AUTO {
                    Some(Reply::ForceChannels(None))
                } else if raw == 1 {
                    Some(Reply::ForceChannels(Some(Channels::Mono)))
                } else if raw == 2 {
                    Some(Reply::ForceChannels(Some(Channels::Stereo)))
                } else {
                    None
                }
            },
        }
    }
}

/// A new value for a codec parameter, sent through the control entry point.
#[derive(Debug, Clone, Copy, PartialEq, Eq, Structural, Hash)]
pub enum Setting {
    /// Disable phase inversion for intensity stereo.
    PhaseInversionDisabled(bool),
    /// The encoder's computational complexity.
    Complexity(i32),
    /// The encoder's bitrate.
    Bitrate(Bitrate),
    /// Enable variable bitrate.
    Vbr(bool),
    /// Enable constrained variable bitrate.
    VbrConstraint(bool),
    /// Force mono or stereo coding, `None` for automatic.
    ForceChannels(Option<Channels>),
    /// The maximum bandpass that the encoder selects automatically.
    MaxBandwidth(Bandwidth),
    /// A fixed bandpass.
    Bandwidth(Bandwidth),
    /// The signal type hint.
    Signal(Signal),
    /// The intended application.
    Application(Application),
    /// Use inband forward error correction.
    InbandFec(bool),
    /// The expected packet loss percentage.
    PacketLossPerc(i32),
    /// Use discontinuous transmission.
    Dtx(bool),
    /// The depth of the signal being encoded.
    LsbDepth(i32),
    /// The use of variable duration frames.
    ExpertFrameDuration(FrameSize),
    /// Disable prediction.
    PredictionDisabled(bool),
    /// The decoder gain adjustment, in Q8 dB units.
    Gain(i32),
}

impl Setting {
    /// A setting whose value lies in the domain of its parameter.
    pub open spec fn wf(self) -> bool {
        match self {
            Setting::Bitrate(b) => b.wf(),
            _ => true,
        }
    }

    /// The parameter that this setting changes.
    pub open spec fn spec_param(self) -> Param {
        match self {
            Setting::PhaseInversionDisabled(_) => Param::PhaseInversionDisabled,
            Setting::Complexity(_) => Param::Complexity,
            Setting::Bitrate(_) => Param::Bitrate,
            Setting::Vbr(_) => Param::Vbr,
            Setting::VbrConstraint(_) => Param::VbrConstraint,
            Setting::ForceChannels(_) => Param::ForceChannels,
            Setting::MaxBandwidth(_) => Param::MaxBandwidth,
            Setting::Bandwidth(_) => Param::Bandwidth,
            Setting::Signal(_) => Param::Signal,
            Setting::Application(_) => Param::Application,
            Setting::InbandFec(_) => Param::InbandFec,
            Setting::PacketLossPerc(_) => Param::PacketLossPerc,
            Setting::Dtx(_) => Param::Dtx,
            Setting::LsbDepth(_) => Param::LsbDepth,
            Setting::ExpertFrameDuration(_) => Param::ExpertFrameDuration,
            Setting::PredictionDisabled(_) => Param::PredictionDisabled,
            Setting::Gain(_) => Param::Gain,
        }
    }

    /// The request number that applies this setting.
    pub open spec fn spec_request(self) -> i32 {
        match self {
            Setting::PhaseInversionDisabled(_) => 4046,
            Setting::Complexity(_) => 4010,
            Setting::Bitrate(_) => 4002,
            Setting::Vbr(_) => 4006,
            Setting::VbrConstraint(_) => 4020,
            Setting::ForceChannels(_) => 4022,
            Setting::MaxBandwidth(_) => 4004,
            Setting::Bandwidth(_) => 4008,
            Setting::Signal(_) => 4024,
            Setting::Application(_) => 4000,
            Setting::InbandFec(_) => 4012,
            Setting::PacketLossPerc(_) => 4014,
            Setting::Dtx(_) => 4016,
            Setting::LsbDepth(_) => 4036,
            Setting::ExpertFrameDuration(_) => 4040,
            Setting::PredictionDisabled(_) => 4042,
            Setting::Gain(_) => 4034,
        }
    }

    /// The raw payload that carries this setting's value.
    pub open spec fn spec_payload(self) -> i32 {
        match self {
            Setting::PhaseInversionDisabled(b) => spec_bool_raw(b),
            Setting::Complexity(v) => v,
            Setting::Bitrate(b) => b.spec_raw(),
            Setting::Vbr(b) => spec_bool_raw(b),
            Setting::VbrConstraint(b) => spec_bool_raw(b),
            Setting::ForceChannels(c) => spec_force_channels_raw(c),
            Setting::MaxBandwidth(b) => b.spec_raw(),
            Setting::Bandwidth(b) => b.spec_raw(),
            Setting::Signal(s) => s.spec_raw(),
            Setting::Application(a) => a.spec_raw(),
            Setting::InbandFec(b) => spec_bool_raw(b),
            Setting::PacketLossPerc(v) => v,
            Setting::Dtx(b) => spec_bool_raw(b),
            Setting::LsbDepth(v) => v,
            Setting::ExpertFrameDuration(f) => f.spec_raw(),
            Setting::PredictionDisabled(b) => spec_bool_raw(b),
            Setting::Gain(v) => v,
        }
    }

    /// The typed value that reading the parameter back gives.
    pub open spec fn spec_reply(self) -> Reply {
        match self {
            Setting::PhaseInversionDisabled(b) => Reply::Bool(b),
            Setting::Complexity(v) => Reply::Int(v),
            Setting::Bitrate(b) => Reply::Bitrate(b),
            Setting::Vbr(b) => Reply::Bool(b),
            Setting::VbrConstraint(b) => Reply::Bool(b),
            Setting::ForceChannels(c) => Reply::ForceChannels(c),
            Setting::MaxBandwidth(b) => Reply::Bandwidth(b),
            Setting::Bandwidth(b) => Reply::Bandwidth(b),
            Setting::Signal(s) => Reply::Signal(s),
            Setting::Application(a) => Reply::Application(a),
            Setting::InbandFec(b) => Reply::Bool(b),
            Setting::PacketLossPerc(v) => Reply::Int(v),
            Setting::Dtx(b) => Reply::Bool(b),
            Setting::LsbDepth(v) => Reply::Int(v),
            Setting::ExpertFrameDuration(f) => Reply::FrameSize(f),
            Setting::PredictionDisabled(b) => Reply::Bool(b),
            Setting::Gain(v) => Reply::Int(v),
        }
    }

    /// The parameter that this setting changes.
    pub fn param(self) -> (r: Param)
        ensures
            r == self.spec_param(),
    {
        match self {
            Setting::PhaseInversionDisabled(_) => Param::PhaseInversionDisabled,
            Setting::Complexity(_) => Param::Complexity,
            Setting::Bitrate(_) => Param::Bitrate,
            Setting::Vbr(_) => Param::Vbr,
            Setting::VbrConstraint(_) => Param::VbrConstraint,
            Setting::ForceChannels(_) => Param::ForceChannels,
            Setting::MaxBandwidth(_) => Param::MaxBandwidth,
            Setting::Bandwidth(_) => Param::Bandwidth,
            Setting::Signal(_) => Param::Signal,
            Setting::Application(_) => Param::Application,
            Setting::InbandFec(_) => Param::InbandFec,
            Setting::PacketLossPerc(_) => Param::PacketLossPerc,
            Setting::Dtx(_) => Param::Dtx,
            Setting::LsbDepth(_) => Param::LsbDepth,
            Setting::ExpertFrameDuration(_) => Param::ExpertFrameDuration,
            Setting::PredictionDisabled(_) => Param::PredictionDisabled,
            Setting::Gain(_) => Param::Gain,
        }
    }

    /// The request number that applies this setting.
    pub fn request(self) -> (r: i32)
        ensures
            r == self.spec_request(),
    {
        match self {
            Setting::PhaseInversionDisabled(_) => 4046,
            Setting::Complexity(_) => 4010,
            Setting::Bitrate(_) => 4002,
            Setting::Vbr(_) => 4006,
            Setting::VbrConstraint(_) => 4020,
            Setting::ForceChannels(_) => 4022,
            Setting::MaxBandwidth(_) => 4004,
            Setting::Bandwidth(_) => 4008,
            Setting::Signal(_) => 4024,
            Setting::Application(_) => 4000,
            Setting::InbandFec(_) => 4012,
            Setting::PacketLossPerc(_) => 4014,
            Setting::Dtx(_) => 4016,
            Setting::LsbDepth(_) => 4036,
            Setting::ExpertFrameDuration(_) => 4040,
            Setting::PredictionDisabled(_) => 4042,
            Setting::Gain(_) => 4034,
        }
    }

    /// The name of the request that applies this setting.
    pub open spec fn spec_name(self) -> Seq<char> {
        match self {
            Setting::PhaseInversionDisabled(_) => "OPUS_SET_PHASE_INVERSION_DISABLED_REQUEST"@,
            Setting::Complexity(_) => "OPUS_SET_COMPLEXITY_REQUEST"@,
            Setting::Bitrate(_) => "OPUS_SET_BITRATE_REQUEST"@,
            Setting::Vbr(_) => "OPUS_SET_VBR_REQUEST"@,
            Setting::VbrConstraint(_) => "OPUS_SET_VBR_CONSTRAINT_REQUEST"@,
            Setting::ForceChannels(_) => "OPUS_SET_FORCE_CHANNELS_REQUEST"@,
            Setting::MaxBandwidth(_) => "OPUS_SET_MAX_BANDWIDTH_REQUEST"@,
            Setting::Bandwidth(_) => "OPUS_SET_BANDWIDTH_REQUEST"@,
            Setting::Signal(_) => "OPUS_SET_SIGNAL_REQUEST"@,
            Setting::Application(_) => "OPUS_SET_APPLICATION_REQUEST"@,
            Setting::InbandFec(_) => "OPUS_SET_INBAND_FEC_REQUEST"@,
            Setting::PacketLossPerc(_) => "OPUS_SET_PACKET_LOSS_PERC_REQUEST"@,
            Setting::Dtx(_) => "OPUS_SET_DTX_REQUEST"@,
            Setting::LsbDepth(_) => "OPUS_SET_LSB_DEPTH_REQUEST"@,
            Setting::ExpertFrameDuration(_) => "OPUS_SET_EXPERT_FRAME_DURATION_REQUEST"@,
            Setting::PredictionDisabled(_) => "OPUS_SET_PREDICTION_DISABLED_REQUEST"@,
            Setting::Gain(_) => "OPUS_SET_GAIN_REQUEST"@,
        }
    }

    /// The name of the request that applies this setting.
    pub fn name(self) -> (r: &'static str)
        ensures
            r@ == self.spec_name(),
    {
        match self {
            Setting::PhaseInversionDisabled(_) => "OPUS_SET_PHASE_INVERSION_DISABLED_REQUEST",
            Setting::Complexity(_) => "OPUS_SET_COMPLEXITY_REQUEST",
            Setting::Bitrate(_) => "OPUS_SET_BITRATE_REQUEST",
            Setting::Vbr(_) => "OPUS_SET_VBR_REQUEST",
            Setting::VbrConstraint(_) => "OPUS_SET_VBR_CONSTRAINT_REQUEST",
            Setting::ForceChannels(_) => "OPUS_SET_FORCE_CHANNELS_REQUEST",
            Setting::MaxBandwidth(_) => "OPUS_SET_MAX_BANDWIDTH_REQUEST",
            Setting::Bandwidth(_) => "OPUS_SET_BANDWIDTH_REQUEST",
            Setting::Signal(_) => "OPUS_SET_SIGNAL_REQUEST",
            Setting::Application(_) => "OPUS_SET_APPLICATION_REQUEST",
            Setting::InbandFec(_) => "OPUS_SET_INBAND_FEC_REQUEST",
            Setting::PacketLossPerc(_) => "OPUS_SET_PACKET_LOSS_PERC_REQUEST",
            Setting::Dtx(_) => "OPUS_SET_DTX_REQUEST",
            Setting::LsbDepth(_) => "OPUS_SET_LSB_DEPTH_REQUEST",
            Setting::ExpertFrameDuration(_) => "OPUS_SET_EXPERT_FRAME_DURATION_REQUEST",
            Setting::PredictionDisabled(_) => "OPUS_SET_PREDICTION_DISABLED_REQUEST",
            Setting::Gain(_) => "OPUS_SET_GAIN_REQUEST",
        }
    }

    /// The raw payload that carries this setting's value.
    pub fn payload(self) -> (r: i32)
        ensures
            r == self.spec_payload(),
    {
        match self {
            Setting::PhaseInversionDisabled(b) => bool_raw(b),
            Setting::Complexity(v) => v,
            Setting::Bitrate(b) => b.raw(),
            Setting::Vbr(b) => bool_raw(b),
            Setting::VbrConstraint(b) => bool_raw(b),
            Setting::ForceChannels(c) => match c {
                None => OPUS_AUTO,
                Some(ch) => ch.count(),
            },
            Setting::MaxBandwidth(b) => b.raw(),
            Setting::Bandwidth(b) => b.raw(),
            Setting::Signal(s) => s.raw(),
            Setting::Application(a) => a.raw(),
            Setting::InbandFec(b) => bool_raw(b),
            Setting::PacketLossPerc(v) => v,
            Setting::Dtx(b) => bool_raw(b),
            Setting::LsbDepth(v) => v,
            Setting::ExpertFrameDuration(f) => f.raw(),
            Setting::PredictionDisabled(b) => bool_raw(b),
            Setting::Gain(v) => v,
        }
    }
}

/// The outcome of a request that carries no reply: a negative status is a
/// failure of that request, any other status is success.
pub fn finish_request(kind: HandleKind, name: &'static str, status: i32) -> (r: Result<(), Error>)
    ensures
        r is Ok <==> status >= 0,
        r is Err ==> r->Err_0.spec_function() == kind.spec_ctl_name()
            && r->Err_0.spec_request() == Some(name@)
            && r->Err_0.spec_code() == error_code_of(status),
{
    if status < 0 {
        Err(Error::from_request(kind.ctl_name(), name, status))
    } else {
        Ok(())
    }
}

/// The outcome of a setting: a negative status is a failure of its request.
pub fn finish_set(kind: HandleKind, setting: Setting, status: i32) -> (r: Result<(), Error>)
    ensures
        r is Ok <==> status >= 0,
        r is Err ==> r->Err_0.spec_function() == kind.spec_ctl_name()
            && r->Err_0.spec_request() == Some(setting.spec_name())
            && r->Err_0.spec_code() == error_code_of(status),
{
    finish_request(kind, setting.name(), status)
}

/// The outcome of reading a parameter: a negative status is a failure of its
/// request; otherwise the raw reply is decoded, and a raw value outside the
/// parameter's domain is a `BadArg` failure, never a wrong value.
pub fn finish_get(kind: HandleKind, param: Param, status: i32, raw: i32) -> (r: Result<
    Reply,
    Error,
>)
    ensures
        status >= 0 && param.spec_decode(raw) is Some ==> r == Ok::<Reply, Error>(
            param.spec_decode(raw)->Some_0,
        ),
        r is Ok ==> status >= 0 && param.spec_decode(raw) == Some(r->Ok_0),
        status < 0 ==> r is Err && r->Err_0.spec_code() == error_code_of(status),
        status >= 0 && param.spec_decode(raw) is None ==> r is Err && r->Err_0.spec_code()
            == ErrorCode::BadArg,
        r is Err ==> r->Err_0.spec_function() == kind.spec_ctl_name()
            && r->Err_0.spec_request() == Some(param.spec_get_name()),
{
    if status < 0 {
        return Err(Error::from_request(kind.ctl_name(), param.get_name(), status));
    }
    match param.decode(raw) {
        Some(reply) => Ok(reply),
        None => Err(Error::bad_reply(kind.ctl_name(), param.get_name())),
    }
}

/// Setting a parameter and reading it back agree: when the engine keeps the
/// raw payload of a setting and hands it back, the reply decodes to exactly
/// the value that was set, for every value in the parameter's domain,
/// sentinels ("auto", "max", no forced channels) included.
pub proof fn set_get_round_trip(setting: Setting)
    requires
        setting.wf(),
    ensures
        setting.spec_param().spec_decode(setting.spec_payload()) == Some(setting.spec_reply()),
{
    match setting {
        Setting::Bitrate(b) => {
            match b {
                Bitrate::Bits(v) => {},
                _ => {},
            }
        },
        Setting::ForceChannels(c) => {
            match c {
                Some(ch) => {},
                None => {},
            }
        },
        _ => {},
    }
}

} // verus!
