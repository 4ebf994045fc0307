use vstd::prelude::*;
use crate::error::{error_code_of, Error, ErrorCode, OPUS_ALLOC_FAIL, OPUS_OK};
use crate::length::MAX_NATIVE_LEN;
use crate::types::Channels;

verus! {

/// The sample rates that the codec accepts.
pub open spec fn supported_sample_rate(rate: u32) -> bool {
    rate == 8000 || rate == 12000 || rate == 16000 || rate == 24000 || rate == 48000
}

/// Check a sample rate before a codec is created by `what`: a rate outside
/// 8, 12, 16, 24 and 48 kHz is a `BadArg` failure.
pub fn check_sample_rate(what: &'static str, sample_rate: u32) -> (r: Result<i32, Error>)
    ensures
        r is Ok <==> supported_sample_rate(sample_rate),
        r is Ok ==> r->Ok_0 as int == sample_rate as int,
        r is Err ==> r->Err_0.spec_code() == ErrorCode::BadArg && r->Err_0.spec_function() == what@,
{
    if sample_rate == 8000 || sample_rate == 12000 || sample_rate == 16000 || sample_rate == 24000
        || sample_rate == 48000 {
        Ok(sample_rate as i32)
    } else {
        Err(Error::bad_arg(what))
    }
}

/// The outcome of creating a native codec state with `what`: success only
/// where the native status is success and a state came back. A missing
/// state without a status of its own is an allocation failure.
pub fn check_created(what: &'static str, status: i32, created: bool) -> (r: Result<(), Error>)
    ensures
        r is Ok <==> status == OPUS_OK && created,
        r is Err && status != OPUS_OK ==> r->Err_0.spec_code() == error_code_of(status),
        r is Err && status == OPUS_OK ==> r->Err_0.spec_code() == ErrorCode::AllocFail,
        r is Err ==> r->Err_0.spec_function() == what@,
{
    if status != OPUS_OK {
        Err(Error::from_code(what, status))
    } else if !created {
        Err(Error::from_code(what, OPUS_ALLOC_FAIL))
    } else {
        Ok(())
    }
}

/// The outcome of a native call `what` that returns a count: a negative
/// status is a failure, anything else is the count.
pub fn check_count(what: &'static str, status: i32) -> (r: Result<usize, Error>)
    ensures
        r is Ok <==> status >= 0,
        r is Ok ==> r->Ok_0 as int == status as int,
        r is Err ==> r->Err_0.spec_code() == error_code_of(status) && r->Err_0.spec_function()
            == what@,
{
    if status < 0 {
        Err(Error::from_code(what, status))
    } else {
        Ok(status as usize)
    }
}

/// The number of samples per channel in an interleaved buffer of `samples`
/// values, in the native width.
pub fn frame_size(samples: usize, channels: Channels) -> (r: i32)
    requires
        samples <= MAX_NATIVE_LEN,
    ensures
        r as int == samples as int / channels.spec_count() as int,
{
    (samples as i32) / channels.count()
}

/// The number of samples per channel in an interleaved buffer of `samples`
/// values over `channels` channels, as a multistream codec counts them.
pub fn frame_size_of(samples: usize, channels: i32) -> (r: i32)
    requires
        samples <= MAX_NATIVE_LEN,
        channels >= 1,
    ensures
        r as int == samples as int / channels as int,
{
    (samples as i32) / channels
}

/// The capacity of an output buffer of `len` bytes handed to an encoder:
/// an empty buffer is a `BadArg` failure of `what`.
pub fn encode_capacity(what: &'static str, len: usize) -> (r: Result<i32, Error>)
    requires
        len <= MAX_NATIVE_LEN,
    ensures
        r is Ok <==> len > 0,
        r is Ok ==> r->Ok_0 as int == len as int,
        r is Err ==> r->Err_0.spec_code() == ErrorCode::BadArg && r->Err_0.spec_function() == what@,
{
    if len == 0 {
        Err(Error::bad_arg(what))
    } else {
        Ok(len as i32)
    }
}

/// Whether a decoder input stands for a lost packet: an empty input asks
/// the decoder to conceal the loss.
pub fn is_packet_loss(input_len: usize) -> (r: bool)
    ensures
        r <==> input_len == 0,
{
    input_len == 0
}

/// Whether every character of `s` is printable ASCII.
pub open spec fn is_printable_ascii(s: Seq<char>) -> bool {
    forall|i: int| 0 <= i < s.len() ==> ' ' <= #[trigger] s[i] <= '~'
}

/// Relies on unsafe_libopus::opus_get_version_string: it returns one fixed,
/// non-empty string of printable ASCII.
#[verifier::external_body]
fn version_string() -> (r: &'static str)
    ensures
        r@.len() > 0,
        is_printable_ascii(r@),
{
    unsafe_libopus::opus_get_version_string()
}

/// Get the libopus version string.
///
/// Applications may look for the substring "-fixed" in the version string to
/// determine whether they have a fixed-point or floating-point build at
/// runtime.
pub fn version() -> (r: &'static str)
    ensures
        r@.len() > 0,
        is_printable_ascii(r@),
{
    version_string()
}

} // verus!
