use vstd::prelude::*;

verus! {

/// The largest length that the native interface can be handed.
pub const MAX_NATIVE_LEN: usize = 2147483647;

/// Convert a buffer length or an index to the native integer width.
///
/// A length that does not fit is a programming error, which callers rule out
/// before the call.
pub fn check_len(val: usize) -> (r: i32)
    requires
        val <= MAX_NATIVE_LEN,
    ensures
        r as int == val as int,
{
    val as i32
}

} // verus!
