//! Settings that hold one number.

use vstd::prelude::*;
use crate::chars::{chars_of, trim, trimmed};
use crate::decimal::{parse_i32, parse_int, IntError};
use crate::source::{strip_newline, without_newline, ReadError, Unavailable};

verus! {

/// Where the kernel keeps the largest process ID that it hands out.
pub const PID_MAX_PATH: &'static str = "/proc/sys/kernel/pid_max";

/// The number that the text of a one-number setting holds: the text is
/// trimmed of whitespace and read as a signed decimal integer of 32 bits.
pub open spec fn parse_scalar(s: Seq<char>) -> Result<i32, IntError> {
    match parse_int(trim(s), true, i32::MIN as int, i32::MAX as int) {
        Ok(v) => Ok(v as i32),
        Err(e) => Err(e),
    }
}

/// The maximum process ID number, from what reading `PID_MAX_PATH` gave.
pub fn pid_max(raw: Result<&str, Unavailable>) -> (r: Result<i32, ReadError<IntError>>)
    ensures
        r == match raw {
            Err(why) => Err::<i32, ReadError<IntError>>(ReadError::Unavailable(why)),
            Ok(text) => match parse_scalar(strip_newline(text@)) {
                Ok(v) => Ok(v),
                Err(e) => Err(ReadError::Malformed(e)),
            },
        },
{
    match raw {
        Err(why) => Err(ReadError::Unavailable(why)),
        Ok(text) => {
            let chars = chars_of(text);
            match parse_i32(trimmed(without_newline(chars.as_slice()))) {
                Ok(v) => Ok(v),
                Err(e) => Err(ReadError::Malformed(e)),
            }
        },
    }
}

} // verus!
