//! Checks on command-line values.

use crate::kubernetes::all_decimal_digits;
use vstd::prelude::*;
use vstd::string::*;

verus! {

/// The program's name.
pub const PROGRAM_NAME: &'static str = "State Proxy";

/// Accept a value in which every character is a decimal digit. The check is on characters
/// alone: the empty value has none that is not a digit, and passes.
pub fn arg_is_number(x: &str) -> (r: Result<(), String>)
    ensures
        r is Ok <==> all_decimal_digits(x@),
        r matches Err(message) ==> message@ == "must be a number"@,
{
    let n = x.unicode_len();
    let mut i: usize = 0;
    while i < n
        invariant
            n == x@.len(),
            i <= n,
            forall|k: int| 0 <= k < i ==> crate::kubernetes::is_decimal_digit(#[trigger] x@[k]),
        decreases n - i,
    {
        let c = x.get_char(i);
        if !('0' <= c && c <= '9') {
            return Err(String::from_str("must be a number"));
        }
        i += 1;
    }
    Ok(())
}

} // verus!
