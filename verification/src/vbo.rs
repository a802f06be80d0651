//! The outcome of adding a vertex buffer to the GPU's buffer list, and the
//! decimal text of integers used in its error message.
use vstd::prelude::*;

use crate::error::CitraError;
use crate::glb::is_platform_error;

verus! {

/// The character of the decimal digit `d`.
pub open spec fn digit_char(d: int) -> char {
    if d == 0 {
        '0'
    } else if d == 1 {
        '1'
    } else if d == 2 {
        '2'
    } else if d == 3 {
        '3'
    } else if d == 4 {
        '4'
    } else if d == 5 {
        '5'
    } else if d == 6 {
        '6'
    } else if d == 7 {
        '7'
    } else if d == 8 {
        '8'
    } else {
        '9'
    }
}

/// The decimal digits of `n`, most significant first.
pub open spec fn digits(n: nat) -> Seq<char>
    decreases n,
{
    if n < 10 {
        seq![digit_char(n as int)]
    } else {
        digits(n / 10).push(digit_char((n % 10) as int))
    }
}

/// The decimal text of `n`, with a minus sign when it is negative.
pub open spec fn decimal(n: int) -> Seq<char> {
    if n < 0 {
        seq!['-'] + digits((-n) as nat)
    } else {
        digits(n as nat)
    }
}

/// The text of the digit `d`.
fn digit_text(d: u64) -> (s: &'static str)
    requires
        d < 10,
    ensures
        s@ == seq![digit_char(d as int)],
{
    proof {
        reveal_strlit("0");
        reveal_strlit("1");
        reveal_strlit("2");
        reveal_strlit("3");
        reveal_strlit("4");
        reveal_strlit("5");
        reveal_strlit("6");
        reveal_strlit("7");
        reveal_strlit("8");
        reveal_strlit("9");
    }
    if d == 0 {
        "0"
    } else if d == 1 {
        "1"
    } else if d == 2 {
        "2"
    } else if d == 3 {
        "3"
    } else if d == 4 {
        "4"
    } else if d == 5 {
        "5"
    } else if d == 6 {
        "6"
    } else if d == 7 {
        "7"
    } else if d == 8 {
        "8"
    } else {
        "9"
    }
}

/// Appends the decimal digits of `n` to `s`.
pub fn push_digits(s: &mut String, n: u64)
    ensures
        final(s)@ == old(s)@ + digits(n as nat),
    decreases n,
{
    if n < 10 {
        s.append(digit_text(n));
    } else {
        push_digits(s, n / 10);
        s.append(digit_text(n % 10));
        proof {
            assert(old(s)@ + digits(n as nat) =~= old(s)@ + digits((n / 10) as nat) + seq![
                digit_char((n % 10) as int),
            ]);
        }
    }
}

/// Appends the decimal text of `n` to `s`.
pub fn push_decimal(s: &mut String, n: i32)
    ensures
        final(s)@ == old(s)@ + decimal(n as int),
{
    if n < 0 {
        s.append("-");
        proof {
            reveal_strlit("-");
        }
        let m: i64 = -(n as i64);
        push_digits(s, m as u64);
        proof {
            assert(old(s)@ + decimal(n as int) =~= old(s)@ + seq!['-'] + digits((-n) as nat));
        }
    } else {
        push_digits(s, n as u64);
    }
}

/// Where a vertex buffer stands in the GPU's buffer list, and how many
/// vertices it holds.
#[derive(Clone, Copy, Debug, PartialEq, Eq, Structural)]
pub struct VboSlice {
    pub index: i32,
    pub size: i32,
}

/// The slice of a buffer of `vertex_count` vertices that the GPU's buffer
/// list added at `res`, or the error for the negative code `res`: `-1` when
/// the list is full, `-2` for a buffer outside the GPU's memory, and a system
/// error below that.
pub fn vbo_slice_from_add(res: i32, vertex_count: usize) -> (out: Result<VboSlice, CitraError>)
    ensures
        res <= -3 ==> is_platform_error(out, "System Error: "@ + decimal(res as int)),
        res == -2 ==> is_platform_error(out, "Invalid Memory Location"@),
        res == -1 ==> is_platform_error(out, "Too Many Buffers"@),
        res >= 0 ==> out == Ok::<VboSlice, CitraError>(
            VboSlice { index: res, size: vertex_count as i32 },
        ),
{
    if res <= -3 {
        let mut msg = String::from_str("System Error: ");
        push_decimal(&mut msg, res);
        Err(CitraError::PlatformError(msg))
    } else if res == -2 {
        Err(CitraError::PlatformError(String::from_str("Invalid Memory Location")))
    } else if res == -1 {
        Err(CitraError::PlatformError(String::from_str("Too Many Buffers")))
    } else {
        Ok(VboSlice { index: res, size: vertex_count as i32 })
    }
}

} // verus!
