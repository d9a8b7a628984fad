//! Application error codes inside the error code space of HTTP/3.
//!
//! Every 31st code of HTTP/3 is reserved for greasing, counted so that the codes
//! `0x1f * n + 0x21` are never used. An application code is placed in the range
//! `ERROR_FIRST..=ERROR_LAST` so that it skips those.

use vstd::prelude::*;

verus! {

/// The HTTP/3 code of application code 0.
pub const ERROR_FIRST: u64 = 0x52e4a40fa8db;

/// The HTTP/3 code of the largest application code.
pub const ERROR_LAST: u64 = 0x52e5ac983162;

/// The HTTP/3 code of an application code.
pub open spec fn http3_code(code: u32) -> u64 {
    (ERROR_FIRST + code + code / 0x1e) as u64
}

/// Whether HTTP/3 reserves the code for greasing.
pub open spec fn is_grease(code: u64) -> bool {
    code >= 0x21 && (code - 0x21) % 0x1f == 0
}

/// The application code behind an HTTP/3 code: the one that is sent as it, or
/// for a reserved code inside the range the one just below.
pub open spec fn application_code(code: u64) -> Option<u32> {
    if ERROR_FIRST <= code <= ERROR_LAST {
        let shift = code - ERROR_FIRST;
        Some((shift - shift / 0x1f) as u32)
    } else {
        None
    }
}

/// Place an application code in the error code space of HTTP/3.
pub fn error_to_http3(code: u32) -> (r: u64)
    ensures
        r == http3_code(code),
        ERROR_FIRST <= r <= ERROR_LAST,
{
    ERROR_FIRST + code as u64 + (code / 0x1e) as u64
}

/// The application code behind an HTTP/3 error code, if it is one of ours.
pub fn error_from_http3(code: u64) -> (r: Option<u32>)
    ensures
        r == application_code(code),
{
    if code < ERROR_FIRST || code > ERROR_LAST {
        return None;
    }
    let shift: u64 = code - ERROR_FIRST;
    Some((shift - shift / 0x1f) as u32)
}

/// An application code comes back from the HTTP/3 code that it was sent as.
pub proof fn lemma_code_round_trip(code: u32)
    ensures
        application_code(http3_code(code)) == Some(code),
{
    let n = code as int;
    let shift = n + n / 0x1e;
    assert(shift / 0x1f == n / 0x1e) by {
        let q = n / 0x1e;
        let r = n % 0x1e;
        assert(shift == 0x1f * q + r);
        assert(0 <= r < 0x1e);
    }
}

/// No application code is sent as a code that HTTP/3 reserves.
pub proof fn lemma_code_is_no_grease(code: u32)
    ensures
        !is_grease(http3_code(code)),
{
    let q = (code / 0x1e) as int;
    let r = (code % 0x1e) as int;
    assert(http3_code(code) == ERROR_FIRST + 0x1f * q + r);
    assert((ERROR_FIRST - 0x21) % 0x1f == 0x1) by {
        assert(ERROR_FIRST == 0x52e4a40fa8db);
    }
}

/// Different application codes are sent as different codes.
pub proof fn lemma_code_distinct(a: u32, b: u32)
    requires
        a != b,
    ensures
        http3_code(a) != http3_code(b),
{
    lemma_code_round_trip(a);
    lemma_code_round_trip(b);
}

/// Where the codes of an application lie: in the range that WebTransport has, in their
/// order, and thirty of them between one reserved code and the next.
pub proof fn lemma_code_range(code: u32)
    ensures
        http3_code(code) == 0x52e4a40fa8db + code + code / 30,
        0x52e4a40fa8db <= http3_code(code) <= 0x52e5ac983162,
        code < u32::MAX ==> http3_code((code + 1) as u32) == http3_code(code) + if code % 30 == 29 {
            2int
        } else {
            1int
        },
{
    if code < u32::MAX {
        assert((code + 1) / 30 == code / 30 + if code % 30 == 29 {
            1int
        } else {
            0int
        });
    }
}

/// A code outside of the range is none of ours. One inside is the code that is sent as
/// it, or a reserved one.
pub proof fn lemma_code_behind(code: u64)
    ensures
        code < 0x52e4a40fa8db || code > 0x52e5ac983162 ==> application_code(code) is None,
        0x52e4a40fa8db <= code <= 0x52e5ac983162 ==> (application_code(code) matches Some(c) && (
        http3_code(c) == code || code >= 0x21 && (code - 0x21) % 0x1f == 0)),
{
    if 0x52e4a40fa8db <= code <= 0x52e5ac983162 {
        let shift = code - 0x52e4a40fa8db;
        let q = shift / 0x1f;
        let r = shift % 0x1f;
        assert(shift == 0x1f * q + r);
        let c = shift - q;
        assert(c == 0x1e * q + r);
        assert(0 <= c <= u32::MAX);
        if r < 0x1e {
            assert(c / 0x1e == q);
        } else {
            assert(code - 0x21 == 0x1f * (q + (0x52e4a40fa8db - 0x21 + 0x1e) / 0x1f));
        }
    }
}

} // verus!
