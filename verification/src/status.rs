//! HTTP status codes.

use vstd::prelude::*;

verus! {

/// `http::StatusCode::from_u16` takes the numbers from 100 to 999, and otherwise
/// its error reads "invalid status code".
#[verifier::external_body]
fn read_status(code: u16) -> (r: Result<u16, String>)
    ensures
        match r {
            Ok(status) => 100 <= code <= 999 && status == code,
            Err(message) => !(100 <= code <= 999) && message@ == "invalid status code"@,
        },
{
    http::StatusCode::from_u16(code).map(|s| s.as_u16()).map_err(|e| e.to_string())
}

/// The status code to answer a request with.
pub fn status_code(code: u16) -> (r: Result<u16, String>)
    ensures
        match r {
            Ok(status) => 100 <= code <= 999 && status == code,
            Err(message) => !(100 <= code <= 999) && message@ == "invalid status code: "@
                + "invalid status code"@,
        },
{
    match read_status(code) {
        Ok(status) => Ok(status),
        Err(e) => Err("invalid status code: ".to_string().concat(e.as_str())),
    }
}

} // verus!
