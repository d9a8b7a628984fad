//! Application protocol names.

use vstd::prelude::*;

use super::error::{Error, ErrorView};
use crate::text::chars_of;

verus! {

/// Whether `c` can stand in a token (RFC 7230, section 3.2.6).
pub open spec fn is_token_char(c: char) -> bool {
    ||| '0' <= c <= '9'
    ||| 'A' <= c <= 'Z'
    ||| 'a' <= c <= 'z'
    ||| c == '!'
    ||| c == '#'
    ||| c == '$'
    ||| c == '%'
    ||| c == '&'
    ||| c == '\''
    ||| c == '*'
    ||| c == '+'
    ||| c == '-'
    ||| c == '.'
    ||| c == '^'
    ||| c == '_'
    ||| c == '`'
    ||| c == '|'
    ||| c == '~'
}

/// Whether a name is a token: one or more token characters. Only those can stand
/// in a `Sec-WebSocket-Protocol` header.
pub open spec fn is_token(name: Seq<char>) -> bool {
    &&& name.len() > 0
    &&& forall|i: int| 0 <= i < name.len() ==> is_token_char(#[trigger] name[i])
}

fn token_char(c: char) -> (r: bool)
    ensures
        r == is_token_char(c),
{
    ('0' <= c && c <= '9') || ('A' <= c && c <= 'Z') || ('a' <= c && c <= 'z') || c == '!' || c
        == '#' || c == '$' || c == '%' || c == '&' || c == '\'' || c == '*' || c == '+' || c == '-'
        || c == '.' || c == '^' || c == '_' || c == '`' || c == '|' || c == '~'
}

/// Check that `protocol` can be advertised on every transport.
pub fn validate_protocol(protocol: &str) -> (r: Result<(), Error>)
    ensures
        match r {
            Ok(_) => is_token(protocol@),
            Err(e) => !is_token(protocol@) && e@ == ErrorView::InvalidProtocol(protocol@),
        },
{
    let chars = chars_of(protocol);
    if chars.len() == 0 {
        return Err(Error::InvalidProtocol(protocol.to_string()));
    }
    let mut i: usize = 0;
    while i < chars.len()
        invariant
            chars@ == protocol@,
            i <= chars.len(),
            forall|j: int| 0 <= j < i ==> is_token_char(#[trigger] protocol@[j]),
        decreases chars.len() - i,
    {
        if !token_char(chars[i]) {
            assert(!is_token_char(protocol@[i as int]));
            return Err(Error::InvalidProtocol(protocol.to_string()));
        }
        i += 1;
    }
    Ok(())
}

/// Law: a token is made of visible ASCII characters that are no delimiters.
pub proof fn lemma_token(name: Seq<char>)
    ensures
        is_token(name) == (name.len() > 0 && forall|i: int|
            0 <= i < name.len() ==> {
                let c = #[trigger] name[i];
                &&& 0x21 <= c as int <= 0x7e
                &&& c != '"' && c != '(' && c != ')' && c != ',' && c != '/'
                &&& c != ':' && c != ';' && c != '<' && c != '=' && c != '>' && c != '?' && c != '@'
                &&& c != '[' && c != '\\' && c != ']' && c != '{' && c != '}'
            }),
{
    assert forall|i: int| 0 <= i < name.len() implies is_token_char(#[trigger] name[i]) == ({
        let c = name[i];
        &&& 0x21 <= c as int <= 0x7e
        &&& c != '"' && c != '(' && c != ')' && c != ',' && c != '/'
        &&& c != ':' && c != ';' && c != '<' && c != '=' && c != '>' && c != '?' && c != '@'
        &&& c != '[' && c != '\\' && c != ']' && c != '{' && c != '}'
    }) by {}
}

} // verus!
