//! Text made out of bytes, where the standard library decides how.

use bytes::Bytes;
use vstd::prelude::*;
use vstd::string::StrSliceExecFns;
use vstd::utf8::{
    decode_utf8, encode_utf8, encode_utf8_decode_utf8, encode_utf8_valid_utf8, valid_utf8,
};

use crate::buffer::contents;

verus! {

/// The text that a lossy reading gives of bytes that are not all UTF-8: what is
/// not is replaced.
pub uninterp spec fn lossy_text(bytes: Seq<u8>) -> Seq<char>;

/// The text that bytes from the peer are read as.
pub open spec fn read_text(bytes: Seq<u8>) -> Seq<char> {
    if valid_utf8(bytes) {
        decode_utf8(bytes)
    } else {
        lossy_text(bytes)
    }
}

/// A digit, up to sixteen of them.
pub open spec fn digit(d: nat) -> char {
    seq!['0', '1', '2', '3', '4', '5', '6', '7', '8', '9', 'a', 'b', 'c', 'd', 'e', 'f'][d as int]
}

/// A number in decimal digits.
pub open spec fn decimal_text(n: nat) -> Seq<char>
    decreases n,
{
    if n < 10 {
        seq![digit(n)]
    } else {
        decimal_text(n / 10).push(digit(n % 10))
    }
}

/// A number in hexadecimal digits.
pub open spec fn hex_text(n: nat) -> Seq<char>
    decreases n,
{
    if n < 16 {
        seq![digit(n)]
    } else {
        hex_text(n / 16).push(digit(n % 16))
    }
}

/// Text in quotes, as Rust writes it, with what cannot stand there escaped.
pub uninterp spec fn quoted_text(s: Seq<char>) -> Seq<char>;

/// A byte in a byte string literal.
pub open spec fn escaped(b: u8) -> Seq<char> {
    if b == 0x0a {
        seq!['\\', 'n']
    } else if b == 0x0d {
        seq!['\\', 'r']
    } else if b == 0x09 {
        seq!['\\', 't']
    } else if b == 0x5c || b == 0x22 {
        seq!['\\', b as char]
    } else if b == 0 {
        seq!['\\', '0']
    } else if 0x20 <= b < 0x7f {
        seq![b as char]
    } else {
        seq!['\\', 'x', digit((b / 16) as nat), digit((b % 16) as nat)]
    }
}

/// Bytes in a byte string literal, without what goes around them.
pub open spec fn all_escaped(bytes: Seq<u8>) -> Seq<char>
    decreases bytes.len(),
{
    if bytes.len() == 0 {
        Seq::empty()
    } else {
        all_escaped(bytes.drop_last()) + escaped(bytes.last())
    }
}

/// Bytes as a byte string literal.
pub open spec fn debug_text(bytes: Seq<u8>) -> Seq<char> {
    seq!['b', '"'] + all_escaped(bytes) + seq!['"']
}

/// `std::str::from_utf8`: the text, exactly where the bytes are valid UTF-8.
#[verifier::external_body]
pub(crate) fn from_utf8(bytes: &[u8]) -> (r: Option<&str>)
    ensures
        match r {
            Some(s) => valid_utf8(bytes@) && s@ == decode_utf8(bytes@),
            None => !valid_utf8(bytes@),
        },
{
    std::str::from_utf8(bytes).ok()
}

/// `String::from_utf8_lossy`: the plain reading of valid UTF-8, and otherwise
/// the text that [`lossy_text`] names.
#[verifier::external_body]
pub(crate) fn from_utf8_lossy(bytes: &[u8]) -> (r: String)
    ensures
        valid_utf8(bytes@) ==> r@ == decode_utf8(bytes@),
        !valid_utf8(bytes@) ==> r@ == lossy_text(bytes@),
{
    String::from_utf8_lossy(bytes).into_owned()
}

/// `Debug` of a `Bytes`: a byte string literal that shows the bytes left. What is
/// not printable ASCII is escaped, and so are quotes and backslashes.
#[verifier::external_body]
pub(crate) fn debug(b: &Bytes) -> (r: String)
    ensures
        r@ == debug_text(contents(*b)),
{
    format!("{b:?}")
}

/// `Debug` of a `str`: the text in quotes that [`quoted_text`] names.
#[verifier::external_body]
pub(crate) fn quoted(s: &str) -> (r: String)
    ensures
        r@ == quoted_text(s@),
{
    format!("{s:?}")
}

/// One digit.
fn digit_str(d: u64) -> (r: &'static str)
    requires
        d < 16,
    ensures
        r@ == seq![digit(d as nat)],
{
    let digits = [
        "0", "1", "2", "3", "4", "5", "6", "7", "8", "9", "a", "b", "c", "d", "e", "f",
    ];
    proof {
        reveal_strlit("0");
        reveal_strlit("1");
        reveal_strlit("2");
        reveal_strlit("3");
        reveal_strlit("4");
        reveal_strlit("5");
        reveal_strlit("6");
        reveal_strlit("7");
        reveal_strlit("8");
        reveal_strlit("9");
        reveal_strlit("a");
        reveal_strlit("b");
        reveal_strlit("c");
        reveal_strlit("d");
        reveal_strlit("e");
        reveal_strlit("f");
        assert(digits@[d as int]@ =~= seq![digit(d as nat)]);
    }
    digits[d as usize]
}

/// A number in decimal digits.
pub fn decimal(n: u64) -> (r: String)
    ensures
        r@ == decimal_text(n as nat),
    decreases n,
{
    if n < 10 {
        digit_str(n).to_string()
    } else {
        let r = decimal(n / 10).concat(digit_str(n % 10));
        assert(r@ =~= decimal_text(n as nat));
        r
    }
}

/// A number in hexadecimal digits.
pub fn hex(n: u64) -> (r: String)
    ensures
        r@ == hex_text(n as nat),
    decreases n,
{
    if n < 16 {
        digit_str(n).to_string()
    } else {
        let r = hex(n / 16).concat(digit_str(n % 16));
        assert(r@ =~= hex_text(n as nat));
        r
    }
}

/// The characters of a string.
pub fn chars_of(s: &str) -> (r: Vec<char>)
    ensures
        r@ == s@,
{
    let mut out: Vec<char> = Vec::new();
    for c in it: s.chars()
        invariant
            out@.len() == it.index(),
            it.seq() == s@,
            forall|j: int| 0 <= j < out@.len() ==> out@[j] == s@[j],
    {
        out.push(c);
    }
    assert(out@ =~= s@);
    out
}

/// Whether two strings are the same.
pub fn equal(a: &str, b: &str) -> (r: bool)
    ensures
        r == (a@ == b@),
{
    a.to_string() == b.to_string()
}

/// What follows `prefix` in `s`, if it starts with that.
pub fn strip_prefix<'a>(s: &'a str, prefix: &str) -> (r: Option<&'a str>)
    ensures
        match r {
            Some(rest) => prefix@.is_prefix_of(s@) && rest@ == s@.skip(prefix@.len() as int),
            None => !prefix@.is_prefix_of(s@),
        },
{
    let chars = chars_of(s);
    let head = chars_of(prefix);
    if head.len() > chars.len() {
        return None;
    }
    let mut i: usize = 0;
    while i < head.len()
        invariant
            chars@ == s@,
            head@ == prefix@,
            i <= head@.len() <= chars@.len(),
            forall|j: int| 0 <= j < i ==> chars@[j] == head@[j],
        decreases head@.len() - i,
    {
        if chars[i] != head[i] {
            assert(s@.subrange(0, prefix@.len() as int)[i as int] != prefix@[i as int]);
            return None;
        }
        i += 1;
    }
    assert(s@.subrange(0, prefix@.len() as int) =~= prefix@);
    Some(s.substring_char(head.len(), chars.len()))
}

/// What a digit stands for.
pub open spec fn digit_value(c: char) -> int {
    if c <= '9' {
        c as int - '0' as int
    } else {
        c as int - 'a' as int + 10
    }
}

/// The number that digits to a base write down.
pub open spec fn number(text: Seq<char>, base: int) -> int
    decreases text.len(),
{
    if text.len() == 0 {
        0
    } else {
        number(text.drop_last(), base) * base + digit_value(text.last())
    }
}

/// Law: a number is written in the digits 0 to 9 that stand for it, without zeros in
/// front.
pub proof fn lemma_decimal(n: nat)
    ensures
        number(decimal_text(n), 10) == n,
        decimal_text(n).len() > 0,
        forall|i: int| 0 <= i < decimal_text(n).len() ==> '0' <= #[trigger] decimal_text(n)[i]
            <= '9',
        n > 0 ==> decimal_text(n)[0] != '0',
    decreases n,
{
    reveal_with_fuel(number, 2);
    if n >= 10 {
        lemma_decimal(n / 10);
        let head = decimal_text(n / 10);
        assert(decimal_text(n).drop_last() =~= head);
        assert forall|i: int| 0 <= i < decimal_text(n).len() implies '0'
            <= #[trigger] decimal_text(n)[i] <= '9' by {
            if i < head.len() {
                assert(decimal_text(n)[i] == head[i]);
            }
        }
        assert(decimal_text(n)[0] == head[0]);
    } else {
        assert(decimal_text(n).drop_last() =~= Seq::empty());
    }
}

/// Law: the same to the base 16, with the letters a to f for the digits from ten on.
pub proof fn lemma_hex(n: nat)
    ensures
        number(hex_text(n), 16) == n,
        hex_text(n).len() > 0,
        forall|i: int|
            0 <= i < hex_text(n).len() ==> '0' <= #[trigger] hex_text(n)[i] <= '9' || 'a'
                <= hex_text(n)[i] <= 'f',
        n > 0 ==> hex_text(n)[0] != '0',
    decreases n,
{
    reveal_with_fuel(number, 2);
    if n >= 16 {
        lemma_hex(n / 16);
        let head = hex_text(n / 16);
        assert(hex_text(n).drop_last() =~= head);
        assert forall|i: int| 0 <= i < hex_text(n).len() implies '0' <= #[trigger] hex_text(n)[i]
            <= '9' || 'a' <= hex_text(n)[i] <= 'f' by {
            if i < head.len() {
                assert(hex_text(n)[i] == head[i]);
            }
        }
        assert(hex_text(n)[0] == head[0]);
    } else {
        assert(hex_text(n).drop_last() =~= Seq::empty());
    }
}

/// Law: valid UTF-8 is read as the text that it holds.
pub proof fn lemma_text_read(text: Seq<char>, bytes: Seq<u8>)
    ensures
        read_text(encode_utf8(text)) == text,
        valid_utf8(bytes) ==> read_text(bytes) == decode_utf8(bytes),
        !valid_utf8(bytes) ==> read_text(bytes) == lossy_text(bytes),
{
    encode_utf8_valid_utf8(text);
    encode_utf8_decode_utf8(text);
}

} // verus!
