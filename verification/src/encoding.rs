//! Byte-level encodings used by the secret pipeline: lower-case hex for mirror
//! directory names, base64 for binary secret values, and UTF-8 decoding for
//! the text/binary classification.

use blake2::digest::Update;
use blake2::digest::VariableOutput;
use vstd::prelude::*;
use vstd::string::StrSliceExecFns;
use vstd::string::StringExecFns;
use vstd::utf8::decode_utf8;
use vstd::utf8::valid_utf8;

verus! {

/// The lower-case hex digit for a value below 16.
pub open spec fn hex_digit(n: u8) -> char
    recommends
        n < 16,
{
    if n == 0 {
        '0'
    } else if n == 1 {
        '1'
    } else if n == 2 {
        '2'
    } else if n == 3 {
        '3'
    } else if n == 4 {
        '4'
    } else if n == 5 {
        '5'
    } else if n == 6 {
        '6'
    } else if n == 7 {
        '7'
    } else if n == 8 {
        '8'
    } else if n == 9 {
        '9'
    } else if n == 10 {
        'a'
    } else if n == 11 {
        'b'
    } else if n == 12 {
        'c'
    } else if n == 13 {
        'd'
    } else if n == 14 {
        'e'
    } else {
        'f'
    }
}

/// The lower-case hex encoding of a byte sequence: two digits per byte, high
/// nibble first.
pub open spec fn hex_of(bytes: Seq<u8>) -> Seq<char> {
    Seq::new(
        2 * bytes.len(),
        |i: int|
            if i % 2 == 0 {
                hex_digit((bytes[i / 2] / 16) as u8)
            } else {
                hex_digit((bytes[i / 2] % 16) as u8)
            },
    )
}

/// Distinct values below 16 have distinct hex digits.
proof fn lemma_hex_digit_injective(m: u8, n: u8)
    requires
        m < 16,
        n < 16,
        hex_digit(m) == hex_digit(n),
    ensures
        m == n,
{
}

/// Hex encoding is injective: byte sequences of equal length with distinct
/// contents have distinct encodings.
pub proof fn lemma_hex_of_injective(a: Seq<u8>, b: Seq<u8>)
    requires
        a.len() == b.len(),
        hex_of(a) == hex_of(b),
    ensures
        a =~= b,
{
    assert forall|i: int| 0 <= i < a.len() implies a[i] == b[i] by {
        assert(hex_of(a)[2 * i] == hex_digit((a[i] / 16) as u8));
        assert(hex_of(b)[2 * i] == hex_digit((b[i] / 16) as u8));
        assert(hex_of(a)[2 * i + 1] == hex_digit((a[i] % 16) as u8));
        assert(hex_of(b)[2 * i + 1] == hex_digit((b[i] % 16) as u8));
        lemma_hex_digit_injective((a[i] / 16) as u8, (b[i] / 16) as u8);
        lemma_hex_digit_injective((a[i] % 16) as u8, (b[i] % 16) as u8);
        assert(a[i] == 16 * (a[i] / 16) + (a[i] % 16));
        assert(b[i] == 16 * (b[i] / 16) + (b[i] % 16));
    }
}

/// The one-character string holding the lower-case hex digit of a value below 16.
fn hex_digit_str(n: u8) -> (r: &'static str)
    requires
        n < 16,
    ensures
        r@.len() == 1,
        r@[0] == hex_digit(n),
{
    proof {
        reveal_strlit("0");
        reveal_strlit("1");
        reveal_strlit("2");
        reveal_strlit("3");
        reveal_strlit("4");
        reveal_strlit("5");
        reveal_strlit("6");
        reveal_strlit("7");
        reveal_strlit("8");
        reveal_strlit("9");
        reveal_strlit("a");
        reveal_strlit("b");
        reveal_strlit("c");
        reveal_strlit("d");
        reveal_strlit("e");
        reveal_strlit("f");
    }
    if n == 0 {
        "0"
    } else if n == 1 {
        "1"
    } else if n == 2 {
        "2"
    } else if n == 3 {
        "3"
    } else if n == 4 {
        "4"
    } else if n == 5 {
        "5"
    } else if n == 6 {
        "6"
    } else if n == 7 {
        "7"
    } else if n == 8 {
        "8"
    } else if n == 9 {
        "9"
    } else if n == 10 {
        "a"
    } else if n == 11 {
        "b"
    } else if n == 12 {
        "c"
    } else if n == 13 {
        "d"
    } else if n == 14 {
        "e"
    } else {
        "f"
    }
}

/// Encodes a byte sequence as lower-case hex, two digits per byte.
pub fn hex_encode(bytes: &Vec<u8>) -> (r: String)
    ensures
        r@ == hex_of(bytes@),
{
    let mut out = String::new();
    let n = bytes.len();
    let mut i: usize = 0;
    while i < n
        invariant
            n == bytes@.len(),
            0 <= i <= n,
            out@ =~= hex_of(bytes@.take(i as int)),
        decreases n - i,
    {
        let b = bytes[i];
        out.append(hex_digit_str(b / 16));
        out.append(hex_digit_str(b % 16));
        proof {
            assert(out@ =~= hex_of(bytes@.take(i + 1)));
        }
        i = i + 1;
    }
    proof {
        assert(bytes@.take(n as int) =~= bytes@);
        assert(out@ =~= hex_of(bytes@));
    }
    out
}

/// The 12-byte BLAKE2b digest of a byte sequence. The digest is a pure
/// function of the bytes; nothing further is assumed of its value.
pub uninterp spec fn blake2b12_of(bytes: Seq<u8>) -> Seq<u8>;

/// Relies on blake2's `Blake2bVar`: a variable-output BLAKE2b digest whose
/// result depends on the input bytes alone and has exactly the requested
/// width, here 12 bytes. Construction and finalization cannot fail for a
/// width of 12, which lies inside the documented 1..=64 range.
#[verifier::external_body]
pub(crate) fn blake2b_digest_12(bytes: &[u8]) -> (r: Vec<u8>)
    ensures
        r@ == blake2b12_of(bytes@),
        r@.len() == 12,
{
    let mut hasher = blake2::Blake2bVar::new(12).unwrap();
    hasher.update(bytes);
    let mut digest = [0u8; 12];
    hasher.finalize_variable(&mut digest).unwrap();
    digest.to_vec()
}

/// The base64 encoding (standard alphabet, with padding) of a byte sequence,
/// as a character sequence. The encoding is a pure function of the bytes.
pub uninterp spec fn base64_of(bytes: Seq<u8>) -> Seq<char>;

/// Relies on base64's `encode`: standard-alphabet base64 with padding, a pure
/// function of the input bytes.
#[verifier::external_body]
pub(crate) fn base64_encode(bytes: &Vec<u8>) -> (r: String)
    ensures
        r@ == base64_of(bytes@),
{
    base64::encode(bytes)
}

/// Relies on `core::str::from_utf8`: returns `Ok` exactly when the bytes are
/// valid UTF-8, and then the decoded characters; `str::to_owned` keeps the
/// characters. Validity and decoding are stated with vstd's UTF-8 model,
/// which is the model backing `str`'s own view.
#[verifier::external_body]
pub(crate) fn utf8_decode(bytes: &Vec<u8>) -> (r: Option<String>)
    ensures
        match r {
            Some(s) => valid_utf8(bytes@) && s@ == decode_utf8(bytes@),
            None => !valid_utf8(bytes@),
        },
{
    match core::str::from_utf8(bytes) {
        Ok(s) => Some(s.to_owned()),
        Err(_) => None,
    }
}

/// A character sequence with one trailing newline removed, if one is there.
pub open spec fn strip_newline(s: Seq<char>) -> Seq<char> {
    if s.len() > 0 && s.last() == '\n' {
        s.drop_last()
    } else {
        s
    }
}

/// Strips exactly one trailing newline character from the string, if present;
/// anything else is returned verbatim.
pub fn strip_trailing_newline(s: String) -> (r: String)
    ensures
        r@ == strip_newline(s@),
{
    let n = s.as_str().unicode_len();
    if n > 0 && s.as_str().get_char(n - 1) == '\n' {
        let stripped = s.as_str().substring_char(0, n - 1);
        proof {
            assert(stripped@ =~= s@.drop_last());
        }
        stripped.to_owned()
    } else {
        s
    }
}

} // verus!
