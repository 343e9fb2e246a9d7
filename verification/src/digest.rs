//! Content-addressed identifiers for session names.

use vstd::prelude::*;
use vstd::string::*;

verus! {

/// Number of hexadecimal characters kept from a name's digest.
pub const DIGEST_LEN: usize = 8;

/// The 32-byte BLAKE3 hash of a byte string.
pub uninterp spec fn blake3_digest(input: Seq<u8>) -> Seq<u8>;

/// Calls `blake3::hash` and hands back the raw bytes of the hash it returns
/// (`Hash::as_bytes`).
///
/// Trusted: the result is a function of the input bytes alone, so the same
/// input gives the same 32 bytes in every process and on every machine.
#[verifier::external_body]
fn blake3_hash(input: &[u8]) -> (out: [u8; 32])
    ensures
        out@ == blake3_digest(input@),
{
    *blake3::hash(input).as_bytes()
}

/// The lowercase hexadecimal digit for a value below 16.
pub open spec fn hex_digit(v: int) -> char {
    if v < 10 {
        (v + 48) as char
    } else {
        (v + 87) as char
    }
}

/// The lowercase hexadecimal encoding of a byte string: two digits per byte,
/// the high half first.
pub open spec fn hex_string(bytes: Seq<u8>) -> Seq<char> {
    Seq::new(
        2 * bytes.len(),
        |i: int|
            if i % 2 == 0 {
                hex_digit(bytes[i / 2] as int / 16)
            } else {
                hex_digit(bytes[i / 2] as int % 16)
            },
    )
}

/// Whether a character is a lowercase hexadecimal digit.
pub open spec fn is_hex_digit(c: char) -> bool {
    ('0' <= c <= '9') || ('a' <= c <= 'f')
}

/// Law: the hexadecimal encoding holds two characters for each byte, and
/// each of them is a lowercase hexadecimal digit.
pub proof fn lemma_hex_string_digits(bytes: Seq<u8>)
    ensures
        hex_string(bytes).len() == 2 * bytes.len(),
        forall|i: int| 0 <= i < 2 * bytes.len() ==> is_hex_digit(#[trigger] hex_string(bytes)[i]),
{
}

/// The identifier of a session name: the hexadecimal BLAKE3 hash of the
/// name's UTF-8 bytes, cut to its first `DIGEST_LEN` characters.
pub open spec fn digest_of(name: Seq<char>) -> Seq<char> {
    hex_string(blake3_digest(vstd::utf8::encode_utf8(name))).take(DIGEST_LEN as int)
}

fn hex_digit_str(v: u8) -> (s: &'static str)
    requires
        v < 16,
    ensures
        s@ == seq![hex_digit(v as int)],
{
    proof {
        reveal_strlit("0");
        reveal_strlit("1");
        reveal_strlit("2");
        reveal_strlit("3");
        reveal_strlit("4");
        reveal_strlit("5");
        reveal_strlit("6");
        reveal_strlit("7");
        reveal_strlit("8");
        reveal_strlit("9");
        reveal_strlit("a");
        reveal_strlit("b");
        reveal_strlit("c");
        reveal_strlit("d");
        reveal_strlit("e");
        reveal_strlit("f");
    }
    let s = if v == 0 {
        "0"
    } else if v == 1 {
        "1"
    } else if v == 2 {
        "2"
    } else if v == 3 {
        "3"
    } else if v == 4 {
        "4"
    } else if v == 5 {
        "5"
    } else if v == 6 {
        "6"
    } else if v == 7 {
        "7"
    } else if v == 8 {
        "8"
    } else if v == 9 {
        "9"
    } else if v == 10 {
        "a"
    } else if v == 11 {
        "b"
    } else if v == 12 {
        "c"
    } else if v == 13 {
        "d"
    } else if v == 14 {
        "e"
    } else {
        "f"
    };
    s
}

/// The number of bytes that are encoded when `count` are asked for: no more
/// than there are.
pub open spec fn encoded_count(bytes: Seq<u8>, count: int) -> int {
    if count <= bytes.len() {
        count
    } else {
        bytes.len() as int
    }
}

/// Encodes the first `count` bytes of `bytes` in lowercase hexadecimal; all
/// of them where there are fewer.
pub fn hex_encode_prefix(bytes: &[u8], count: usize) -> (out: String)
    ensures
        out@ == hex_string(bytes@.take(encoded_count(bytes@, count as int))),
        out@ == hex_string(bytes@).take(2 * encoded_count(bytes@, count as int)),
        out@.len() == 2 * encoded_count(bytes@, count as int),
        forall|i: int| 0 <= i < out@.len() ==> is_hex_digit(#[trigger] out@[i]),
{
    let stop = if count <= bytes.len() {
        count
    } else {
        bytes.len()
    };
    let mut out = String::new();
    let mut i: usize = 0;
    while i < stop
        invariant
            i <= stop <= bytes@.len(),
            out@ == hex_string(bytes@.take(i as int)),
        decreases stop - i,
    {
        let b = bytes[i];
        out.append(hex_digit_str(b / 16));
        out.append(hex_digit_str(b % 16));
        i += 1;
    }
    out
}

/// Computes the identifier of a session name. It is a function of the
/// characters of the name alone: the same name has the same identifier on
/// every call, in every process and on every machine.
pub fn compute_hash_prefix(name: &str) -> (out: String)
    ensures
        out@ == digest_of(name@),
        out@.len() == DIGEST_LEN,
        forall|i: int| 0 <= i < out@.len() ==> is_hex_digit(#[trigger] out@[i]),
{
    let hash = blake3_hash(name.as_bytes());
    hex_encode_prefix(hash.as_slice(), DIGEST_LEN / 2)
}

} // verus!
