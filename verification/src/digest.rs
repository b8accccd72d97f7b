//! Content digests: SHA-512, written as lowercase hex.

use vstd::prelude::*;

verus! {

/// The SHA-512 digest of a byte string. The function is fixed by the standard
/// and computed by the `sha2` crate; it is not written out here.
pub uninterp spec fn sha512_of(data: Seq<u8>) -> Seq<u8>;

/// The lowercase hex digit for a value below sixteen.
pub open spec fn hex_char(d: nat) -> char {
    if d == 0 {
        '0'
    } else if d == 1 {
        '1'
    } else if d == 2 {
        '2'
    } else if d == 3 {
        '3'
    } else if d == 4 {
        '4'
    } else if d == 5 {
        '5'
    } else if d == 6 {
        '6'
    } else if d == 7 {
        '7'
    } else if d == 8 {
        '8'
    } else if d == 9 {
        '9'
    } else if d == 10 {
        'a'
    } else if d == 11 {
        'b'
    } else if d == 12 {
        'c'
    } else if d == 13 {
        'd'
    } else if d == 14 {
        'e'
    } else {
        'f'
    }
}

/// Lowercase hex of a byte string: two digits per byte, high nibble first.
pub open spec fn hex_text(bytes: Seq<u8>) -> Seq<char>
    decreases bytes.len(),
{
    if bytes.len() == 0 {
        Seq::empty()
    } else {
        hex_text(bytes.drop_last()).push(hex_char(bytes.last() as nat / 16)).push(
            hex_char(bytes.last() as nat % 16),
        )
    }
}

/// The length of a SHA-512 digest, in bytes.
pub const DIGEST_LEN: usize = 64;

/// Whether a character is a lowercase hex digit.
pub open spec fn is_hex_digit(c: char) -> bool {
    exists|d: nat| d < 16 && c == #[trigger] hex_char(d)
}

/// Whether a text has the shape of a recorded digest: 128 lowercase hex
/// digits.
pub open spec fn is_digest_text(text: Seq<char>) -> bool {
    &&& text.len() == 2 * DIGEST_LEN
    &&& forall|i: int| 0 <= i < text.len() ==> is_hex_digit(#[trigger] text[i])
}

/// Hex text holds lowercase hex digits only.
pub proof fn hex_text_is_lowercase(bytes: Seq<u8>)
    ensures
        forall|i: int| 0 <= i < hex_text(bytes).len() ==> is_hex_digit(#[trigger] hex_text(bytes)[i]),
    decreases bytes.len(),
{
    if bytes.len() > 0 {
        let rest = hex_text(bytes.drop_last());
        hex_text_is_lowercase(bytes.drop_last());
        let high = bytes.last() as nat / 16;
        let low = bytes.last() as nat % 16;
        assert(is_hex_digit(hex_char(high)));
        assert(is_hex_digit(hex_char(low)));
        assert forall|i: int| 0 <= i < hex_text(bytes).len() implies is_hex_digit(
            #[trigger] hex_text(bytes)[i],
        ) by {
            if i < rest.len() {
                assert(hex_text(bytes)[i] == rest[i]);
            }
        }
    }
}

/// The hex text of a digest of full length has the shape of a recorded
/// digest.
pub proof fn hex_of_digest_is_digest_text(raw: Seq<u8>)
    requires
        raw.len() == DIGEST_LEN,
    ensures
        is_digest_text(hex_text(raw)),
{
    hex_text_len(raw);
    hex_text_is_lowercase(raw);
}

/// Hex text is twice as long as the bytes it renders.
pub proof fn hex_text_len(bytes: Seq<u8>)
    ensures
        hex_text(bytes).len() == 2 * bytes.len(),
    decreases bytes.len(),
{
    if bytes.len() > 0 {
        hex_text_len(bytes.drop_last());
    }
}

/// Calls `sha2::Sha512::digest` (the `Digest` trait's one-shot function) and
/// copies the output into a vector. Trusted: the result is the SHA-512 digest
/// of `data`, which is 64 bytes long.
#[verifier::external_body]
fn sha512_bytes(data: &[u8]) -> (r: Vec<u8>)
    ensures
        r@ == sha512_of(data@),
        r@.len() == 64,
{
    <sha2::Sha512 as sha2::Digest>::digest(data).to_vec()
}

/// Calls `hex::encode`. Trusted: the result renders each byte as two lowercase
/// hex digits, high nibble first, in order.
#[verifier::external_body]
fn hex_encode(bytes: &[u8]) -> (r: String)
    ensures
        r@ == hex_text(bytes@),
{
    hex::encode(bytes)
}

/// The digest of a file's content as it stands in an entry: 128 lowercase hex
/// digits of SHA-512.
pub fn compute_sha512(content: &[u8]) -> (r: String)
    ensures
        r@ == hex_text(sha512_of(content@)),
        is_digest_text(r@),
{
    let raw = sha512_bytes(content);
    proof {
        hex_of_digest_is_digest_text(raw@);
    }
    hex_encode(raw.as_slice())
}

/// Renders a raw digest that was computed while streaming a file.
pub fn encode_digest(raw: &[u8]) -> (r: String)
    ensures
        r@ == hex_text(raw@),
        r@.len() == 2 * raw@.len(),
        raw@.len() == DIGEST_LEN ==> is_digest_text(r@),
{
    proof {
        hex_text_len(raw@);
        if raw@.len() == DIGEST_LEN {
            hex_of_digest_is_digest_text(raw@);
        }
    }
    hex_encode(raw)
}

} // verus!
