//! Session identifiers: the first 128 bits of the SHA-256 digest of a folder's
//! path, written as 32 lower-case hexadecimal digits.
//!
//! The identifier depends on the path alone, so the same folder is found again
//! in every run of the program.

use sha2::Digest;
use vstd::prelude::*;
use vstd::slice::slice_subrange;
use vstd::utf8::encode_utf8;

verus! {

/// Number of digest bytes that make up a session identifier.
pub const ID_BYTES: usize = 16;

/// The SHA-256 digest of a byte string.
pub uninterp spec fn sha256(data: Seq<u8>) -> Seq<u8>;

/// Computes a SHA-256 digest with `sha2`.
///
/// Trusted: `<sha2::Sha256 as Digest>::digest` returns the digest of exactly
/// the bytes it is given, as a function of those bytes, and the digest is 32
/// bytes long (its output size is `U32`).
#[verifier::external_body]
fn sha256_digest(data: &[u8]) -> (digest: Vec<u8>)
    ensures
        digest@ == sha256(data@),
        digest@.len() == 32,
{
    sha2::Sha256::digest(data).to_vec()
}

/// The lower-case hexadecimal digit for a value below sixteen.
pub open spec fn hex_digit(nibble: int) -> char {
    if nibble < 10 {
        (('0' as u8) + nibble) as char
    } else {
        (('a' as u8) + (nibble - 10)) as char
    }
}

/// Lower-case hexadecimal form of a byte string: two digits per byte, the
/// high half first.
pub open spec fn hex_lower(data: Seq<u8>) -> Seq<char> {
    Seq::new(
        2 * data.len(),
        |i: int|
            if i % 2 == 0 {
                hex_digit((data[i / 2] as int) / 16)
            } else {
                hex_digit((data[i / 2] as int) % 16)
            },
    )
}

/// Encodes bytes as hexadecimal text with `hex`.
///
/// Trusted: `hex::encode` writes each byte as two lower-case hexadecimal
/// digits, in order, and nothing else.
#[verifier::external_body]
fn hex_encode(data: &[u8]) -> (text: String)
    ensures
        text@ == hex_lower(data@),
{
    hex::encode(data)
}

/// The identifier that a digest gives: its first [`ID_BYTES`] bytes, or all of
/// it when it is shorter, in hexadecimal.
pub open spec fn id_of_digest(digest: Seq<u8>) -> Seq<char> {
    if digest.len() >= ID_BYTES {
        hex_lower(digest.take(ID_BYTES as int))
    } else {
        hex_lower(digest)
    }
}

/// The identifier of the session for the folder at `path`.
pub open spec fn session_id_of(path: Seq<char>) -> Seq<char> {
    hex_lower(sha256(encode_utf8(path)).take(ID_BYTES as int))
}

/// Writes the identifier that a digest gives.
pub fn session_id_from_digest(digest: &[u8]) -> (id: String)
    ensures
        id@ == id_of_digest(digest@),
{
    if digest.len() >= ID_BYTES {
        let head = slice_subrange(digest, 0, ID_BYTES);
        assert(head@ =~= digest@.take(ID_BYTES as int));
        hex_encode(head)
    } else {
        hex_encode(digest)
    }
}

/// Derives the session identifier of a folder from its path.
pub fn generate_session_id(folder_path: &str) -> (id: String)
    ensures
        id@ == session_id_of(folder_path@),
        id@.len() == 2 * ID_BYTES,
{
    let digest = sha256_digest(folder_path.as_bytes());
    session_id_from_digest(digest.as_slice())
}

/// Different values below sixteen have different digits.
proof fn lemma_hex_digit_injective(a: int, b: int)
    requires
        0 <= a < 16,
        0 <= b < 16,
        hex_digit(a) == hex_digit(b),
    ensures
        a == b,
{
    let da = if a < 10 { ('0' as u8) + a } else { ('a' as u8) + (a - 10) };
    let db = if b < 10 { ('0' as u8) + b } else { ('a' as u8) + (b - 10) };
    assert(0 <= da < 128 && 0 <= db < 128);
    assert((da as char) as int == da);
    assert((db as char) as int == db);
}

/// Hexadecimal text determines the bytes it was written from.
pub proof fn lemma_hex_lower_injective(a: Seq<u8>, b: Seq<u8>)
    requires
        hex_lower(a) == hex_lower(b),
    ensures
        a == b,
{
    assert(hex_lower(a).len() == 2 * a.len());
    assert(hex_lower(b).len() == 2 * b.len());
    assert(a.len() == b.len());
    assert forall|i: int| 0 <= i < a.len() implies a[i] == b[i] by {
        let x = a[i] as int;
        let y = b[i] as int;
        assert(hex_lower(a)[2 * i] == hex_digit(x / 16));
        assert(hex_lower(b)[2 * i] == hex_digit(y / 16));
        assert(hex_lower(a)[2 * i + 1] == hex_digit(x % 16));
        assert(hex_lower(b)[2 * i + 1] == hex_digit(y % 16));
        lemma_hex_digit_injective(x / 16, y / 16);
        lemma_hex_digit_injective(x % 16, y % 16);
    }
    assert(a =~= b);
}

/// The identifier is a function of the path: one path never has two
/// identifiers, in this run or in another.
pub proof fn lemma_session_id_deterministic(a: Seq<char>, b: Seq<char>)
    requires
        a == b,
    ensures
        session_id_of(a) == session_id_of(b),
{
}

/// Two paths share an identifier exactly when their digests agree in the
/// first 128 bits: writing the digest down as text loses nothing.
pub proof fn lemma_session_id_collision(a: Seq<char>, b: Seq<char>)
    ensures
        session_id_of(a) == session_id_of(b) <==> sha256(encode_utf8(a)).take(ID_BYTES as int)
            == sha256(encode_utf8(b)).take(ID_BYTES as int),
{
    if session_id_of(a) == session_id_of(b) {
        lemma_hex_lower_injective(
            sha256(encode_utf8(a)).take(ID_BYTES as int),
            sha256(encode_utf8(b)).take(ID_BYTES as int),
        );
    }
}

} // verus!
