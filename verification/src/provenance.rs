//! Provenance helpers: the hexadecimal SHA-256 of a byte sequence, and the
//! name of the sample file of the reference configuration.

use sha2::Digest;
use sha2::Sha256;
use vstd::prelude::*;
use vstd::string::StringExecFns;

verus! {

/// The number of samples of the reference image.
pub const PIXELS: usize = 30000000;

/// The bit depth of a sample of the reference image.
pub const EXPONENT: u32 = 8;

/// The SHA-256 digest of a byte sequence.
pub uninterp spec fn sha256_of(bytes: Seq<u8>) -> Seq<u8>;

/// The lower-case hexadecimal digit of a value below 16.
pub open spec fn hex_digit(n: int) -> char {
    seq!['0', '1', '2', '3', '4', '5', '6', '7', '8', '9', 'a', 'b', 'c', 'd', 'e', 'f'][n]
}

/// The lower-case hexadecimal text of a byte sequence: two digits per byte,
/// the high half first.
pub open spec fn hex_text(bytes: Seq<u8>) -> Seq<char> {
    Seq::new(
        2 * bytes.len(),
        |k: int|
            if k % 2 == 0 {
                hex_digit(bytes[k / 2] as int / 16)
            } else {
                hex_digit(bytes[k / 2] as int % 16)
            },
    )
}

/// The decimal digit of a value below 10.
pub open spec fn decimal_digit(n: nat) -> char {
    seq!['0', '1', '2', '3', '4', '5', '6', '7', '8', '9'][n as int]
}

/// The decimal text of a natural number, without leading zeros.
pub open spec fn decimal_text(n: nat) -> Seq<char>
    decreases n,
{
    if n < 10 {
        seq![decimal_digit(n)]
    } else {
        decimal_text(n / 10).push(decimal_digit(n % 10))
    }
}

/// Calls `Digest::digest` of `sha2::Sha256`. Trusted: the bytes that come
/// out are a function of the bytes that went in, here named `sha256_of`.
#[verifier::external_body]
fn sha256(bytes: &[u8]) -> (r: Vec<u8>)
    ensures
        r@ == sha256_of(bytes@),
{
    Sha256::digest(bytes).to_vec()
}

/// Calls `hex::encode`. Trusted: each byte becomes two lower-case
/// hexadecimal digits, the high half first, in the order of the bytes.
#[verifier::external_body]
fn hex_encode(bytes: &[u8]) -> (r: String)
    ensures
        r@ == hex_text(bytes@),
{
    hex::encode(bytes)
}

/// Calls `u64`'s `to_string`. Trusted: the text is the number in decimal,
/// without sign or leading zeros.
#[verifier::external_body]
fn decimal_string(n: u64) -> (r: String)
    ensures
        r@ == decimal_text(n as nat),
{
    n.to_string()
}

/// The lower-case hexadecimal text of a byte sequence.
pub fn hex_string(bytes: &[u8]) -> (r: String)
    ensures
        r@ == hex_text(bytes@),
{
    hex_encode(bytes)
}

/// The SHA-256 digest of the bytes, as lower-case hexadecimal text.
pub fn sha256_hex_bytes(bytes: &[u8]) -> (r: String)
    ensures
        r@ == hex_text(sha256_of(bytes@)),
{
    let digest: Vec<u8> = sha256(bytes);
    hex_string(digest.as_slice())
}

/// The name of the sample file of the reference image: the prefix, then
/// `image_`, the number of samples, `_`, the bit depth, and `.txt`.
pub fn get_filename(prefix: &str) -> (r: String)
    ensures
        r@ == prefix@ + "image_"@ + decimal_text(PIXELS as nat) + "_"@ + decimal_text(
            EXPONENT as nat,
        ) + ".txt"@,
{
    let mut filename: String = prefix.to_owned();
    filename.append("image_");
    let pixels: String = decimal_string(PIXELS as u64);
    filename.append(pixels.as_str());
    filename.append("_");
    let exponent: String = decimal_string(EXPONENT as u64);
    filename.append(exponent.as_str());
    filename.append(".txt");
    filename
}

} // verus!
