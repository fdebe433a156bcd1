//! Hexadecimal rendering of transaction hashes for API responses.

use vstd::prelude::*;
use vstd::string::StringExecFns;

verus! {

/// The lowercase hexadecimal digit of a nibble.
pub open spec fn hex_digit(n: u8) -> char
    recommends
        n < 16,
{
    if n < 10 {
        (('0' as u8) + n) as char
    } else {
        (('a' as u8) + (n - 10)) as char
    }
}

/// The lowercase hexadecimal rendering of a byte string: two digits per
/// byte, high nibble first.
pub open spec fn hex_of(bytes: Seq<u8>) -> Seq<char>
    decreases bytes.len(),
{
    if bytes.len() == 0 {
        Seq::empty()
    } else {
        hex_of(bytes.drop_last()) + seq![
            hex_digit(bytes.last() / 16),
            hex_digit(bytes.last() % 16),
        ]
    }
}

/// Relies on hex::encode: lowercase hexadecimal, two digits per byte, high
/// nibble first.
#[verifier::external_body]
fn hex_encode(bytes: &Vec<u8>) -> (r: String)
    ensures
        r@ == hex_of(bytes@),
{
    hex::encode(bytes)
}

/// Renders a transaction hash the way the API reports it: `0x` followed by
/// the lowercase hexadecimal digits of the hash bytes.
pub fn tx_hash_hex_string(hash: &Vec<u8>) -> (r: String)
    ensures
        r@ == seq!['0', 'x'] + hex_of(hash@),
{
    let mut out = "0x".to_owned();
    let encoded = hex_encode(hash);
    out.append(encoded.as_str());
    proof {
        reveal_strlit("0x");
        assert(out@ =~= seq!['0', 'x'] + hex_of(hash@));
    }
    out
}

} // verus!
