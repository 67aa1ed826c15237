//! What the node takes from the `cita_crypto` and `cita_types` crates: digests, addresses, and
//! the public key behind a signature.

use crate::bytes::{Address, H256};
use cita_crypto::{pubkey_to_address, PubKey, Sign, Signature};
use cita_types::traits::LowerHex;
use std::str::FromStr;
use vstd::prelude::*;

verus! {

/// The length of a signature, in bytes.
pub const SIGNATURE_BYTES_LEN: usize = 65;

/// The length of a public key, in bytes.
pub const PUBKEY_BYTES_LEN: usize = 64;

/// Why `cita_crypto` gave no public key.
#[verifier::external_type_specification]
#[verifier::external_body]
pub struct ExCryptoError(cita_crypto::Error);

/// The public key that `Signature::recover` finds behind `signature` over `hash`, if any.
pub uninterp spec fn recovered_pubkey(signature: Seq<u8>, hash: Seq<u8>) -> Option<Seq<u8>>;

/// The address that `pubkey_to_address` derives from `pubkey`.
pub uninterp spec fn address_of(pubkey: Seq<u8>) -> Seq<u8>;

/// `text` without the `0x` in front of it, if there is one.
pub open spec fn strip_0x(text: Seq<char>) -> Seq<char> {
    if text.len() >= 2 && text[0] == '0' && text[1] == 'x' {
        text.skip(2)
    } else {
        text
    }
}

pub open spec fn is_hex_digit(c: char) -> bool {
    '0' <= c <= '9' || 'a' <= c <= 'f' || 'A' <= c <= 'F'
}

pub open spec fn is_blank(c: char) -> bool {
    c == ' ' || c == '\t' || c == '\r' || c == '\n'
}

/// `text` writes an address: apart from blanks and a leading `0x`, forty hexadecimal digits.
pub open spec fn is_address_text(text: Seq<char>) -> bool {
    let digits = strip_0x(text).filter(|c: char| !is_blank(c));
    digits.len() == 40 && forall|i: int| 0 <= i < 40 ==> is_hex_digit(#[trigger] digits[i])
}

/// The lower-case hexadecimal digit of `n`.
pub open spec fn hex_digit(n: int) -> char {
    if n < 10 {
        ('0' as int + n) as char
    } else {
        ('a' as int + (n - 10)) as char
    }
}

/// `bytes` in lower-case hexadecimal, two digits to the byte.
pub open spec fn lower_hex(bytes: Seq<u8>) -> Seq<char> {
    Seq::new(
        2 * bytes.len(),
        |i: int|
            hex_digit(
                if i % 2 == 0 {
                    bytes[i / 2] as int / 16
                } else {
                    bytes[i / 2] as int % 16
                },
            ),
    )
}

/// Makes a hash with `cita_types`' `H256::from_slice`, and takes its bytes with `to_fixed_bytes`.
///
/// Claimed of them: the bytes are kept as they are. `from_slice` panics on any other length than that
/// of a hash; those are left out.
#[verifier::external_body]
pub(crate) fn h256_from_slice(src: &[u8]) -> (hash: H256)
    requires
        src.len() == 32,
    ensures
        hash@ == src@,
{
    cita_types::H256::from_slice(src).to_fixed_bytes()
}

/// Makes an address with `cita_types`' `Address::from_slice`, and takes its bytes with
/// `to_fixed_bytes`.
///
/// Claimed of them: the bytes are kept as they are. `from_slice` panics on any other length than that
/// of an address; those are left out.
#[verifier::external_body]
pub(crate) fn address_from_slice(src: &[u8]) -> (address: Address)
    requires
        src.len() == 20,
    ensures
        address@ == src@,
{
    cita_types::Address::from_slice(src).to_fixed_bytes()
}

/// Writes an address with the `lower_hex` of `cita_types`' `LowerHex`.
///
/// Claimed of it: every byte becomes two lower-case hexadecimal digits, the higher one first, with
/// nothing before, between or after them.
#[verifier::external_body]
pub(crate) fn address_lower_hex(address: &Address) -> (text: String)
    ensures
        text@ == lower_hex(address@),
{
    cita_types::Address::from(address).lower_hex()
}

/// Reads an address with the `from_str` of `cita_types`' `Address`.
///
/// Claimed of it: it succeeds on exactly those texts that, without a leading `0x` and without blanks,
/// are forty hexadecimal digits of either case. The address that is read is not used.
#[verifier::external_body]
pub(crate) fn address_parses(text: &str) -> (parses: bool)
    ensures
        parses == is_address_text(text@),
{
    cita_types::Address::from_str(text).is_ok()
}

/// `clean_0x` of `cita_types`.
///
/// Claimed of it: it takes one `0x` off the front, and leaves a text without one as it is.
pub assume_specification[ cita_types::clean_0x ](s: &str) -> (stripped: &str)
    ensures
        stripped@ == strip_0x(s@),
;

/// Finds the signer of a hash with the `recover` of `cita_crypto`'s `Sign`, on a `Signature` made by
/// `Signature::from`.
///
/// Claimed of them: whether there is a public key, and which one, depends on the bytes of the
/// signature and of the hash alone, and is given the name [`recovered_pubkey`]; a key has the length
/// of a public key. `Signature::from` panics on any other length than that of a signature; those are
/// left out. Nothing is said of which key it is, or of the error.
#[verifier::external_body]
pub(crate) fn recover(signature: &[u8], hash: &H256) -> (pubkey: Result<Vec<u8>, cita_crypto::Error>)
    requires
        signature.len() == SIGNATURE_BYTES_LEN,
    ensures
        match pubkey {
            Ok(key) => recovered_pubkey(signature@, hash@) == Some(key@) && key.len()
                == PUBKEY_BYTES_LEN,
            Err(_) => recovered_pubkey(signature@, hash@) is None,
        },
{
    let pubkey = Signature::from(signature).recover(&cita_types::H256::from(hash))?;
    Ok(pubkey.as_bytes().to_vec())
}

/// Derives the address of a public key with `cita_crypto`'s `pubkey_to_address`, on a `PubKey` made by
/// `PubKey::from_slice`.
///
/// Claimed of them: the address depends on the bytes of the key alone, and is given the name
/// [`address_of`]. `from_slice` panics on any other length than that of a public key; those are left
/// out.
#[verifier::external_body]
pub(crate) fn pubkey_address(pubkey: &[u8]) -> (address: Address)
    requires
        pubkey.len() == PUBKEY_BYTES_LEN,
    ensures
        address@ == address_of(pubkey@),
{
    pubkey_to_address(&PubKey::from_slice(pubkey)).to_fixed_bytes()
}

} // verus!
