//! What the directory has from the `sessionless` crate: fresh identifiers,
//! and the parsing and checking of signatures. Nothing in this module is
//! proved: each function states what the outside function does.

use vstd::prelude::*;

verus! {

/// Whether `Signature::from_str` of `secp256k1` accepts the text: an even
/// number of hexadecimal digits that spell a DER-encoded ECDSA signature.
pub uninterp spec fn signature_parses(text: Seq<char>) -> bool;

/// Whether `PublicKey::from_str` of `secp256k1` accepts the text: the
/// hexadecimal form of a compressed or uncompressed public key.
pub uninterp spec fn public_key_parses(text: Seq<char>) -> bool;

/// Whether `Sessionless::verify` accepts the signature for the message under
/// the public key, the two given by the texts that parse to them.
pub uninterp spec fn signature_matches(
    message: Seq<char>,
    public_key: Seq<char>,
    signature: Seq<char>,
) -> bool;

/// Calls `Sessionless::generate_uuid`, which draws a random version 4 UUID,
/// and writes it in the hyphenated form of 36 characters. Nothing else is
/// claimed of the result. The outside function panics where the system
/// cannot supply random bytes.
#[verifier::external_body]
pub(crate) fn generate_uuid() -> (uuid: String)
    ensures
        uuid@.len() == 36,
{
    sessionless::Sessionless::generate_uuid().to_string()
}

/// Calls `Signature::from_str` and reports whether it succeeded.
#[verifier::external_body]
pub(crate) fn signature_is_well_formed(text: &str) -> (ok: bool)
    ensures
        ok == signature_parses(text@),
{
    text.parse::<sessionless::Signature>().is_ok()
}

/// Calls `PublicKey::from_str` and reports whether it succeeded.
#[verifier::external_body]
pub(crate) fn public_key_is_well_formed(text: &str) -> (ok: bool)
    ensures
        ok == public_key_parses(text@),
{
    text.parse::<sessionless::PublicKey>().is_ok()
}

/// Calls `Sessionless::verify` on the message, with the key and the
/// signature that the two texts parse to, and reports whether it accepted.
/// The outside function hashes the bytes of the message and checks the
/// signature over that hash, so the result depends on these three values
/// alone. Both texts have to parse.
#[verifier::external_body]
pub(crate) fn signature_verifies(message: &str, public_key: &str, signature: &str) -> (ok: bool)
    requires
        public_key_parses(public_key@),
        signature_parses(signature@),
    ensures
        ok == signature_matches(message@, public_key@, signature@),
{
    let key = public_key.parse::<sessionless::PublicKey>();
    let parsed = signature.parse::<sessionless::Signature>();
    match (key, parsed) {
        (Ok(key), Ok(parsed)) => {
            sessionless::Sessionless::new().verify(message, &key, &parsed).is_ok()
        },
        _ => false,
    }
}

} // verus!
