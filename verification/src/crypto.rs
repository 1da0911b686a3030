//! Signatures: who sent a transaction or a vote.
//!
//! Keys and signatures are Ed25519, from the crate `ed25519_dalek`.

use ed25519_dalek::{Signature, Signer, SigningKey, Verifier, VerifyingKey};
use vstd::prelude::*;

use crate::error::{io_err, ErrorKind, NodeError};

verus! {

/// How `VerifyingKey::from_bytes` rejects a public key: the text of its error,
/// or `None` for a key that it takes.
pub uninterp spec fn ed25519_key_error(key: Seq<u8>) -> Option<Seq<char>>;

/// How `VerifyingKey::verify` rejects a signature over a message: the text of
/// its error, or `None` for a signature that it takes.
pub uninterp spec fn ed25519_verify_error(key: Seq<u8>, message: Seq<u8>, signature: Seq<u8>) -> Option<Seq<char>>;

/// The public key that `SigningKey::verifying_key` derives from a secret key.
pub uninterp spec fn ed25519_public_key(secret: Seq<u8>) -> Seq<u8>;

/// The signature that `SigningKey::sign` makes over a message.
pub uninterp spec fn ed25519_signature(secret: Seq<u8>, message: Seq<u8>) -> Seq<u8>;

/// Calls `VerifyingKey::from_bytes`. Whether it takes the key, and the text of
/// its error where it does not, depend on the bytes of the key alone.
#[verifier::external_body]
fn decode_key(key: &[u8; 32]) -> (decoded: Result<(), String>)
    ensures
        match decoded {
            Ok(_) => ed25519_key_error(key@) is None,
            Err(text) => ed25519_key_error(key@) == Some(text@),
        },
{
    match VerifyingKey::from_bytes(key) {
        Ok(_) => Ok(()),
        Err(error) => Err(error.to_string()),
    }
}

/// Calls `VerifyingKey::verify` with a key that `VerifyingKey::from_bytes`
/// takes. Whether it takes the signature, and the text of its error where it
/// does not, depend on the key, the message and the signature alone.
#[verifier::external_body]
fn check_signature(key: &[u8; 32], message: &[u8], signature: &[u8; 64]) -> (checked: Result<(), String>)
    requires
        ed25519_key_error(key@) is None,
    ensures
        match checked {
            Ok(_) => ed25519_verify_error(key@, message@, signature@) is None,
            Err(text) => ed25519_verify_error(key@, message@, signature@) == Some(text@),
        },
{
    match VerifyingKey::from_bytes(key).unwrap().verify(message, &Signature::from_bytes(signature)) {
        Ok(_) => Ok(()),
        Err(error) => Err(error.to_string()),
    }
}

/// Calls `SigningKey::verifying_key`. The public key depends on the secret key
/// alone, and `VerifyingKey::from_bytes` takes it.
#[verifier::external_body]
pub(crate) fn public_key(secret: &[u8; 32]) -> (key: [u8; 32])
    ensures
        key@ == ed25519_public_key(secret@),
        ed25519_key_error(key@) is None,
{
    SigningKey::from_bytes(secret).verifying_key().to_bytes()
}

/// Calls `SigningKey::sign`. The signature depends on the secret key and the
/// message alone, and it verifies under the public key of that secret key.
#[verifier::external_body]
pub(crate) fn sign(secret: &[u8; 32], message: &[u8]) -> (signature: [u8; 64])
    ensures
        signature@ == ed25519_signature(secret@, message@),
        ed25519_verify_error(ed25519_public_key(secret@), message@, signature@) is None,
{
    SigningKey::from_bytes(secret).sign(message).to_bytes()
}

/// The text of the error about bytes of the wrong length.
pub open spec fn wrong_length() -> Seq<char> {
    "could not convert slice to array"@
}

/// The bytes of a slice as an array, where the slice has the right length.
pub fn fixed<const N: usize>(bytes: &[u8]) -> (array: Result<[u8; N], NodeError>)
    ensures
        match array {
            Ok(array) => bytes@ == array@,
            Err(error) => bytes@.len() != N && error.is(ErrorKind::InvalidData, wrong_length()),
        },
{
    if bytes.len() != N {
        return io_err(Err("could not convert slice to array".to_string()));
    }
    let mut array: [u8; N] = [0u8; N];
    let mut i: usize = 0;
    while i < N
        invariant
            i <= N,
            bytes@.len() == N,
            array@.len() == N,
            forall|k: int| 0 <= k < i ==> array@[k] == bytes@[k],
        decreases N - i,
    {
        array[i] = bytes[i];
        i += 1;
    }
    assert(bytes@ =~= array@);
    Ok(array)
}

/// Why a public key and a signature cannot be used at all: the key has the
/// wrong length, it is no key, or the signature has the wrong length.
pub open spec fn unusable(pubkey: Seq<u8>, signature: Seq<u8>) -> Option<Seq<char>> {
    if pubkey.len() != 32 {
        Some(wrong_length())
    } else if ed25519_key_error(pubkey) is Some {
        ed25519_key_error(pubkey)
    } else if signature.len() != 64 {
        Some(wrong_length())
    } else {
        None
    }
}

/// Why a signature is not accepted, or `None` where it is.
pub open spec fn rejection(pubkey: Seq<u8>, message: Seq<u8>, signature: Seq<u8>) -> Option<Seq<char>> {
    match unusable(pubkey, signature) {
        Some(text) => Some(text),
        None => ed25519_verify_error(pubkey, message, signature),
    }
}

/// The key and the signature, where both can be used.
pub(crate) fn usable(pubkey: &[u8], signature: &[u8]) -> (parts: Result<([u8; 32], [u8; 64]), NodeError>)
    ensures
        match unusable(pubkey@, signature@) {
            None => parts matches Ok((key, signed)) && key@ == pubkey@ && signed@ == signature@,
            Some(text) => parts matches Err(error) && error.is(ErrorKind::InvalidData, text),
        },
{
    let key: [u8; 32] = match fixed(pubkey) {
        Ok(key) => key,
        Err(error) => return Err(error),
    };
    match io_err(decode_key(&key)) {
        Ok(_) => {},
        Err(error) => return Err(error),
    }
    let signed: [u8; 64] = match fixed(signature) {
        Ok(signed) => signed,
        Err(error) => return Err(error),
    };
    Ok((key, signed))
}

/// Whether a usable key and signature belong to the message.
pub(crate) fn genuine(key: &[u8; 32], message: &[u8], signature: &[u8; 64]) -> (checked: Result<(), NodeError>)
    requires
        ed25519_key_error(key@) is None,
    ensures
        match ed25519_verify_error(key@, message@, signature@) {
            None => checked is Ok,
            Some(text) => checked matches Err(error) && error.is(ErrorKind::InvalidData, text),
        },
{
    io_err(check_signature(key, message, signature))
}

/// Verifies that a message was signed with the secret key that belongs to a
/// public key.
pub fn verify_transaction(pubkey: &[u8], unsigned_msg: &[u8], signed_msg: &[u8]) -> (verified: Result<(), NodeError>)
    ensures
        match rejection(pubkey@, unsigned_msg@, signed_msg@) {
            None => verified is Ok,
            Some(text) => verified matches Err(error) && error.is(ErrorKind::InvalidData, text),
        },
{
    match usable(pubkey, signed_msg) {
        Ok((key, signed)) => genuine(&key, unsigned_msg, &signed),
        Err(error) => Err(error),
    }
}

/// A signature is accepted exactly if the key and the signature have their
/// lengths, the key is one, and the signature belongs to the message under it.
pub proof fn accepted_exactly_if_genuine(pubkey: Seq<u8>, message: Seq<u8>, signature: Seq<u8>)
    ensures
        rejection(pubkey, message, signature) is None <==> {
            &&& pubkey.len() == 32
            &&& signature.len() == 64
            &&& ed25519_key_error(pubkey) is None
            &&& ed25519_verify_error(pubkey, message, signature) is None
        },
        unusable(pubkey, signature) is None <==> pubkey.len() == 32 && signature.len() == 64 && ed25519_key_error(
            pubkey,
        ) is None,
{
}

/// The first thing that is wrong is what is reported: the length of the key, the
/// key itself, the length of the signature, and last the signature.
pub proof fn first_fault_is_reported(pubkey: Seq<u8>, message: Seq<u8>, signature: Seq<u8>)
    ensures
        pubkey.len() != 32 ==> rejection(pubkey, message, signature) == Some("could not convert slice to array"@),
        pubkey.len() == 32 && ed25519_key_error(pubkey) is Some ==> rejection(pubkey, message, signature)
            == ed25519_key_error(pubkey),
        pubkey.len() == 32 && ed25519_key_error(pubkey) is None && signature.len() != 64 ==> rejection(
            pubkey,
            message,
            signature,
        ) == Some("could not convert slice to array"@),
        unusable(pubkey, signature) is Some ==> rejection(pubkey, message, signature) == unusable(pubkey, signature),
        unusable(pubkey, signature) is None ==> rejection(pubkey, message, signature) == ed25519_verify_error(
            pubkey,
            message,
            signature,
        ),
{
}

} // verus!
