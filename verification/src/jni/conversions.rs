//! Reading key material that arrives as a Java byte array.
use crate::crypto::keys::Ed25519KeyPair;
use crate::text::{decimal, push_decimal, take32};
use vstd::prelude::*;

verus! {

/// The message for a byte array called `name` that is not `n` bytes long.
pub open spec fn spec_wrong_size_message(name: Seq<char>, n: nat) -> Seq<char> {
    name + " must be "@ + decimal(n) + " bytes"@
}

/// The contents of a Java byte array called `name` that must hold exactly
/// `n` bytes: the bytes themselves, or the message the caller raises as an
/// illegal argument when the length differs.
pub fn jbytearray_to_fixed(bytes: &[u8], n: usize, name: &str) -> (r: Result<Vec<u8>, String>)
    ensures
        bytes@.len() == n ==> (r matches Ok(v) && v@ == bytes@),
        bytes@.len() != n ==> (r matches Err(m) && m@ == spec_wrong_size_message(name@, n as nat)),
{
    if bytes.len() == n {
        let mut v: Vec<u8> = Vec::new();
        let mut i: usize = 0;
        while i < bytes.len()
            invariant
                i <= bytes@.len(),
                v@ =~= bytes@.take(i as int),
            decreases bytes@.len() - i,
        {
            v.push(bytes[i]);
            i = i + 1;
            assert(v@ =~= bytes@.take(i as int));
        }
        assert(bytes@.take(bytes@.len() as int) =~= bytes@);
        Ok(v)
    } else {
        let mut m = name.to_owned();
        m.append(" must be ");
        push_decimal(&mut m, n as u64);
        m.append(" bytes");
        Err(m)
    }
}

/// The signing key an Ed25519 key buffer carries: a 32-byte buffer is the
/// key itself, a 64-byte buffer (key then public key) carries it in its
/// first half; other lengths carry none.
pub open spec fn spec_signing_key_of(bytes: Seq<u8>) -> Option<Seq<u8>> {
    if bytes.len() == 32 || bytes.len() == 64 {
        Some(bytes.take(32))
    } else {
        None
    }
}

/// The message for a key buffer of the wrong length.
pub open spec fn spec_bad_key_length_message(name: Seq<char>) -> Seq<char> {
    name + " must be 32 bytes (signing key) or 64 bytes (full keypair)"@
}

/// Loads an Ed25519 key pair from the bytes of a Java byte array called
/// `name`: 32 bytes are the signing key, 64 bytes a full key pair whose
/// first 32 bytes are the signing key. Any other length is refused with
/// the message the caller raises as an illegal argument.
pub fn jbytearray_to_ed25519_keypair(bytes: &[u8], name: &str) -> (r: Result<Ed25519KeyPair, String>)
    ensures
        match spec_signing_key_of(bytes@) {
            Some(key) => r matches Ok(kp) && kp.secret() == key,
            None => r matches Err(m) && m@ == spec_bad_key_length_message(name@),
        },
{
    if bytes.len() != 32 && bytes.len() != 64 {
        let mut m = name.to_owned();
        m.append(" must be 32 bytes (signing key) or 64 bytes (full keypair)");
        return Err(m);
    }
    let key = take32(bytes);
    match Ed25519KeyPair::from_signing_key_bytes(&key) {
        Ok(kp) => Ok(kp),
        Err(e) => {
            let mut m = "invalid Ed25519 keypair: ".to_owned();
            m.append(e.message());
            Err(m)
        },
    }
}

} // verus!
