//! The Java exception each kind of failure is raised as.
use crate::error::TapAuthError;
use vstd::prelude::*;

verus! {

/// `java.lang.IllegalArgumentException`: invalid input parameters.
pub const ILLEGAL_ARGUMENT_EXCEPTION: &'static str = "java/lang/IllegalArgumentException";

/// `java.lang.IllegalStateException`: interop errors other than memory
/// exhaustion.
pub const ILLEGAL_STATE_EXCEPTION: &'static str = "java/lang/IllegalStateException";

/// `java.lang.OutOfMemoryError`: allocation failures.
pub const OUT_OF_MEMORY_ERROR: &'static str = "java/lang/OutOfMemoryError";

/// `java.io.IOException`: encoding, decoding and I/O failures.
pub const IO_EXCEPTION: &'static str = "java/io/IOException";

/// `java.security.GeneralSecurityException`: cryptographic failures.
pub const GENERAL_SECURITY_EXCEPTION: &'static str = "java/security/GeneralSecurityException";

/// `javax.crypto.AEADBadTagException`: an authentication tag that does not
/// verify.
pub const AEAD_BAD_TAG_EXCEPTION: &'static str = "javax/crypto/AEADBadTagException";

/// `javax.crypto.BadPaddingException`: padding or format errors.
pub const BAD_PADDING_EXCEPTION: &'static str = "javax/crypto/BadPaddingException";

/// `java.security.InvalidKeyException`: malformed key material.
pub const INVALID_KEY_EXCEPTION: &'static str = "java/security/InvalidKeyException";

/// An exception to raise on the Java side: its class (in JNI's slash
/// notation) and its message.
#[derive(Debug, Clone, PartialEq, Eq)]
pub struct JavaException {
    pub class: &'static str,
    pub message: String,
}

fn exception(class: &'static str, message: String) -> (r: JavaException)
    ensures
        r.class == class,
        r.message == message,
{
    JavaException { class, message }
}

/// An `IllegalArgumentException` with `message`.
pub fn throw_illegal_argument(message: String) -> (r: JavaException)
    ensures
        r.class == ILLEGAL_ARGUMENT_EXCEPTION && r.message == message,
{
    exception(ILLEGAL_ARGUMENT_EXCEPTION, message)
}

/// An `IllegalStateException` with `message`.
pub fn throw_illegal_state(message: String) -> (r: JavaException)
    ensures
        r.class == ILLEGAL_STATE_EXCEPTION && r.message == message,
{
    exception(ILLEGAL_STATE_EXCEPTION, message)
}

/// An `OutOfMemoryError` with `message`.
pub fn throw_out_of_memory(message: String) -> (r: JavaException)
    ensures
        r.class == OUT_OF_MEMORY_ERROR && r.message == message,
{
    exception(OUT_OF_MEMORY_ERROR, message)
}

/// An `IOException` with `message`.
pub fn throw_io_exception(message: String) -> (r: JavaException)
    ensures
        r.class == IO_EXCEPTION && r.message == message,
{
    exception(IO_EXCEPTION, message)
}

/// A `GeneralSecurityException` with `message`.
pub fn throw_security_exception(message: String) -> (r: JavaException)
    ensures
        r.class == GENERAL_SECURITY_EXCEPTION && r.message == message,
{
    exception(GENERAL_SECURITY_EXCEPTION, message)
}

/// An `AEADBadTagException` with `message`.
pub fn throw_aead_bad_tag(message: String) -> (r: JavaException)
    ensures
        r.class == AEAD_BAD_TAG_EXCEPTION && r.message == message,
{
    exception(AEAD_BAD_TAG_EXCEPTION, message)
}

/// A `BadPaddingException` with `message`.
pub fn throw_bad_padding(message: String) -> (r: JavaException)
    ensures
        r.class == BAD_PADDING_EXCEPTION && r.message == message,
{
    exception(BAD_PADDING_EXCEPTION, message)
}

/// An `InvalidKeyException` with `message`.
pub fn throw_invalid_key(message: String) -> (r: JavaException)
    ensures
        r.class == INVALID_KEY_EXCEPTION && r.message == message,
{
    exception(INVALID_KEY_EXCEPTION, message)
}

/// The message a decoding failure is reported with, before the decoder's
/// description.
pub const PROTO_DECODE_MESSAGE: &'static str = "failed to decode Protobuf message";

/// The message a failed authentication tag is reported with.
pub const AEAD_BAD_TAG_MESSAGE: &'static str = "AEAD tag verification failed";

/// The exception class and message a boundary error is raised as.
pub open spec fn spec_exception_of(err: TapAuthError) -> (&'static str, Seq<char>) {
    match err {
        TapAuthError::InvalidInput(m) => (ILLEGAL_ARGUMENT_EXCEPTION, m@),
        TapAuthError::Io(m) => (IO_EXCEPTION, m@),
        TapAuthError::ProtoDecode(d) => (IO_EXCEPTION, PROTO_DECODE_MESSAGE@ + ": "@ + d@),
        TapAuthError::AeadBadTag => (AEAD_BAD_TAG_EXCEPTION, AEAD_BAD_TAG_MESSAGE@),
        TapAuthError::Crypto(m) => (GENERAL_SECURITY_EXCEPTION, m@),
        TapAuthError::State(m) => (ILLEGAL_STATE_EXCEPTION, m@),
    }
}

/// The exception a boundary error is raised as: invalid input is an
/// illegal argument; I/O and decoding failures are I/O exceptions; a bad
/// tag is an AEAD bad-tag exception; cryptographic failures are security
/// exceptions; state errors are illegal-state exceptions.
pub fn throw_tapauth_error(err: &TapAuthError) -> (r: JavaException)
    ensures
        (r.class, r.message@) == spec_exception_of(*err),
{
    match err {
        TapAuthError::InvalidInput(msg) => throw_illegal_argument(msg.clone()),
        TapAuthError::Io(msg) => throw_io_exception(msg.clone()),
        TapAuthError::ProtoDecode(d) => {
            let mut m = PROTO_DECODE_MESSAGE.to_owned();
            m.append(": ");
            m.append(d.as_str());
            throw_io_exception(m)
        },
        TapAuthError::AeadBadTag => throw_aead_bad_tag(AEAD_BAD_TAG_MESSAGE.to_owned()),
        TapAuthError::Crypto(msg) => throw_security_exception(msg.clone()),
        TapAuthError::State(msg) => throw_illegal_state(msg.clone()),
    }
}

} // verus!
