//! What the Java bridge decides: which exception a failure becomes, and
//! how key material handed over as a Java byte array is read. Moving the
//! values across the JNI boundary is the caller's part.
pub mod conversions;
pub mod exceptions;
