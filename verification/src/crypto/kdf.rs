//! Key derivation for pairing: the pairing key from the X25519 shared
//! secret, and the six-digit short authentication string both sides show.
use crate::crypto::keys::PairingSymmetricKey;
use crate::crypto::primitives::{hkdf_sha256, hkdf_sha256_expand};
use crate::crypto::CryptoError;
use crate::daemon::peer::{all_digits, digit_value, digits_value};
use crate::text::{digit_char, digit_of, push_char, u64_from_be, u64_from_be_bytes};
use crate::wire::append_bytes;
use vstd::prelude::*;
use vstd::string::StringSliceAdditionalSpecFns;
use vstd::utf8::{decode_utf8, encode_utf8, is_ascii_chars, is_ascii_chars_encode_utf8};

verus! {

/// The context string of the pairing key derivation.
pub open spec fn pairing_key_info() -> Seq<u8> {
    encode_utf8("tapauth-pairing-key"@)
}

/// The context string of the short authentication string.
pub open spec fn sas_info() -> Seq<u8> {
    encode_utf8("tapauth-sas"@)
}

/// `n` written with exactly six decimal digits (leading zeros kept).
pub open spec fn six_digits(n: nat) -> Seq<char> {
    seq![
        digit_char((n / 100000) % 10),
        digit_char((n / 10000) % 10),
        digit_char((n / 1000) % 10),
        digit_char((n / 100) % 10),
        digit_char((n / 10) % 10),
        digit_char(n % 10),
    ]
}

/// The decimal digit characters stand for their values.
proof fn lemma_digit_char_value(d: nat)
    requires
        d < 10,
    ensures
        digit_value(digit_char(d)) == d,
        '0' <= digit_char(d) <= '9',
{
}

/// Six digits of a number below one million read back, as a decimal
/// number, to that number.
pub proof fn lemma_six_digits(n: nat)
    requires
        n < 1_000_000,
    ensures
        six_digits(n).len() == 6,
        all_digits(six_digits(n)),
        digits_value(six_digits(n)) == n,
{
    let ni = n as int;
    vstd::arithmetic::div_mod::lemma_div_denominator(ni, 10, 10);
    vstd::arithmetic::div_mod::lemma_div_denominator(ni, 100, 10);
    vstd::arithmetic::div_mod::lemma_div_denominator(ni, 1000, 10);
    vstd::arithmetic::div_mod::lemma_div_denominator(ni, 10000, 10);
    vstd::arithmetic::div_mod::lemma_fundamental_div_mod(ni, 10);
    vstd::arithmetic::div_mod::lemma_fundamental_div_mod(ni / 10, 10);
    vstd::arithmetic::div_mod::lemma_fundamental_div_mod(ni / 100, 10);
    vstd::arithmetic::div_mod::lemma_fundamental_div_mod(ni / 1000, 10);
    vstd::arithmetic::div_mod::lemma_fundamental_div_mod(ni / 10000, 10);
    let s = six_digits(n);
    lemma_digit_char_value((n / 100000) % 10);
    lemma_digit_char_value((n / 10000) % 10);
    lemma_digit_char_value((n / 1000) % 10);
    lemma_digit_char_value((n / 100) % 10);
    lemma_digit_char_value((n / 10) % 10);
    lemma_digit_char_value(n % 10);
    let s1 = s.take(1);
    let s2 = s.take(2);
    let s3 = s.take(3);
    let s4 = s.take(4);
    let s5 = s.take(5);
    assert(s1.drop_last() =~= Seq::<char>::empty());
    assert(s2.drop_last() =~= s1);
    assert(s3.drop_last() =~= s2);
    assert(s4.drop_last() =~= s3);
    assert(s5.drop_last() =~= s4);
    assert(s.drop_last() =~= s5);
    assert(s1.last() == s[0] && s2.last() == s[1] && s3.last() == s[2] && s4.last() == s[3] && s5.last()
        == s[4] && s.last() == s[5]);
    assert(digits_value(Seq::<char>::empty()) == 0);
    assert(digits_value(s1) == digit_value(s[0]));
    assert(digits_value(s2) == digits_value(s1) * 10 + digit_value(s[1]));
    assert(digits_value(s3) == digits_value(s2) * 10 + digit_value(s[2]));
    assert(digits_value(s4) == digits_value(s3) * 10 + digit_value(s[3]));
    assert(digits_value(s5) == digits_value(s4) * 10 + digit_value(s[4]));
    assert(digits_value(s) == digits_value(s5) * 10 + digit_value(s[5]));
}

/// The short authentication string of a pairing key and the two public
/// keys: the first 8 bytes of the HKDF expansion, read big-endian, modulo
/// one million, as six digits.
pub open spec fn spec_sas(psk: Seq<u8>, client_public: Seq<u8>, server_public: Seq<u8>) -> Seq<char> {
    six_digits(
        (u64_from_be(hkdf_sha256(psk, sas_info() + (client_public + server_public), 8)) % 1_000_000) as nat,
    )
}

/// The display form of an authentication string: a six-byte string split
/// as `abc-def`; anything else unchanged.
pub open spec fn spec_format_sas(sas: Seq<char>) -> Seq<char> {
    let b = encode_utf8(sas);
    if b.len() == 6 {
        decode_utf8(b.take(3)) + seq!['-'] + decode_utf8(b.skip(3))
    } else {
        sas
    }
}

/// The pairing key's context is the 19 ASCII bytes of
/// `tapauth-pairing-key`.
pub proof fn lemma_pairing_key_info()
    ensures
        pairing_key_info() == seq![116u8, 97, 112, 97, 117, 116, 104, 45, 112, 97, 105, 114, 105, 110, 103, 45, 107, 101, 121],
{
    reveal_strlit("tapauth-pairing-key");
    let c = "tapauth-pairing-key"@;
    assert(c =~= seq!['t', 'a', 'p', 'a', 'u', 't', 'h', '-', 'p', 'a', 'i', 'r', 'i', 'n', 'g', '-', 'k', 'e', 'y']);
    assert(is_ascii_chars(c));
    is_ascii_chars_encode_utf8(c);
    assert(encode_utf8(c) =~= seq![116u8, 97, 112, 97, 117, 116, 104, 45, 112, 97, 105, 114, 105, 110, 103, 45, 107, 101, 121]);
}

/// The short authentication string's context is the 11 ASCII bytes of
/// `tapauth-sas`.
pub proof fn lemma_sas_info()
    ensures
        sas_info() == seq![116u8, 97, 112, 97, 117, 116, 104, 45, 115, 97, 115],
{
    reveal_strlit("tapauth-sas");
    let c = "tapauth-sas"@;
    assert(c =~= seq!['t', 'a', 'p', 'a', 'u', 't', 'h', '-', 's', 'a', 's']);
    assert(is_ascii_chars(c));
    is_ascii_chars_encode_utf8(c);
    assert(encode_utf8(c) =~= seq![116u8, 97, 112, 97, 117, 116, 104, 45, 115, 97, 115]);
}

/// The short authentication string is the first 8 bytes, read big-endian
/// and taken modulo one million as six zero-padded digits, of HKDF-SHA256
/// with the pairing key as input key and, as context, `tapauth-sas`
/// followed by the client's public key and then the server's.
pub proof fn lemma_sas_inputs(psk: Seq<u8>, client_public: Seq<u8>, server_public: Seq<u8>)
    ensures
        spec_sas(psk, client_public, server_public) == six_digits(
            (u64_from_be(hkdf_sha256(psk, seq![116u8, 97, 112, 97, 117, 116, 104, 45, 115, 97, 115] + client_public + server_public, 8)) % 1_000_000) as nat,
        ),
{
    lemma_sas_info();
    assert(sas_info() + (client_public + server_public) =~= seq![116u8, 97, 112, 97, 117, 116, 104, 45, 115, 97, 115] + client_public + server_public);
}

/// Derives the pairing key from the X25519 shared secret: HKDF-SHA256
/// without salt over the shared secret, with the 19 bytes of
/// `tapauth-pairing-key` as context, 32 bytes long; always succeeds.
pub fn derive_psk_from_x25519(shared_secret: &[u8; 32]) -> (r: Result<PairingSymmetricKey, CryptoError>)
    ensures
        r matches Ok(psk) && psk@ == hkdf_sha256(shared_secret@, pairing_key_info(), 32),
        r matches Ok(psk) ==> psk@ == hkdf_sha256(shared_secret@, seq![116u8, 97, 112, 97, 117, 116, 104, 45, 112, 97, 105, 114, 105, 110, 103, 45, 107, 101, 121], 32),
{
    proof {
        lemma_pairing_key_info();
    }
    let info = "tapauth-pairing-key".as_bytes();
    let empty: [u8; 0] = [];
    match hkdf_sha256_expand::<32>(shared_secret, info, &empty) {
        Some(k) => {
            assert(info@ + empty@ =~= pairing_key_info());
            Ok(PairingSymmetricKey::from_bytes(k))
        },
        None => Err(CryptoError::KeyDerivationFailed),
    }
}

/// Derives the six-digit short authentication string from the pairing key
/// and the client's and server's X25519 public keys (client first); always
/// succeeds.
pub fn derive_sas(psk: &PairingSymmetricKey, client_public: &[u8; 32], server_public: &[u8; 32]) -> (r: Result<String, CryptoError>)
    ensures
        r matches Ok(s) && s@ == spec_sas(psk@, client_public@, server_public@),
        r matches Ok(s) ==> s@ == six_digits(
            (u64_from_be(hkdf_sha256(psk@, seq![116u8, 97, 112, 97, 117, 116, 104, 45, 115, 97, 115] + client_public@ + server_public@, 8)) % 1_000_000) as nat,
        ),
{
    proof {
        lemma_sas_inputs(psk@, client_public@, server_public@);
    }
    let mut input: Vec<u8> = Vec::new();
    append_bytes(&mut input, client_public.as_slice());
    append_bytes(&mut input, server_public.as_slice());
    let info = "tapauth-sas".as_bytes();
    let okm = match hkdf_sha256_expand::<8>(psk.as_bytes(), info, input.as_slice()) {
        Some(k) => k,
        None => {
            return Err(CryptoError::KeyDerivationFailed);
        },
    };
    let value = u64_from_be_bytes(&okm);
    let n = value % 1_000_000;
    let mut s = String::new();
    push_char(&mut s, digit_of(n / 100000));
    push_char(&mut s, digit_of(n / 10000));
    push_char(&mut s, digit_of(n / 1000));
    push_char(&mut s, digit_of(n / 100));
    push_char(&mut s, digit_of(n / 10));
    push_char(&mut s, digit_of(n));
    assert(s@ =~= six_digits(n as nat));
    Ok(s)
}

/// Formats an authentication string for display (`123456` becomes
/// `123-456`); a string that is not six bytes long is returned unchanged.
pub fn format_sas(sas: &str) -> (r: String)
    requires
        sas.spec_bytes().len() == 6 ==> vstd::utf8::is_char_boundary(sas.spec_bytes(), 3),
    ensures
        r@ == spec_format_sas(sas@),
{
    broadcast use vstd::utf8::encode_utf8_decode_utf8, vstd::utf8::encode_utf8_valid_utf8;
    let bytes = sas.as_bytes();
    if bytes.len() == 6 {
        let (a, b) = sas.split_at(3);
        let mut r = a.to_owned();
        r.append("-");
        r.append(b);
        proof {
            reveal_strlit("-");
            assert(a@ == decode_utf8(a.spec_bytes()));
            assert(b@ == decode_utf8(b.spec_bytes()));
            assert(sas.spec_bytes().take(3) =~= a.spec_bytes());
            assert(sas.spec_bytes().skip(3) =~= b.spec_bytes());
        }
        r
    } else {
        sas.to_owned()
    }
}

} // verus!
