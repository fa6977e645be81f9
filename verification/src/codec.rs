//! The signed-token codec. A token is the lowercase hexadecimal rendering
//! of an HMAC-SHA-256 tag over the payload, a dot, and the payload itself.
//! The same codec carries both the anti-forgery state value and the session
//! credential; it detects tampering (signature mismatch) and structural
//! damage (parse failure) as two distinct errors, and enforces no expiry
//! of its own.

use vstd::prelude::*;
use vstd::string::*;
use crate::hex::{is_hex_digit, hex_of_bytes, bytes_of_hex, bytes_to_hex, hex_region_to_bytes,
    lemma_hex_of_bytes_len, lemma_hex_of_bytes_digits, lemma_bytes_of_hex_of_bytes,
    lemma_hex_of_bytes_of_hex};
use crate::text::{find_char, find_char_at, lemma_find_char_props, lemma_find_char_is,
    chars_of_str, string_from_chars, push_all, bytes_eq};
use hmac::KeyInit;
use hmac::Mac;

verus! {

/// Why a token was rejected: it does not even have the shape of a token,
/// or it has the shape but the signature does not match.
#[derive(Clone, Copy, Debug, PartialEq, Eq, Structural)]
pub enum TokenError {
    Malformed,
    SignatureInvalid,
}

/// The HMAC-SHA-256 tag over the UTF-8 bytes of `msg`, keyed by the UTF-8
/// bytes of `key`.
pub uninterp spec fn hmac_tag_of(key: Seq<char>, msg: Seq<char>) -> Seq<u8>;

/// Relies on `hmac::Hmac::<sha2::Sha256>` (`new_from_slice`, `update`,
/// `finalize`): HMAC-SHA-256 is a deterministic function of the key and
/// message bytes alone, its tag is the hash's output size of 32 bytes, and
/// `new_from_slice` accepts keys of any length.
#[verifier::external_body]
fn hmac_sha256(key: &str, msg: &str) -> (r: Vec<u8>)
    ensures
        r@ == hmac_tag_of(key@, msg@),
        r@.len() == 32,
{
    let mut m = hmac::Hmac::<sha2::Sha256>::new_from_slice(key.as_bytes()).expect(
        "HMAC accepts keys of any length",
    );
    m.update(msg.as_bytes());
    m.finalize().into_bytes().to_vec()
}

/// The token that signs `p` under `k`: tag in hexadecimal, a dot, then the
/// payload itself.
pub open spec fn sign_spec(p: Seq<char>, k: Seq<char>) -> Seq<char> {
    hex_of_bytes(hmac_tag_of(k, p)) + seq!['.'] + p
}

/// What verification yields on `t` under `k`: the payload after the first
/// dot, provided everything before that dot is an even count of hexadecimal
/// digits denoting the tag of that payload.
pub open spec fn verify_spec(t: Seq<char>, k: Seq<char>) -> Result<Seq<char>, TokenError> {
    match find_char(t, '.') {
        Option::None => Result::Err(TokenError::Malformed),
        Option::Some(d) => {
            let payload = t.subrange(d + 1, t.len() as int);
            if !(d % 2 == 0 && (forall|j: int| 0 <= j < d ==> is_hex_digit(t[j]))) {
                Result::Err(TokenError::Malformed)
            } else if bytes_of_hex(t.subrange(0, d)) != hmac_tag_of(k, payload) {
                Result::Err(TokenError::SignatureInvalid)
            } else {
                Result::Ok(payload)
            }
        },
    }
}

/// Signs `payload` under `key`.
pub fn sign(payload: &str, key: &str) -> (t: String)
    ensures
        t@ == sign_spec(payload@, key@),
{
    let tag = hmac_sha256(key, payload);
    let mut chars = bytes_to_hex(tag.as_slice());
    chars.push('.');
    let pchars = chars_of_str(payload);
    push_all(&mut chars, &pchars);
    proof {
        assert(chars@ =~= sign_spec(payload@, key@));
    }
    string_from_chars(&chars)
}

/// Verifies `token` under `key`, returning its payload, or the exact
/// reason it was rejected.
pub fn verify(token: &str, key: &str) -> (r: Result<String, TokenError>)
    ensures
        match r {
            Ok(p) => verify_spec(token@, key@) == Result::<Seq<char>, TokenError>::Ok(p@),
            Err(e) => verify_spec(token@, key@) == Result::<Seq<char>, TokenError>::Err(e),
        },
{
    let chars = chars_of_str(token);
    let d = match find_char_at(&chars, '.') {
        Some(d) => d,
        None => {
            return Err(TokenError::Malformed);
        },
    };
    proof {
        lemma_find_char_props(token@, '.');
    }
    match hex_region_to_bytes(chars.as_slice(), 0, d) {
        Some(tag) => {
            let n = token.unicode_len();
            let payload = token.substring_char(d + 1, n);
            let mac = hmac_sha256(key, payload);
            proof {
                assert(payload@ =~= token@.subrange(d + 1, token@.len() as int));
                assert(chars@.subrange(0, d as int) =~= token@.subrange(0, d as int));
            }
            if bytes_eq(&tag, &mac) {
                Ok(payload.to_owned())
            } else {
                Err(TokenError::SignatureInvalid)
            }
        },
        None => Err(TokenError::Malformed),
    }
}

/// Signing is deterministic in the payload and the key, and verification
/// under the same key returns the payload unchanged.
pub proof fn lemma_sign_verify_roundtrip(p: Seq<char>, k: Seq<char>)
    ensures
        verify_spec(sign_spec(p, k), k) == Result::<Seq<char>, TokenError>::Ok(p),
{
    let tag = hmac_tag_of(k, p);
    let h = hex_of_bytes(tag);
    let t = sign_spec(p, k);
    lemma_hex_of_bytes_len(tag);
    lemma_hex_of_bytes_digits(tag);
    assert(t[h.len() as int] == '.');
    assert forall|j: int| 0 <= j < h.len() implies t[j] != '.' by {
        assert(t[j] == h[j]);
    }
    lemma_find_char_is(t, '.', h.len() as int);
    assert(t.subrange(0, h.len() as int) =~= h);
    assert(t.subrange(h.len() as int + 1, t.len() as int) =~= p);
    lemma_bytes_of_hex_of_bytes(tag);
    assert forall|j: int| 0 <= j < h.len() implies is_hex_digit(t[j]) by {
        assert(t[j] == h[j]);
        assert(is_hex_digit(h[j]));
    }
}

/// A token that verifies is exactly the signed form of the payload it
/// yields: the codec accepts nothing that `sign` could not have produced
/// under the same key.
pub proof fn lemma_verify_accepts_only_signed(t: Seq<char>, k: Seq<char>, p: Seq<char>)
    requires
        verify_spec(t, k) == Result::<Seq<char>, TokenError>::Ok(p),
    ensures
        t == sign_spec(p, k),
{
    lemma_find_char_props(t, '.');
    let d = find_char(t, '.')->Some_0;
    let tag_hex = t.subrange(0, d);
    assert(p == t.subrange(d + 1, t.len() as int));
    assert(bytes_of_hex(tag_hex) == hmac_tag_of(k, p));
    assert forall|j: int| 0 <= j < tag_hex.len() implies is_hex_digit(tag_hex[j]) by {
        assert(tag_hex[j] == t[j]);
    }
    lemma_hex_of_bytes_of_hex(tag_hex);
    assert(t =~= tag_hex + seq!['.'] + p);
}

/// Tamper detection over the tag region: changing any one character among
/// the hexadecimal tag digits of a signed token, to anything but a dot,
/// makes verification fail; it never silently yields another payload.
pub proof fn lemma_tag_tamper_rejected(p: Seq<char>, k: Seq<char>, i: int, c: char)
    requires
        0 <= i < 2 * hmac_tag_of(k, p).len(),
        c != sign_spec(p, k)[i],
        c != '.',
    ensures
        verify_spec(sign_spec(p, k).update(i, c), k) is Err,
{
    let tag = hmac_tag_of(k, p);
    let h = hex_of_bytes(tag);
    let t = sign_spec(p, k);
    let w = t.update(i, c);
    lemma_hex_of_bytes_len(tag);
    lemma_hex_of_bytes_digits(tag);
    assert(w[h.len() as int] == '.');
    assert forall|j: int| 0 <= j < h.len() implies w[j] != '.' by {
        if j != i {
            assert(w[j] == t[j] && t[j] == h[j]);
        }
    }
    lemma_find_char_is(w, '.', h.len() as int);
    let d = h.len() as int;
    let tag_hex = w.subrange(0, d);
    let payload = w.subrange(d + 1, w.len() as int);
    assert(payload =~= p);
    if d % 2 == 0 && (forall|j: int| 0 <= j < d ==> is_hex_digit(w[j])) {
        // the altered digit still reads as hexadecimal; the denoted tag
        // then differs from the real one, so the signature check fails
        if bytes_of_hex(tag_hex) == hmac_tag_of(k, payload) {
            lemma_hex_of_bytes_of_hex(tag_hex);
            assert(hex_of_bytes(bytes_of_hex(tag_hex)) == tag_hex);
            assert(tag_hex == hex_of_bytes(tag));
            assert(tag_hex[i] == c);
            assert(h[i] == t[i]);
            assert(false);
        }
        assert(verify_spec(w, k) is Err);
    } else {
        assert(verify_spec(w, k) is Err);
    }
}


/// The codec, exactly: a token verifies to `p` under `k` if and only if
/// it is the one token that signs `p` under `k`.
pub proof fn lemma_codec_exact(t: Seq<char>, k: Seq<char>, p: Seq<char>)
    ensures
        verify_spec(t, k) == Result::<Seq<char>, TokenError>::Ok(p) <==> t == sign_spec(p, k),
{
    if verify_spec(t, k) == Result::<Seq<char>, TokenError>::Ok(p) {
        lemma_verify_accepts_only_signed(t, k, p);
    }
    if t == sign_spec(p, k) {
        lemma_sign_verify_roundtrip(p, k);
    }
}

} // verus!
