//! Request authentication: the inbound webhook call carries a hex-coded
//! Ed25519 signature over the concatenation of a timestamp header and
//! the exact raw body bytes.

use vstd::prelude::*;

verus! {

/// True of the byte of an ASCII hex digit.
pub open spec fn is_hex_digit(b: u8) -> bool {
    ||| 0x30 <= b <= 0x39
    ||| 0x41 <= b <= 0x46
    ||| 0x61 <= b <= 0x66
}

/// The numeric value of an ASCII hex digit.
pub open spec fn hex_digit_val(b: u8) -> u8 {
    if 0x30 <= b <= 0x39 {
        (b - 0x30) as u8
    } else if 0x41 <= b <= 0x46 {
        (b - 0x41 + 10) as u8
    } else {
        (b - 0x61 + 10) as u8
    }
}

/// True of exactly the byte strings that decode as hex: even length,
/// every byte a hex digit of either case.
pub open spec fn hex_ok(s: Seq<u8>) -> bool {
    &&& s.len() % 2 == 0
    &&& forall|i: int| 0 <= i < s.len() ==> is_hex_digit(#[trigger] s[i])
}

/// The bytes a hex string decodes to: each digit pair, high first.
pub open spec fn hex_decoded(s: Seq<u8>) -> Seq<u8> {
    Seq::new((s.len() / 2) as nat, |i: int| (hex_digit_val(s[2 * i]) * 16 + hex_digit_val(s[2 * i + 1])) as u8)
}

/// Relies on hex::decode: it succeeds exactly on even-length input made
/// of hex digits of either case, and pairs the digits high-first into
/// bytes; any failure is collapsed to `None`.
#[verifier::external_body]
fn hex_decode(s: &[u8]) -> (r: Option<Vec<u8>>)
    ensures
        r is Some <==> hex_ok(s@),
        r matches Some(v) ==> v@ == hex_decoded(s@),
{
    match hex::decode(s) {
        Ok(v) => Some(v),
        Err(_) => None,
    }
}

/// Whether Ed25519 verification accepts this signature for this message
/// under this public key, all three as plain bytes; a key or signature
/// of the wrong shape is never accepted.
pub uninterp spec fn ed25519_verifies(public_key: Seq<u8>, message: Seq<u8>, signature: Seq<u8>) -> bool;

/// Relies on ed25519_dalek: PublicKey::from_bytes, Signature::from_bytes
/// and PublicKey::verify_strict. The outcome is a deterministic function
/// of the three byte strings; a malformed key or signature is rejected.
#[verifier::external_body]
fn ed25519_verify(public_key: &[u8], message: &[u8], signature: &[u8]) -> (r: bool)
    ensures
        r == ed25519_verifies(public_key@, message@, signature@),
{
    let pk = match ed25519_dalek::PublicKey::from_bytes(public_key) {
        Ok(pk) => pk,
        Err(_) => { return false; },
    };
    let sig = match ed25519_dalek::Signature::from_bytes(signature) {
        Ok(sig) => sig,
        Err(_) => { return false; },
    };
    pk.verify_strict(message, &sig).is_ok()
}

/// The two byte strings, one after the other.
fn concat_bytes(a: &[u8], b: &[u8]) -> (r: Vec<u8>)
    ensures
        r@ == a@ + b@,
{
    let mut out: Vec<u8> = Vec::new();
    let mut i: usize = 0;
    while i < a.len()
        invariant
            i <= a@.len(),
            out@ == a@.take(i as int),
        decreases a@.len() - i,
    {
        proof {
            assert(a@.take(i as int + 1) =~= a@.take(i as int).push(a@[i as int]));
        }
        out.push(a[i]);
        i += 1;
    }
    let mut j: usize = 0;
    while j < b.len()
        invariant
            j <= b@.len(),
            out@ == a@.take(a@.len() as int) + b@.take(j as int),
        decreases b@.len() - j,
    {
        proof {
            assert(b@.take(j as int + 1) =~= b@.take(j as int).push(b@[j as int]));
            assert(a@.take(a@.len() as int) + b@.take(j as int + 1) =~= (a@.take(
                a@.len() as int,
            ) + b@.take(j as int)).push(b@[j as int]));
        }
        out.push(b[j]);
        j += 1;
    }
    proof {
        assert(a@.take(a@.len() as int) =~= a@);
        assert(b@.take(b@.len() as int) =~= b@);
    }
    out
}

/// The view of an optional byte slice.
pub open spec fn opt_bytes(o: Option<&[u8]>) -> Option<Seq<u8>> {
    match o {
        Some(s) => Some(s@),
        None => None,
    }
}

/// When a request is authentic: both headers and a text body are
/// present, the key and the signature header decode as hex, and Ed25519
/// accepts the signature over the timestamp header followed by the raw
/// body bytes.
pub open spec fn signature_accepted(
    key_hex: Seq<u8>,
    timestamp: Option<Seq<u8>>,
    signature_hex: Option<Seq<u8>>,
    body: Option<Seq<u8>>,
) -> bool {
    &&& timestamp is Some
    &&& signature_hex is Some
    &&& body is Some
    &&& hex_ok(key_hex)
    &&& hex_ok(signature_hex->0)
    &&& ed25519_verifies(hex_decoded(key_hex), timestamp->0 + body->0, hex_decoded(signature_hex->0))
}

/// Checks the authenticity of one inbound request. `timestamp` and
/// `signature_hex` are the two signature headers as they came, if they
/// came; `body` is the raw body, if the body was text. Accepts exactly
/// the authentic requests; on `false` the caller answers unauthorized
/// and does nothing further.
pub fn verify_signature(
    public_key_hex: &[u8],
    timestamp: Option<&[u8]>,
    signature_hex: Option<&[u8]>,
    body: Option<&[u8]>,
) -> (r: bool)
    ensures
        r == signature_accepted(
            public_key_hex@,
            opt_bytes(timestamp),
            opt_bytes(signature_hex),
            opt_bytes(body),
        ),
{
    let t = match timestamp {
        Some(t) => t,
        None => { return false; },
    };
    let s = match signature_hex {
        Some(s) => s,
        None => { return false; },
    };
    let b = match body {
        Some(b) => b,
        None => { return false; },
    };
    let key = match hex_decode(public_key_hex) {
        Some(k) => k,
        None => { return false; },
    };
    let sig = match hex_decode(s) {
        Some(v) => v,
        None => { return false; },
    };
    let message = concat_bytes(t, b);
    ed25519_verify(key.as_slice(), message.as_slice(), sig.as_slice())
}

} // verus!
