use hmac::Hmac;
use hmac::Mac;
use sha1::Sha1;
use vstd::prelude::*;
use vstd::string::*;
use vstd::utf8::*;

use crate::text::lemma_utf8_injective;

verus! {

/// Why a signed payload was not accepted.
#[derive(Clone, Copy, Debug, PartialEq, Eq, Structural)]
pub enum SignatureError {
    /// The request carried no signature at all.
    MissingSignature,
    /// The signature header was not valid text.
    MalformedSignature,
    /// The signature is not the one the shared secret gives for the payload.
    SignatureMismatch,
}

/// The HMAC-SHA1 of `message` under `key`.
pub uninterp spec fn hmac_sha1(key: Seq<u8>, message: Seq<u8>) -> Seq<u8>;

/// Computes HMAC-SHA1 with `hmac::Hmac<sha1::Sha1>`: `new_from_slice`, which
/// takes a key of any length, then `update` and `finalize`. Trusted: the
/// digest is a function of key and message alone, and is 20 bytes long.
#[verifier::external_body]
fn keyed_digest(key: &[u8], message: &[u8]) -> (digest: Vec<u8>)
    ensures
        digest@ == hmac_sha1(key@, message@),
        digest@.len() == 20,
{
    let mut mac = Hmac::<Sha1>::new_from_slice(key).unwrap();
    mac.update(message);
    mac.finalize().into_bytes().to_vec()
}

/// The lower-case hexadecimal digit for a value below 16.
pub open spec fn hex_digit(n: u8) -> char {
    if n < 10 {
        (48 + n) as char
    } else {
        (87 + n) as char
    }
}

/// Lower-case hexadecimal text of `bytes`, two digits per byte, high digit first.
pub open spec fn hex_text(bytes: Seq<u8>) -> Seq<char> {
    Seq::new(
        2 * bytes.len(),
        |i: int|
            if i % 2 == 0 {
                hex_digit(bytes[i / 2] / 16)
            } else {
                hex_digit(bytes[i / 2] % 16)
            },
    )
}

/// The prefix that names the digest in a signature header.
pub open spec fn signature_prefix() -> Seq<char> {
    seq!['s', 'h', 'a', '1', '=']
}

/// The signature header value that `secret` gives for `payload`.
pub open spec fn signature_text(secret: Seq<u8>, payload: Seq<u8>) -> Seq<char> {
    signature_prefix() + hex_text(hmac_sha1(secret, payload))
}

/// Whether `signature` authenticates `payload` under `secret`.
pub open spec fn accepts(secret: Seq<u8>, payload: Seq<u8>, signature: Seq<char>) -> bool {
    signature == signature_text(secret, payload)
}

fn hex_digit_str(n: u8) -> (s: &'static str)
    requires
        n < 16,
    ensures
        s@ == seq![hex_digit(n)],
{
    proof {
        reveal_strlit("0");
        reveal_strlit("1");
        reveal_strlit("2");
        reveal_strlit("3");
        reveal_strlit("4");
        reveal_strlit("5");
        reveal_strlit("6");
        reveal_strlit("7");
        reveal_strlit("8");
        reveal_strlit("9");
        reveal_strlit("a");
        reveal_strlit("b");
        reveal_strlit("c");
        reveal_strlit("d");
        reveal_strlit("e");
        reveal_strlit("f");
    }
    let s = match n {
        0 => "0",
        1 => "1",
        2 => "2",
        3 => "3",
        4 => "4",
        5 => "5",
        6 => "6",
        7 => "7",
        8 => "8",
        9 => "9",
        10 => "a",
        11 => "b",
        12 => "c",
        13 => "d",
        14 => "e",
        _ => "f",
    };
    assert(s@ =~= seq![hex_digit(n)]);
    s
}

/// Appends the hexadecimal text of `bytes` to `out`.
pub fn push_hex(out: &mut String, bytes: &[u8])
    ensures
        final(out)@ == old(out)@ + hex_text(bytes@),
{
    let mut i: usize = 0;
    while i < bytes.len()
        invariant
            i <= bytes.len(),
            out@ == old(out)@ + hex_text(bytes@.take(i as int)),
        decreases bytes.len() - i,
    {
        let b = bytes[i];
        let ghost before = out@;
        out.append(hex_digit_str(b / 16));
        out.append(hex_digit_str(b % 16));
        proof {
            let done = bytes@.take(i as int);
            let next = bytes@.take(i as int + 1);
            assert(hex_text(next) =~= hex_text(done) + seq![hex_digit(b / 16), hex_digit(b % 16)]);
            assert(out@ =~= old(out)@ + hex_text(next));
        }
        i += 1;
    }
    assert(bytes@.take(i as int) =~= bytes@);
}

/// The signature header value for `payload` under the shared `secret`.
pub fn sign(payload: &[u8], secret: &[u8]) -> (signature: String)
    ensures
        signature@ == signature_text(secret@, payload@),
        accepts(secret@, payload@, signature@),
{
    let digest = keyed_digest(secret, payload);
    let mut signature = String::from_str("sha1=");
    proof {
        reveal_strlit("sha1=");
        assert(signature@ =~= signature_prefix());
    }
    push_hex(&mut signature, digest.as_slice());
    signature
}

proof fn lemma_or_xor_zero(acc: u8, x: u8, y: u8)
    by (bit_vector)
    ensures
        ((acc | (x ^ y)) == 0) <==> (acc == 0 && x == y),
{
}

/// Whether two byte strings are equal. Slices of one length are compared in
/// full, whatever they hold: the time taken does not tell where they differ.
pub fn constant_time_eq(a: &[u8], b: &[u8]) -> (same: bool)
    ensures
        same == (a@ == b@),
{
    if a.len() != b.len() {
        return false;
    }
    let mut diff: u8 = 0;
    let mut i: usize = 0;
    while i < a.len()
        invariant
            a.len() == b.len(),
            i <= a.len(),
            (diff == 0) <==> (forall|k: int| 0 <= k < i ==> a@[k] == b@[k]),
        decreases a.len() - i,
    {
        proof {
            lemma_or_xor_zero(diff, a@[i as int], b@[i as int]);
        }
        diff = diff | (a[i] ^ b[i]);
        i += 1;
    }
    proof {
        if diff == 0 {
            assert(a@ =~= b@);
        }
    }
    diff == 0
}

/// Checks that `signature` is the one the shared `secret` gives for `payload`.
/// The only failure is `SignatureMismatch`, whatever was wrong.
pub fn verify(payload: &[u8], signature: &str, secret: &[u8]) -> (checked: Result<(), SignatureError>)
    ensures
        checked is Ok <==> accepts(secret@, payload@, signature@),
        checked is Err ==> checked == Err::<(), SignatureError>(SignatureError::SignatureMismatch),
{
    let expected = sign(payload, secret);
    let same = constant_time_eq(expected.as_str().as_bytes(), signature.as_bytes());
    proof {
        if same {
            lemma_utf8_injective(expected@, signature@);
        }
    }
    if same {
        Ok(())
    } else {
        Err(SignatureError::SignatureMismatch)
    }
}

proof fn lemma_hex_digit_injective(a: u8, b: u8)
    requires
        a < 16,
        b < 16,
        hex_digit(a) == hex_digit(b),
    ensures
        a == b,
{
    assert(hex_digit(a) as u32 == hex_digit(b) as u32);
}

proof fn lemma_nibbles(x: u8, y: u8)
    by (bit_vector)
    requires
        x / 16 == y / 16,
        x % 16 == y % 16,
    ensures
        x == y,
{
}

/// Different byte strings have different hexadecimal texts.
pub proof fn lemma_hex_text_injective(a: Seq<u8>, b: Seq<u8>)
    requires
        hex_text(a) == hex_text(b),
    ensures
        a == b,
{
    assert(hex_text(a).len() == 2 * a.len());
    assert(hex_text(b).len() == 2 * b.len());
    assert forall|k: int| 0 <= k < a.len() implies a[k] == b[k] by {
        assert((2 * k) / 2 == k && (2 * k) % 2 == 0);
        assert((2 * k + 1) / 2 == k && (2 * k + 1) % 2 == 1);
        assert(hex_text(a)[2 * k] == hex_digit(a[k] / 16));
        assert(hex_text(b)[2 * k] == hex_digit(b[k] / 16));
        assert(hex_text(a)[2 * k + 1] == hex_digit(a[k] % 16));
        assert(hex_text(b)[2 * k + 1] == hex_digit(b[k] % 16));
        lemma_hex_digit_injective(a[k] / 16, b[k] / 16);
        lemma_hex_digit_injective(a[k] % 16, b[k] % 16);
        lemma_nibbles(a[k], b[k]);
    }
    assert(a =~= b);
}

/// A payload signed with the shared secret is accepted under that secret.
pub proof fn lemma_signed_payload_accepted(secret: Seq<u8>, payload: Seq<u8>)
    ensures
        accepts(secret, payload, signature_text(secret, payload)),
{
}

/// A signature that differs in any way from the one the secret gives for the
/// payload is rejected: no other text is accepted, whatever was changed in it.
pub proof fn lemma_altered_signature_rejected(
    secret: Seq<u8>,
    payload: Seq<u8>,
    signature: Seq<char>,
)
    ensures
        signature != signature_text(secret, payload) ==> !accepts(secret, payload, signature),
{
}

/// The signature of one payload authenticates another payload exactly when
/// both have the same keyed digest: an altered payload is rejected unless the
/// digest itself collides.
pub proof fn lemma_altered_payload_needs_collision(
    secret: Seq<u8>,
    payload: Seq<u8>,
    altered: Seq<u8>,
)
    ensures
        accepts(secret, altered, signature_text(secret, payload)) <==> hmac_sha1(secret, altered)
            == hmac_sha1(secret, payload),
{
    let a = hex_text(hmac_sha1(secret, altered));
    let p = hex_text(hmac_sha1(secret, payload));
    if signature_text(secret, payload) == signature_text(secret, altered) {
        assert(p =~= signature_text(secret, payload).skip(5));
        assert(a =~= signature_text(secret, altered).skip(5));
        lemma_hex_text_injective(hmac_sha1(secret, altered), hmac_sha1(secret, payload));
    }
}

} // verus!
