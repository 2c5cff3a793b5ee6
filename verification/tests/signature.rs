use triagebot::signature::constant_time_eq;
use triagebot::signature::push_hex;
use triagebot::signature::sign;
use triagebot::signature::verify;
use triagebot::signature::SignatureError;
use triagebot::text::bytes_eq;
use triagebot::text::has_nul_char;
use triagebot::text::str_eq;

const FOX: &[u8] = b"The quick brown fox jumps over the lazy dog";

#[test]
fn sign_gives_the_known_digest() {
    assert_eq!(sign(FOX, b"key"), "sha1=de7c9b85b8b78aa6bc8a7a36f70a90701c9db4d9");
}

#[test]
fn sign_of_empty_payload_and_empty_secret() {
    assert_eq!(sign(b"", b""), "sha1=fbdb1d1b18aa6c08324b7d64b71fb76370690e1d");
}

#[test]
fn sign_depends_on_payload_and_secret() {
    assert_ne!(sign(FOX, b"key"), sign(FOX, b"kez"));
    assert_ne!(sign(FOX, b"key"), sign(b"The quick brown fox jumps over the lazy cog", b"key"));
    assert_ne!(sign(b"key", FOX), sign(FOX, b"key"));
}

#[test]
fn signed_payload_verifies() {
    let payloads: [&[u8]; 4] = [b"", b"{}", FOX, &[0, 255, 128, 7]];
    let secrets: [&[u8]; 3] = [b"", b"key", &[1, 2, 3, 4, 5, 6, 7, 8, 9]];
    for payload in payloads {
        for secret in secrets {
            let signature = sign(payload, secret);
            assert_eq!(verify(payload, &signature, secret), Ok(()));
        }
    }
}

#[test]
fn known_signature_verifies() {
    assert_eq!(verify(FOX, "sha1=de7c9b85b8b78aa6bc8a7a36f70a90701c9db4d9", b"key"), Ok(()));
}

#[test]
fn every_single_bit_change_of_the_payload_is_rejected() {
    let signature = sign(FOX, b"key");
    for i in 0..FOX.len() {
        for bit in 0..8 {
            let mut altered = FOX.to_vec();
            altered[i] ^= 1 << bit;
            assert_eq!(verify(&altered, &signature, b"key"), Err(SignatureError::SignatureMismatch));
        }
    }
}

#[test]
fn every_single_bit_change_of_the_signature_is_rejected() {
    let signature = sign(FOX, b"key");
    for i in 0..signature.len() {
        for bit in 0..7 {
            let mut altered = signature.clone().into_bytes();
            altered[i] ^= 1 << bit;
            let altered = String::from_utf8(altered).unwrap();
            assert_eq!(verify(FOX, &altered, b"key"), Err(SignatureError::SignatureMismatch));
        }
    }
}

#[test]
fn upper_case_digits_are_rejected() {
    assert_eq!(
        verify(FOX, "sha1=DE7C9B85B8B78AA6BC8A7A36F70A90701C9DB4D9", b"key"),
        Err(SignatureError::SignatureMismatch)
    );
}

#[test]
fn wrong_secret_is_rejected() {
    let signature = sign(FOX, b"key");
    assert_eq!(verify(FOX, &signature, b"other"), Err(SignatureError::SignatureMismatch));
}

#[test]
fn signature_without_prefix_or_with_more_text_is_rejected() {
    assert_eq!(
        verify(FOX, "de7c9b85b8b78aa6bc8a7a36f70a90701c9db4d9", b"key"),
        Err(SignatureError::SignatureMismatch)
    );
    assert_eq!(
        verify(FOX, "sha1=de7c9b85b8b78aa6bc8a7a36f70a90701c9db4d9 ", b"key"),
        Err(SignatureError::SignatureMismatch)
    );
    assert_eq!(verify(FOX, "", b"key"), Err(SignatureError::SignatureMismatch));
    assert_eq!(verify(FOX, "sha1=", b"key"), Err(SignatureError::SignatureMismatch));
}

#[test]
fn push_hex_writes_two_lower_case_digits_per_byte() {
    let mut out = String::from(">");
    push_hex(&mut out, &[0x00, 0x0f, 0xa0, 0xff, 0x1b]);
    assert_eq!(out, ">000fa0ff1b");
    push_hex(&mut out, &[]);
    assert_eq!(out, ">000fa0ff1b");
}

#[test]
fn constant_time_eq_compares_whole_slices() {
    assert!(constant_time_eq(b"", b""));
    assert!(constant_time_eq(b"abc", b"abc"));
    assert!(!constant_time_eq(b"abc", b"abd"));
    assert!(!constant_time_eq(b"abc", b"bbc"));
    assert!(!constant_time_eq(b"abc", b"ab"));
    assert!(!constant_time_eq(b"", b"a"));
    assert!(!constant_time_eq(&[0x80], &[0x00]));
}

#[test]
fn bytes_and_strings_compare_exactly() {
    assert!(bytes_eq(b"push", b"push"));
    assert!(!bytes_eq(b"push", b"pusH"));
    assert!(!bytes_eq(b"push", b"pushes"));
    assert!(str_eq("", ""));
    assert!(str_eq("issue_comment", "issue_comment"));
    assert!(!str_eq("issue_comment", "Issue_comment"));
    assert!(!str_eq("é", "e"));
}

#[test]
fn the_character_zero_is_found_wherever_it_stands() {
    assert!(has_nul_char("\0"));
    assert!(has_nul_char("a\0"));
    assert!(has_nul_char("\0a"));
    assert!(has_nul_char("\u{e9}\u{1F600}\0\u{e9}"));
    assert!(!has_nul_char(""));
    assert!(!has_nul_char("/triage/rust-lang/rust"));
    assert!(!has_nul_char("\u{1}\u{80}\u{100}\u{800}\u{10000}\u{10FFFF}"));
}
