use vstd::prelude::*;
use vstd::string::*;
use vstd::utf8::*;

verus! {

/// Whether two byte slices hold the same bytes.
pub fn bytes_eq(a: &[u8], b: &[u8]) -> (same: bool)
    ensures
        same == (a@ == b@),
{
    if a.len() != b.len() {
        return false;
    }
    let mut i: usize = 0;
    while i < a.len()
        invariant
            a.len() == b.len(),
            i <= a.len(),
            forall|k: int| 0 <= k < i ==> a@[k] == b@[k],
        decreases a.len() - i,
    {
        if a[i] != b[i] {
            return false;
        }
        i += 1;
    }
    assert(a@ =~= b@);
    true
}

/// Two texts with the same UTF-8 encoding are the same text.
pub proof fn lemma_utf8_injective(a: Seq<char>, b: Seq<char>)
    requires
        encode_utf8(a) == encode_utf8(b),
    ensures
        a == b,
{
    encode_utf8_decode_utf8(a);
    encode_utf8_decode_utf8(b);
}

/// Whether two strings hold the same text: exact and case-sensitive.
pub fn str_eq(a: &str, b: &str) -> (same: bool)
    ensures
        same == (a@ == b@),
{
    let same = bytes_eq(a.as_bytes(), b.as_bytes());
    proof {
        if same {
            lemma_utf8_injective(a@, b@);
        }
    }
    same
}

/// Whether `text` holds the character U+0000.
pub open spec fn has_nul(text: Seq<char>) -> bool {
    exists|i: int| 0 <= i < text.len() && (#[trigger] text[i]) as u32 == 0
}

/// Whether `bytes` holds a zero byte.
pub open spec fn has_zero_byte(bytes: Seq<u8>) -> bool {
    exists|j: int| 0 <= j < bytes.len() && (#[trigger] bytes[j]) == 0
}

proof fn lemma_scalar_bits(s: u32)
    by (bit_vector)
    ensures
        s == 0 ==> (s & 0x7F) as u8 == 0,
        (s <= 0x7F && s != 0) ==> (s & 0x7F) as u8 != 0,
        (0xC0 | ((s >> 6) & 0x1F) as u8) != 0,
        (0xE0 | ((s >> 12) & 0x0F) as u8) != 0,
        (0xF0 | ((s >> 18) & 0x7) as u8) != 0,
        (0x80 | (s & 0x3F) as u8) != 0,
        (0x80 | ((s >> 6) & 0x3F) as u8) != 0,
        (0x80 | ((s >> 12) & 0x3F) as u8) != 0,
{
}

/// The UTF-8 encoding of a scalar holds a zero byte exactly when the scalar
/// is zero, and then it is that one byte.
pub proof fn lemma_scalar_zero_byte(s: u32)
    ensures
        s == 0 ==> encode_scalar(s) == seq![0u8],
        s != 0 ==> !has_zero_byte(encode_scalar(s)),
        encode_scalar(s).len() >= 1,
{
    lemma_scalar_bits(s);
    if s == 0 {
        assert(encode_scalar(s) =~= seq![0u8]);
    }
}

/// A text holds the character U+0000 exactly when its UTF-8 encoding holds
/// a zero byte.
pub proof fn lemma_nul_is_zero_byte(text: Seq<char>)
    ensures
        has_nul(text) <==> has_zero_byte(encode_utf8(text)),
    decreases text.len(),
{
    if text.len() > 0 {
        let first = text[0] as u32;
        let head = encode_scalar(first);
        let rest = text.drop_first();
        let tail = encode_utf8(rest);
        let bytes = encode_utf8(text);
        lemma_nul_is_zero_byte(rest);
        lemma_scalar_zero_byte(first);
        assert(bytes == head + tail);
        if has_nul(text) {
            let i = choose|i: int| 0 <= i < text.len() && (#[trigger] text[i]) as u32 == 0;
            if i == 0 {
                assert(bytes[0] == head[0]);
                assert(bytes[0] == 0);
            } else {
                assert(rest[i - 1] == text[i]);
                assert(has_nul(rest));
                let j = choose|j: int| 0 <= j < tail.len() && (#[trigger] tail[j]) == 0;
                assert(bytes[head.len() + j] == tail[j]);
            }
            assert(has_zero_byte(bytes));
        }
        if has_zero_byte(bytes) {
            let j = choose|j: int| 0 <= j < bytes.len() && (#[trigger] bytes[j]) == 0;
            if j < head.len() {
                assert(head[j] == bytes[j]);
                assert(has_zero_byte(head));
                assert(text[0] as u32 == 0);
            } else {
                assert(tail[j - head.len()] == bytes[j]);
                assert(has_zero_byte(tail));
                let i = choose|i: int| 0 <= i < rest.len() && (#[trigger] rest[i]) as u32 == 0;
                assert(text[i + 1] == rest[i]);
            }
            assert(has_nul(text));
        }
    }
}

/// Whether `text` holds the character U+0000.
pub fn has_nul_char(text: &str) -> (found: bool)
    ensures
        found == has_nul(text@),
{
    let bytes = text.as_bytes();
    proof {
        lemma_nul_is_zero_byte(text@);
    }
    let mut i: usize = 0;
    while i < bytes.len()
        invariant
            i <= bytes.len(),
            has_nul(text@) <==> has_zero_byte(bytes@),
            forall|k: int| 0 <= k < i ==> bytes@[k] != 0,
        decreases bytes.len() - i,
    {
        if bytes[i] == 0 {
            assert(has_zero_byte(bytes@));
            return true;
        }
        i += 1;
    }
    false
}

} // verus!
