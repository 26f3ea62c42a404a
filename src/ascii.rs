use vstd::prelude::*;
use vstd::utf8::*;

verus! {

/// A single scalar is ASCII exactly when it has a one-byte encoding.
proof fn lemma_char_ascii(ch: char)
    ensures
        is_ascii_chars(seq![ch]) <==> has_width_1_encoding(ch as u32),
{
    assert(seq![ch][0] == ch);
}

/// Encoding never shortens text: each scalar takes at least one byte. The byte
/// length equals the scalar count exactly when every scalar is ASCII.
pub proof fn lemma_byte_len_is_scalar_count_iff_ascii(s: Seq<char>)
    ensures
        encode_utf8(s).len() >= s.len(),
        encode_utf8(s).len() == s.len() <==> is_ascii_chars(s),
    decreases s.len(),
{
    if s.len() > 0 {
        let rest = s.drop_first();
        lemma_byte_len_is_scalar_count_iff_ascii(rest);
        assert(s =~= seq![s[0]] + rest);
        is_ascii_chars_concat(s, seq![s[0]], rest);
        let c = s[0] as u32;
        lemma_char_ascii(s[0]);
        assert(encode_utf8(s) == encode_scalar(c) + encode_utf8(rest));
        if has_width_1_encoding(c) {
            assert(encode_scalar(c).len() == 1);
        } else {
            assert(encode_scalar(c).len() >= 2);
        }
    }
}

/// The first `n` scalars of ASCII text encode to its first `n` bytes, and those
/// bytes decode back to the same scalars.
pub proof fn lemma_ascii_prefix(s: Seq<char>, n: int)
    requires
        is_ascii_chars(s),
        0 <= n <= s.len(),
    ensures
        encode_utf8(s.subrange(0, n)) == encode_utf8(s).subrange(0, n),
        valid_utf8(encode_utf8(s).subrange(0, n)),
        decode_utf8(encode_utf8(s).subrange(0, n)) == s.subrange(0, n),
{
    let p = s.subrange(0, n);
    assert(is_ascii_chars(p));
    is_ascii_chars_encode_utf8(s);
    is_ascii_chars_encode_utf8(p);
    assert(encode_utf8(p) =~= encode_utf8(s).subrange(0, n));
    encode_utf8_valid_utf8(p);
    encode_utf8_decode_utf8(p);
}

} // verus!
