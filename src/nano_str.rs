use vstd::prelude::*;
use vstd::slice::slice_subrange;
use vstd::string::*;
use vstd::utf8::*;

use crate::ascii::{lemma_ascii_prefix, lemma_byte_len_is_scalar_count_iff_ascii};
use crate::error::OversizedError;

verus! {

/// How many bytes of text a `NanoStr` holds.
pub const CAPACITY: usize = 23;

/// Up to `CAPACITY` bytes of UTF-8 text, stored inline with their length.
#[derive(Debug, Clone, Copy, PartialEq, Eq)]
pub struct NanoStr {
    buf: [u8; CAPACITY],
    len: u8,
}

/// What strict construction makes of text: its bytes when they fit, else the
/// refusal with the byte length narrowed to eight bits.
pub open spec fn strict_outcome(s: Seq<char>) -> Result<Seq<u8>, u8> {
    let b = encode_utf8(s);
    if b.len() > CAPACITY {
        Err(b.len() as u8)
    } else {
        Ok(b)
    }
}

/// What truncating construction makes of text: all its bytes when they fit; the
/// first `CAPACITY` bytes of longer ASCII text; a refusal for longer text that
/// holds a multi-byte scalar.
pub open spec fn truncated_outcome(s: Seq<char>) -> Result<Seq<u8>, u8> {
    let b = encode_utf8(s);
    if b.len() <= CAPACITY {
        Ok(b)
    } else if s.len() != b.len() {
        Err(b.len() as u8)
    } else {
        Ok(b.subrange(0, CAPACITY as int))
    }
}

/// The bytes that unchecked construction keeps: at most the first `CAPACITY`.
pub open spec fn unchecked_bytes(s: Seq<char>) -> Seq<u8> {
    let b = encode_utf8(s);
    if b.len() > CAPACITY {
        b.subrange(0, CAPACITY as int)
    } else {
        b
    }
}

/// Relies on `std::str::from_utf8`: on valid UTF-8 it returns `Ok` with a view
/// of exactly the given bytes.
#[verifier::external_body]
fn str_from_utf8(b: &[u8]) -> (r: &str)
    requires
        valid_utf8(b@),
    ensures
        r.spec_bytes() == b@,
{
    std::str::from_utf8(b).unwrap()
}

/// The bytes held, or the length reported, by a construction result.
pub open spec fn outcome(r: Result<NanoStr, OversizedError>) -> Result<Seq<u8>, u8> {
    match r {
        Ok(n) => Ok(n.bytes()),
        Err(e) => Err(e.spec_length()),
    }
}

/// `r` is what a constructor following `expected` returns: the same outcome, and a
/// well-formed value on success.
pub open spec fn is_result_of(r: Result<NanoStr, OversizedError>, expected: Result<Seq<u8>, u8>) -> bool {
    &&& outcome(r) == expected
    &&& r matches Ok(n) ==> n.wf()
}

impl NanoStr {
    /// The stored content: the first `len` bytes of the buffer.
    pub closed spec fn bytes(self) -> Seq<u8> {
        self.buf@.subrange(0, self.len as int)
    }

    /// The length fits the buffer, the content is valid UTF-8 and the unused
    /// tail of the buffer is zero.
    pub closed spec fn wf(self) -> bool {
        &&& self.len as usize <= CAPACITY
        &&& valid_utf8(self.bytes())
        &&& forall|i: int| self.len <= i < CAPACITY ==> self.buf@[i] == 0
    }

    /// Copies the first `len` bytes of `text`, which must form valid UTF-8 on
    /// their own, into a zeroed buffer.
    fn from_prefix(text: &str, len: usize) -> (r: Self)
        requires
            len <= CAPACITY,
            len <= text.spec_bytes().len(),
            valid_utf8(text.spec_bytes().subrange(0, len as int)),
        ensures
            r.wf(),
            r.bytes() == text.spec_bytes().subrange(0, len as int),
    {
        let src = text.as_bytes();
        let mut buf = [0u8; CAPACITY];
        let mut i: usize = 0;
        while i < len
            invariant
                i <= len <= CAPACITY,
                src@ == text.spec_bytes(),
                len <= src@.len(),
                forall|j: int| 0 <= j < i ==> buf@[j] == src@[j],
                forall|j: int| len <= j < CAPACITY ==> buf@[j] == 0,
            decreases len - i,
        {
            buf[i] = src[i];
            i += 1;
        }
        let r = NanoStr { buf, len: len as u8 };
        assert(r.bytes() =~= text.spec_bytes().subrange(0, len as int));
        r
    }

    /// Strict construction: copies the whole text, or refuses text longer than
    /// `CAPACITY` bytes.
    pub fn new(text: &str) -> (r: Result<Self, OversizedError>)
        ensures
            is_result_of(r, strict_outcome(text@)),
            r is Err <==> text.spec_bytes().len() > CAPACITY,
            r matches Ok(n) ==> n@ == text@,
    {
        let len = text.as_bytes().len();
        if len > CAPACITY {
            Err(OversizedError::from_byte_len(len))
        } else {
            proof {
                encode_utf8_valid_utf8(text@);
                encode_utf8_decode_utf8(text@);
                assert(text.spec_bytes().subrange(0, len as int) =~= text.spec_bytes());
            }
            Ok(Self::from_prefix(text, len))
        }
    }

    /// Truncating construction: copies text that fits; cuts longer ASCII text
    /// to its first `CAPACITY` bytes; refuses longer text that holds a
    /// multi-byte scalar, rather than cut inside its encoding.
    pub fn new_truncated(text: &str) -> (r: Result<Self, OversizedError>)
        ensures
            is_result_of(r, truncated_outcome(text@)),
            r is Err <==> (text.spec_bytes().len() > CAPACITY && !is_ascii_chars(text@)),
            text.spec_bytes().len() <= CAPACITY ==> (r matches Ok(n) && n@ == text@),
            (is_ascii_chars(text@) && text@.len() > CAPACITY) ==> (r matches Ok(n) && n@
                == text@.subrange(0, CAPACITY as int) && n@.len() == CAPACITY && n@ != text@),
    {
        let size = text.as_bytes().len();
        let count = text.unicode_len();
        proof {
            lemma_byte_len_is_scalar_count_iff_ascii(text@);
            encode_utf8_valid_utf8(text@);
            encode_utf8_decode_utf8(text@);
        }
        if size > CAPACITY && count != size {
            Err(OversizedError::from_byte_len(size))
        } else if count > CAPACITY {
            proof {
                lemma_ascii_prefix(text@, CAPACITY as int);
            }
            Ok(Self::from_prefix(text, CAPACITY))
        } else {
            proof {
                assert(text.spec_bytes().subrange(0, size as int) =~= text.spec_bytes());
            }
            Ok(Self::from_prefix(text, size))
        }
    }

    /// Unchecked construction: keeps the first `CAPACITY` bytes of longer text
    /// without looking for a scalar boundary. The caller vouches that the kept
    /// bytes are valid UTF-8 on their own, that is, the cut does not fall inside
    /// a multi-byte scalar.
    pub fn new_unchecked(text: &str) -> (r: Self)
        requires
            valid_utf8(unchecked_bytes(text@)),
        ensures
            r.wf(),
            r.bytes() == unchecked_bytes(text@),
            r@ == decode_utf8(unchecked_bytes(text@)),
    {
        let size = text.as_bytes().len();
        let len = if size >= CAPACITY {
            CAPACITY
        } else {
            size
        };
        proof {
            assert(unchecked_bytes(text@) =~= text.spec_bytes().subrange(0, len as int));
        }
        Self::from_prefix(text, len)
    }

    /// The stored text, as a string slice over the buffer.
    pub fn as_str(&self) -> (r: &str)
        requires
            self.wf(),
        ensures
            r@ == self@,
            r.spec_bytes() == self.bytes(),
    {
        let b = slice_subrange(self.buf.as_slice(), 0, self.len as usize);
        let r = str_from_utf8(b);
        proof {
            encode_utf8_decode_utf8(r@);
        }
        r
    }

    /// The stored text, as an owned `String`; its UTF-8 encoding is exactly the
    /// stored bytes.
    pub fn to_string(&self) -> (r: String)
        requires
            self.wf(),
        ensures
            r@ == self@,
            encode_utf8(r@) == self.bytes(),
    {
        String::from_str(self.as_str())
    }
}

impl View for NanoStr {
    type V = Seq<char>;

    /// The scalars that the stored bytes encode.
    open spec fn view(&self) -> Seq<char> {
        decode_utf8(self.bytes())
    }
}

/// Two well-formed values that hold the same bytes are the same value.
pub proof fn lemma_same_bytes_same_value(a: NanoStr, b: NanoStr)
    requires
        a.wf(),
        b.wf(),
        a.bytes() == b.bytes(),
    ensures
        a == b,
{
    assert(a.buf@.len() == CAPACITY && b.buf@.len() == CAPACITY);
    assert(a.bytes().len() == a.len && b.bytes().len() == b.len);
    assert(a.buf@ =~= b.buf@) by {
        assert forall|i: int| 0 <= i < CAPACITY implies a.buf@[i] == b.buf@[i] by {
            if i < a.len {
                assert(a.bytes()[i] == a.buf@[i] && b.bytes()[i] == b.buf@[i]);
            }
        }
    }
    assert(a.buf == b.buf);
}

/// Text of at most `CAPACITY` bytes: truncating construction succeeds and gives
/// the same value as strict construction.
pub proof fn lemma_truncated_agrees_with_strict(
    s: Seq<char>,
    t: Result<NanoStr, OversizedError>,
    n: Result<NanoStr, OversizedError>,
)
    requires
        encode_utf8(s).len() <= CAPACITY,
        is_result_of(t, truncated_outcome(s)),
        is_result_of(n, strict_outcome(s)),
    ensures
        t is Ok,
        t == n,
{
    lemma_same_bytes_same_value(t->Ok_0, n->Ok_0);
}

/// Text of at most `CAPACITY` bytes: unchecked construction gives the value that
/// strict construction returns.
pub proof fn lemma_unchecked_agrees_with_strict(
    s: Seq<char>,
    u: NanoStr,
    n: Result<NanoStr, OversizedError>,
)
    requires
        encode_utf8(s).len() <= CAPACITY,
        u.wf(),
        u.bytes() == unchecked_bytes(s),
        is_result_of(n, strict_outcome(s)),
    ensures
        n == Ok::<NanoStr, OversizedError>(u),
{
    lemma_same_bytes_same_value(u, n->Ok_0);
}

/// Rendering a value as text and encoding that text again gives back exactly
/// the stored bytes; so any constructed value renders to the bytes it was built
/// from, whole or cut.
pub proof fn lemma_display_round_trip(n: NanoStr)
    requires
        n.wf(),
    ensures
        encode_utf8(n@) == n.bytes(),
        valid_utf8(n.bytes()),
        n.bytes().len() <= CAPACITY,
{
    decode_utf8_encode_utf8(n.bytes());
}

} // verus!
