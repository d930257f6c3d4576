//! Bytes and text: where the request ends in its buffer, how its bytes are
//! read as UTF-8, when two texts are the same, and when text is free of
//! zero bytes.

use vstd::prelude::*;
use vstd::slice::slice_subrange;
use vstd::utf8::{
    char_u32_cast, decode_utf8, encode_scalar, encode_utf8, encode_utf8_decode_utf8,
    has_width_1_encoding, valid_utf8,
};

verus! {

/// The number of bytes that stand before the first zero byte of `buffer`,
/// or its length where it holds none.
pub open spec fn text_len(buffer: Seq<u8>) -> nat
    decreases buffer.len(),
{
    if buffer.len() == 0 || buffer[0] == 0 {
        0
    } else {
        1 + text_len(buffer.drop_first())
    }
}

/// The request in `buffer`: its bytes up to, and without, the first zero
/// byte.
pub open spec fn terminated(buffer: Seq<u8>) -> Seq<u8> {
    buffer.take(text_len(buffer) as int)
}

/// Whether `n` bytes of `buffer` are free of zero bytes and the buffer ends
/// or holds a zero byte right after them.
pub open spec fn ends_at(buffer: Seq<u8>, n: int) -> bool {
    &&& 0 <= n <= buffer.len()
    &&& forall|i: int| 0 <= i < n ==> buffer[i] != 0
    &&& n < buffer.len() ==> buffer[n] == 0
}

/// A request ends at exactly one place: at `text_len`.
pub proof fn lemma_ends_at_text_len(buffer: Seq<u8>, n: int)
    ensures
        ends_at(buffer, n) <==> n == text_len(buffer),
    decreases buffer.len(),
{
    if buffer.len() == 0 || buffer[0] == 0 {
        if ends_at(buffer, n) && n > 0 {
            assert(buffer[0] != 0);
        }
    } else {
        let rest = buffer.drop_first();
        lemma_ends_at_text_len(rest, n - 1);
        if ends_at(buffer, n) {
            assert(n > 0);
            assert forall|i: int| 0 <= i < n - 1 implies rest[i] != 0 by {
                assert(rest[i] == buffer[i + 1]);
            }
            assert(ends_at(rest, n - 1));
        }
        if n == text_len(buffer) {
            assert(ends_at(rest, n - 1));
            assert forall|i: int| 0 <= i < n implies buffer[i] != 0 by {
                if i > 0 {
                    assert(rest[i - 1] == buffer[i]);
                }
            }
            if n < buffer.len() {
                assert(rest[n - 1] == buffer[n]);
            }
        }
    }
}

/// A request that holds no zero byte is read in full, and nothing that
/// follows its terminating zero byte is read with it.
pub proof fn lemma_terminated_by_zero(request: Seq<u8>, rest: Seq<u8>)
    requires
        forall|i: int| 0 <= i < request.len() ==> request[i] != 0,
    ensures
        terminated(request) == request,
        terminated(request + seq![0u8] + rest) == request,
{
    let buffer = request + seq![0u8] + rest;
    lemma_ends_at_text_len(request, request.len() as int);
    lemma_ends_at_text_len(buffer, request.len() as int);
    assert(request.take(request.len() as int) =~= request);
    assert(buffer.take(request.len() as int) =~= request);
}

/// The part of `buffer` that holds the request: everything before the first
/// zero byte, or all of it where there is none.
pub fn until_nul(buffer: &[u8]) -> (r: &[u8])
    ensures
        r@ == terminated(buffer@),
        r@.len() == text_len(buffer@),
        ends_at(buffer@, r@.len() as int),
{
    let mut n: usize = 0;
    while n < buffer.len() && buffer[n] != 0
        invariant
            n <= buffer.len(),
            forall|i: int| 0 <= i < n ==> buffer@[i] != 0,
        decreases buffer.len() - n,
    {
        n += 1;
    }
    proof {
        lemma_ends_at_text_len(buffer@, n as int);
    }
    slice_subrange(buffer, 0, n)
}

/// Whether `byte` is an ASCII digit.
pub open spec fn is_digit(byte: u8) -> bool {
    0x30 <= byte <= 0x39
}

/// Whether `bytes` holds no zero byte.
pub open spec fn zero_free(bytes: Seq<u8>) -> bool {
    forall|i: int| 0 <= i < bytes.len() ==> bytes[i] != 0
}

/// Whether `text` holds no NUL character.
pub open spec fn nul_free(text: Seq<char>) -> bool {
    forall|i: int| 0 <= i < text.len() ==> text[i] != '\0'
}

proof fn lemma_marked_byte_is_not_zero(b: u8)
    by (bit_vector)
    ensures
        0x80u8 | b != 0,
        0xC0u8 | b != 0,
        0xE0u8 | b != 0,
        0xF0u8 | b != 0,
{
}

proof fn lemma_low_byte_is_not_zero(c: u32)
    by (bit_vector)
    requires
        0 < c <= 0x7F,
    ensures
        (c & 0x7F) as u8 != 0,
{
}

/// The encoding of a character other than NUL holds no zero byte.
proof fn lemma_scalar_is_zero_free(c: u32)
    requires
        c != 0,
    ensures
        zero_free(encode_scalar(c)),
{
    if has_width_1_encoding(c) {
        lemma_low_byte_is_not_zero(c);
    }
    lemma_marked_byte_is_not_zero(((c >> 6) & 0x1F) as u8);
    lemma_marked_byte_is_not_zero(((c >> 12) & 0x0F) as u8);
    lemma_marked_byte_is_not_zero(((c >> 18) & 0x7) as u8);
    lemma_marked_byte_is_not_zero((c & 0x3F) as u8);
    lemma_marked_byte_is_not_zero(((c >> 6) & 0x3F) as u8);
    lemma_marked_byte_is_not_zero(((c >> 12) & 0x3F) as u8);
}

/// Text without a NUL character is encoded without a zero byte.
pub proof fn lemma_encoding_is_zero_free(text: Seq<char>)
    requires
        nul_free(text),
    ensures
        zero_free(encode_utf8(text)),
    decreases text.len(),
{
    if text.len() > 0 {
        let first = encode_scalar(text[0] as u32);
        let rest = encode_utf8(text.drop_first());
        assert(text[0] as u32 != 0) by {
            char_u32_cast(text[0], text[0] as u32);
            char_u32_cast('\0', 0u32);
        }
        lemma_scalar_is_zero_free(text[0] as u32);
        assert(nul_free(text.drop_first())) by {
            assert forall|i: int| 0 <= i < text.drop_first().len() implies text.drop_first()[i]
                != '\0' by {
                assert(text.drop_first()[i] == text[i + 1]);
            }
        }
        lemma_encoding_is_zero_free(text.drop_first());
        assert forall|i: int| 0 <= i < (first + rest).len() implies (first + rest)[i] != 0 by {
            if i < first.len() {
                assert((first + rest)[i] == first[i]);
            } else {
                assert((first + rest)[i] == rest[i - first.len()]);
            }
        }
    }
}

/// Text that is not empty is encoded in at least one byte.
pub proof fn lemma_encoding_is_not_empty(text: Seq<char>)
    requires
        text.len() > 0,
    ensures
        encode_utf8(text).len() > 0,
{
    assert(encode_scalar(text[0] as u32).len() > 0);
}

/// How `std::str::from_utf8` describes what is wrong with bytes that are
/// not well-formed UTF-8: the text that the `Display` impl of its error
/// writes.
pub uninterp spec fn utf8_fault(bytes: Seq<u8>) -> Seq<char>;

/// `std::str::from_utf8`. Trusted: it succeeds on well-formed UTF-8 and on
/// nothing else, and then yields the text that the bytes encode; its error is
/// handed on as the text that its `Display` impl writes, which depends on the
/// bytes alone.
#[verifier::external_body]
pub(crate) fn utf8_text<'a>(bytes: &'a [u8]) -> (r: Result<&'a str, String>)
    ensures
        (match r {
            Ok(text) => valid_utf8(bytes@) && text@ == decode_utf8(bytes@),
            Err(reason) => !valid_utf8(bytes@) && reason@ == utf8_fault(bytes@),
        }),
{
    match std::str::from_utf8(bytes) {
        Ok(text) => Ok(text),
        Err(error) => Err(error.to_string()),
    }
}

/// Whether `a` and `b` are the same text, character for character.
pub fn same_text(a: &str, b: &str) -> (r: bool)
    ensures
        r == (a@ == b@),
{
    let x = a.as_bytes();
    let y = b.as_bytes();
    if x.len() != y.len() {
        return false;
    }
    let mut i: usize = 0;
    while i < x.len()
        invariant
            i <= x.len(),
            x.len() == y.len(),
            x@ == encode_utf8(a@),
            y@ == encode_utf8(b@),
            forall|j: int| 0 <= j < i ==> x@[j] == y@[j],
        decreases x.len() - i,
    {
        if x[i] != y[i] {
            return false;
        }
        i += 1;
    }
    proof {
        assert(x@ =~= y@);
        encode_utf8_decode_utf8(a@);
        encode_utf8_decode_utf8(b@);
    }
    true
}

} // verus!
