//! Byte-level building blocks shared by the wire formats: little-endian
//! integers, UTF-8 text and length-prefixed fields.

use vstd::bytes::*;
use vstd::prelude::*;
use vstd::slice::*;
use vstd::utf8::*;

verus! {

/// Appends `bytes` to `out`.
pub fn append_bytes(out: &mut Vec<u8>, bytes: &[u8])
    ensures
        final(out)@ == old(out)@ + bytes@,
{
    let mut i: usize = 0;
    while i < bytes.len()
        invariant
            i <= bytes.len(),
            out@ == old(out)@ + bytes@.take(i as int),
        decreases bytes.len() - i,
    {
        out.push(bytes[i]);
        proof {
            assert(bytes@.take(i + 1) =~= bytes@.take(i as int).push(bytes@[i as int]));
            assert(out@ =~= old(out)@ + bytes@.take(i + 1));
        }
        i += 1;
    }
    proof {
        assert(bytes@.take(bytes.len() as int) =~= bytes@);
    }
}

/// The UTF-8 bytes of a text.
pub fn bytes_of_text(text: &str) -> (out: Vec<u8>)
    ensures
        out@ == encode_utf8(text@),
{
    slice_to_vec(text.as_bytes())
}

/// Calls `String::from_utf8`: the text that the bytes encode, if they are
/// well-formed UTF-8, and nothing otherwise.
#[verifier::external_body]
pub(crate) fn text_of_bytes(bytes: Vec<u8>) -> (text: Option<String>)
    ensures
        text is Some <==> valid_utf8(bytes@),
        text matches Some(t) ==> t@ == decode_utf8(bytes@),
{
    String::from_utf8(bytes).ok()
}

/// The bytes of a field: its length, which takes 8 bytes, then its content.
pub open spec fn field_bytes(content: Seq<u8>) -> Seq<u8>
    recommends
        content.len() <= u64::MAX,
{
    spec_u64_to_le_bytes(content.len() as u64) + content
}

/// Splits a leading field off `input`: its content and what follows it.
pub open spec fn parse_field(input: Seq<u8>) -> Option<(Seq<u8>, Seq<u8>)> {
    if input.len() < 8 {
        None
    } else {
        let n = spec_u64_from_le_bytes(input.take(8)) as int;
        if input.len() - 8 < n {
            None
        } else {
            Some((input.subrange(8, 8 + n), input.skip(8 + n)))
        }
    }
}

/// A field that is followed by `rest` parses back into both.
pub proof fn lemma_field_round_trip(content: Seq<u8>, rest: Seq<u8>)
    requires
        content.len() <= u64::MAX,
    ensures
        parse_field(field_bytes(content) + rest) == Some((content, rest)),
{
    lemma_auto_spec_u64_to_from_le_bytes();
    let input = field_bytes(content) + rest;
    let n = content.len() as u64;
    assert(input.take(8) =~= spec_u64_to_le_bytes(n));
    assert(input.subrange(8, 8 + n as int) =~= content);
    assert(input.skip(8 + n as int) =~= rest);
}

/// Whatever parses as a field is that field's one encoding.
pub proof fn lemma_field_canonical(input: Seq<u8>)
    requires
        parse_field(input) is Some,
    ensures
        ({
            let (content, rest) = parse_field(input)->0;
            content.len() <= u64::MAX && input == field_bytes(content) + rest
        }),
{
    lemma_auto_spec_u64_to_from_le_bytes();
    let (content, rest) = parse_field(input)->0;
    let n = spec_u64_from_le_bytes(input.take(8));
    assert(content.len() == n);
    assert(spec_u64_to_le_bytes(spec_u64_from_le_bytes(input.take(8))) == input.take(8));
    assert(input =~= field_bytes(content) + rest);
}

/// Appends `content` as a field.
pub(crate) fn put_field(out: &mut Vec<u8>, content: &[u8])
    ensures
        final(out)@ == old(out)@ + field_bytes(content@),
{
    let n: u64 = content.len() as u64;
    let prefix = u64_to_le_bytes(n);
    append_bytes(out, prefix.as_slice());
    append_bytes(out, content);
    proof {
        assert(out@ =~= old(out)@ + field_bytes(content@));
    }
}

/// Reads the field at the start of `input[at..]`: its content and the
/// position just behind it.
pub(crate) fn take_field(input: &[u8], at: usize) -> (r: Option<(Vec<u8>, usize)>)
    requires
        at <= input@.len(),
    ensures
        match r {
            Some((content, next)) => {
                &&& parse_field(input@.skip(at as int)) == Some(
                    (content@, input@.skip(next as int)),
                )
                &&& at + 8 + content@.len() == next <= input@.len()
            },
            None => parse_field(input@.skip(at as int)) is None,
        },
{
    let ghost tail = input@.skip(at as int);
    if input.len() - at < 8 {
        return None;
    }
    let count: u64 = u64_from_le_bytes(slice_subrange(input, at, at + 8));
    proof {
        assert(input@.subrange(at as int, at + 8) =~= tail.take(8));
    }
    let rest: usize = input.len() - at - 8;
    if (rest as u64) < count {
        return None;
    }
    let n: usize = count as usize;
    let content = slice_to_vec(slice_subrange(input, at + 8, at + 8 + n));
    proof {
        assert(input@.subrange(at + 8, at + 8 + n) =~= tail.subrange(8, 8 + n));
        assert(input@.skip(at + 8 + n) =~= tail.skip(8 + n));
    }
    Some((content, at + 8 + n))
}

/// Compares two byte strings without leaving early on the first difference.
pub fn same_bytes(a: &[u8], b: &[u8]) -> (r: bool)
    ensures
        r == (a@ == b@),
{
    if a.len() != b.len() {
        return false;
    }
    let mut diff: u8 = 0;
    let mut i: usize = 0;
    while i < a.len()
        invariant
            i <= a.len(),
            a.len() == b.len(),
            (diff == 0) == (a@.take(i as int) =~= b@.take(i as int)),
        decreases a.len() - i,
    {
        let x: u8 = a[i];
        let y: u8 = b[i];
        let ghost before = diff;
        diff = diff | (x ^ y);
        proof {
            assert((diff == 0) == (before == 0 && x == y)) by (bit_vector)
                requires
                    diff == before | (x ^ y),
            ;
            assert(a@.take(i + 1) =~= a@.take(i as int).push(x));
            assert(b@.take(i + 1) =~= b@.take(i as int).push(y));
            if a@.take(i + 1) == b@.take(i + 1) {
                assert(a@.take(i + 1).drop_last() =~= a@.take(i as int));
                assert(b@.take(i + 1).drop_last() =~= b@.take(i as int));
                assert(a@.take(i + 1).last() == x);
                assert(b@.take(i + 1).last() == y);
            }
        }
        i += 1;
    }
    proof {
        assert(a@.take(a.len() as int) =~= a@);
        assert(b@.take(b.len() as int) =~= b@);
    }
    diff == 0
}

/// Whether two texts are the same.
pub fn same_text(a: &str, b: &str) -> (r: bool)
    ensures
        r == (a@ == b@),
{
    broadcast use encode_utf8_decode_utf8;

    let r = same_bytes(a.as_bytes(), b.as_bytes());
    proof {
        if r {
            assert(decode_utf8(encode_utf8(a@)) == decode_utf8(encode_utf8(b@)));
        }
    }
    r
}

} // verus!
