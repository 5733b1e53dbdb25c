//! Byte decoders: little-endian integers and null-terminated strings.

use crate::error::{ElfError, ElfErrorKind, ElfErrorView};
use vstd::prelude::*;

verus! {

/// `String::push` of the standard library: the character is appended to the
/// end of the string and nothing else changes.
pub assume_specification[ String::push ](s: &mut String, ch: char)
    ensures
        final(s)@ == old(s)@.push(ch),
;

/// The number that `bytes` spell in little-endian order: the first byte is
/// the least significant one.
pub open spec fn le_value(bytes: Seq<u8>) -> nat
    decreases bytes.len(),
{
    if bytes.len() == 0 {
        0
    } else {
        bytes[0] as nat + 256 * le_value(bytes.drop_first())
    }
}

/// The `width` bytes that spell `value` in little-endian order. A value
/// that needs more bytes loses its high part.
pub open spec fn le_bytes(value: nat, width: nat) -> Seq<u8>
    decreases width,
{
    if width == 0 {
        Seq::empty()
    } else {
        seq![(value % 256) as u8] + le_bytes(value / 256, (width - 1) as nat)
    }
}

/// The number of values that `width` bytes can spell.
pub open spec fn radix(width: nat) -> nat
    decreases width,
{
    if width == 0 {
        1
    } else {
        256 * radix((width - 1) as nat)
    }
}

/// A little-endian value is below the radix of its width.
pub proof fn lemma_le_value_bound(bytes: Seq<u8>)
    ensures
        le_value(bytes) < radix(bytes.len()),
    decreases bytes.len(),
{
    if bytes.len() > 0 {
        lemma_le_value_bound(bytes.drop_first());
    }
}

/// Encoding yields exactly `width` bytes.
pub proof fn lemma_le_bytes_len(value: nat, width: nat)
    ensures
        le_bytes(value, width).len() == width,
    decreases width,
{
    if width > 0 {
        lemma_le_bytes_len(value / 256, (width - 1) as nat);
    }
}

/// Round trip from a value: a value that fits in `width` bytes is what its
/// little-endian encoding decodes to.
pub proof fn lemma_decode_of_encode(value: nat, width: nat)
    requires
        value < radix(width),
    ensures
        le_value(le_bytes(value, width)) == value,
    decreases width,
{
    if width > 0 {
        let rest = le_bytes(value / 256, (width - 1) as nat);
        let all = le_bytes(value, width);
        lemma_decode_of_encode(value / 256, (width - 1) as nat);
        assert(all.drop_first() =~= rest);
    }
}

/// Round trip from bytes: encoding the value of a byte sequence at the same
/// width gives the sequence back.
pub proof fn lemma_encode_of_decode(bytes: Seq<u8>)
    ensures
        le_bytes(le_value(bytes), bytes.len()) == bytes,
    decreases bytes.len(),
{
    if bytes.len() > 0 {
        let rest = bytes.drop_first();
        lemma_encode_of_decode(rest);
        let value = le_value(bytes);
        assert(value % 256 == bytes[0] as nat);
        assert(value / 256 == le_value(rest));
        assert(le_bytes(value, bytes.len()) =~= bytes);
    }
}

/// Decodes two bytes, least significant first.
pub fn bytes_to_u16(bytes: [u8; 2]) -> (value: u16)
    ensures
        value as nat == le_value(bytes@),
        value == bytes[0] + 256 * bytes[1],
{
    let b0: u16 = bytes[0] as u16;
    let b1: u16 = bytes[1] as u16;
    assert(b0 | (b1 << 8) == b0 + 256 * b1) by (bit_vector)
        requires
            b0 < 256,
            b1 < 256,
    ;
    proof {
        lemma_le_value_unfold(bytes@, 0);
        lemma_le_value_unfold(bytes@, 1);
    }
    b0 | (b1 << 8)
}

/// Decodes four bytes, least significant first.
pub fn bytes_to_u32(bytes: [u8; 4]) -> (value: u32)
    ensures
        value as nat == le_value(bytes@),
        value == bytes[0] + 256 * (bytes[1] + 256 * (bytes[2] + 256 * bytes[3])),
{
    let b0: u32 = bytes[0] as u32;
    let b1: u32 = bytes[1] as u32;
    let b2: u32 = bytes[2] as u32;
    let b3: u32 = bytes[3] as u32;
    assert(b0 | (b1 << 8) | (b2 << 16) | (b3 << 24) == b0 + 256 * (b1 + 256 * (b2 + 256 * b3)))
        by (bit_vector)
        requires
            b0 < 256,
            b1 < 256,
            b2 < 256,
            b3 < 256,
    ;
    proof {
        lemma_le_value_unfold(bytes@, 0);
        lemma_le_value_unfold(bytes@, 1);
        lemma_le_value_unfold(bytes@, 2);
        lemma_le_value_unfold(bytes@, 3);
    }
    b0 | (b1 << 8) | (b2 << 16) | (b3 << 24)
}

/// Decodes eight bytes, least significant first.
pub fn bytes_to_u64(bytes: [u8; 8]) -> (value: u64)
    ensures
        value as nat == le_value(bytes@),
        value == bytes[0] + 256 * (bytes[1] + 256 * (bytes[2] + 256 * (bytes[3] + 256 * (bytes[4]
            + 256 * (bytes[5] + 256 * (bytes[6] + 256 * bytes[7])))))),
{
    let mut num: u64 = 0;
    let mut i: usize = 8;
    while i > 0
        invariant
            i <= 8,
            num as nat == le_value(bytes@.skip(i as int)),
            num < radix((8 - i) as nat),
        decreases i,
    {
        i = i - 1;
        let each: u64 = bytes[i] as u64;
        proof {
            reveal_with_fuel(radix, 9);
            lemma_le_value_unfold(bytes@, i as int);
        }
        assert((num << 8) | each == 256 * num + each) by (bit_vector)
            requires
                each < 256,
                num < 0x0100_0000_0000_0000,
        ;
        num = (num << 8) | each;
    }
    proof {
        assert(bytes@.skip(0) =~= bytes@);
        lemma_le_value_unfold(bytes@, 0);
        lemma_le_value_unfold(bytes@, 1);
        lemma_le_value_unfold(bytes@, 2);
        lemma_le_value_unfold(bytes@, 3);
        lemma_le_value_unfold(bytes@, 4);
        lemma_le_value_unfold(bytes@, 5);
        lemma_le_value_unfold(bytes@, 6);
        lemma_le_value_unfold(bytes@, 7);
    }
    num
}

/// One step of the definition of `le_value`, taken at position `at`: the
/// value of a tail is its first byte plus 256 times the value of the tail
/// after it.
pub proof fn lemma_le_value_unfold(bytes: Seq<u8>, at: int)
    requires
        0 <= at < bytes.len(),
    ensures
        le_value(bytes.skip(at)) == bytes[at] as nat + 256 * le_value(bytes.skip(at + 1)),
        at == 0 ==> le_value(bytes) == bytes[0] as nat + 256 * le_value(bytes.skip(1)),
        at + 1 == bytes.len() ==> le_value(bytes.skip(at + 1)) == 0,
{
    assert(bytes.skip(at).drop_first() =~= bytes.skip(at + 1));
    assert(bytes.skip(0) =~= bytes);
}

/// The text that `bytes` spell when every byte stands for the character
/// with the same code.
pub open spec fn byte_chars(bytes: Seq<u8>) -> Seq<char> {
    Seq::new(bytes.len(), |i: int| bytes[i] as char)
}

/// The index of the first zero byte of `bytes` at or after `start`, or
/// `bytes.len()` where there is none.
pub open spec fn terminator(bytes: Seq<u8>, start: nat) -> nat
    decreases bytes.len() - start,
{
    if start >= bytes.len() {
        bytes.len()
    } else if bytes[start as int] == 0 {
        start
    } else {
        terminator(bytes, start + 1)
    }
}

/// Whether a zero byte ends the string that starts at `start`.
pub open spec fn is_terminated(bytes: Seq<u8>, start: nat) -> bool {
    terminator(bytes, start) < bytes.len()
}

/// The characters from `start` up to, and without, the first zero byte; up
/// to the end of `bytes` where no zero byte follows. Empty where `start`
/// lies at or past the end.
pub open spec fn text_at(bytes: Seq<u8>, start: nat) -> Seq<char> {
    if start >= bytes.len() {
        Seq::empty()
    } else {
        byte_chars(bytes.subrange(start as int, terminator(bytes, start) as int))
    }
}

/// What `terminator` finds: it lies between `start` and the end, no byte
/// before it is zero, and it is a zero byte unless it is the end.
pub proof fn lemma_terminator(bytes: Seq<u8>, start: nat)
    requires
        start <= bytes.len(),
    ensures
        start <= terminator(bytes, start) <= bytes.len(),
        forall|i: int| start <= i < terminator(bytes, start) ==> bytes[i] != 0,
        is_terminated(bytes, start) ==> bytes[terminator(bytes, start) as int] == 0,
    decreases bytes.len() - start,
{
    if start < bytes.len() && bytes[start as int] != 0 {
        lemma_terminator(bytes, start + 1);
    }
}

/// The first zero byte is the only index that `terminator` can name: an
/// index `end` with no zero byte between `start` and itself, which is a
/// zero byte or the end of `bytes`.
pub proof fn lemma_terminator_is(bytes: Seq<u8>, start: nat, end: nat)
    requires
        start <= end <= bytes.len(),
        forall|i: int| start <= i < end ==> bytes[i] != 0,
        end < bytes.len() ==> bytes[end as int] == 0,
    ensures
        terminator(bytes, start) == end,
    decreases end - start,
{
    if start < end {
        lemma_terminator_is(bytes, start + 1, end);
    }
}

/// Decodes the null-terminated string that starts at offset `start` of
/// `bytes`. A start past the end, and a string that runs to the end of
/// `bytes` without a zero byte, are malformed input: the error keeps the
/// characters scanned so far.
pub fn read_null_term_str(start: u32, bytes: &Vec<u8>) -> (r: Result<String, ElfError>)
    ensures
        match r {
            Ok(text) => is_terminated(bytes@, start as nat) && text@ == text_at(
                bytes@,
                start as nat,
            ),
            Err(error) => !is_terminated(bytes@, start as nat) && error@
                == (ElfErrorView::InvalidString { partial: text_at(bytes@, start as nat) }),
        },
{
    let mut s = String::new();
    let first: usize = start as usize;
    if first >= bytes.len() {
        return Err(ElfError::new(ElfErrorKind::InvalidString { partial: s }));
    }
    let mut i: usize = first;
    while i < bytes.len()
        invariant
            first == start,
            first <= i <= bytes.len(),
            first < bytes.len(),
            forall|j: int| first <= j < i ==> bytes[j] != 0,
            s@ == byte_chars(bytes@.subrange(first as int, i as int)),
        decreases bytes.len() - i,
    {
        let byte: u8 = bytes[i];
        if byte == 0 {
            proof {
                lemma_terminator_is(bytes@, first as nat, i as nat);
            }
            return Ok(s);
        }
        s.push(byte as char);
        assert(byte_chars(bytes@.subrange(first as int, i + 1)) =~= byte_chars(
            bytes@.subrange(first as int, i as int),
        ).push(byte as char));
        i = i + 1;
    }
    proof {
        lemma_terminator_is(bytes@, first as nat, i as nat);
    }
    Err(ElfError::new(ElfErrorKind::InvalidString { partial: s }))
}

} // verus!
