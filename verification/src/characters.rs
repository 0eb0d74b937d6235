//! The characters of a template and its bytes.
//!
//! The parser reads bytes. What it finds is what a reader of characters
//! would find: the introducer and the markers are ASCII, an ASCII character
//! is one byte in UTF-8, and every byte of a longer character is 0x80 or more.

use crate::markup::fires;
use crate::markup::is_markup;
use crate::markup::INTRODUCER;
use crate::markup::MARKUP;
use vstd::prelude::*;
use vstd::utf8::encode_scalar;
use vstd::utf8::encode_utf8;

verus! {

/// Whether a placeholder begins at the character `k` of `format`: the
/// introducer stands there, no introducer stands just before it, and a marker
/// follows it.
pub open spec fn fires_in_text(format: Seq<char>, k: int) -> bool {
    &&& 0 <= k
    &&& k + 1 < format.len()
    &&& format[k] == INTRODUCER
    &&& (k == 0 || format[k - 1] != INTRODUCER)
    &&& is_markup(format[k + 1])
}

/// The offset in bytes of the character `k` of `format`.
pub open spec fn byte_offset(format: Seq<char>, k: int) -> int {
    encode_utf8(format.take(k)).len() as int
}

/// An ASCII character is encoded as itself, in one byte; any other character
/// takes two to four bytes, each of them 0x80 or more.
pub proof fn lemma_scalar_bytes(c: char)
    ensures
        1 <= encode_scalar(c as u32).len() <= 4,
        c <= '\u{7f}' ==> encode_scalar(c as u32) == seq![c as u8] && c as u8 as char == c,
        c > '\u{7f}' ==> forall|j: int|
            0 <= j < encode_scalar(c as u32).len() ==> #[trigger] encode_scalar(c as u32)[j]
                >= 0x80,
{
    let s = c as u32;
    if s <= 0x7f {
        assert((s & 0x7F) as u8 == s as u8) by (bit_vector)
            requires
                s <= 0x7f,
        ;
        assert(encode_scalar(s) =~= seq![c as u8]);
    } else {
        assert((0xC0u8 | ((s >> 6) & 0x1F) as u8) >= 0x80) by (bit_vector);
        assert((0xE0u8 | ((s >> 12) & 0x0F) as u8) >= 0x80) by (bit_vector);
        assert((0xF0u8 | ((s >> 18) & 0x7) as u8) >= 0x80) by (bit_vector);
        assert((0x80u8 | (s & 0x3F) as u8) >= 0x80) by (bit_vector);
        assert((0x80u8 | ((s >> 6) & 0x3F) as u8) >= 0x80) by (bit_vector);
        assert((0x80u8 | ((s >> 12) & 0x3F) as u8) >= 0x80) by (bit_vector);
    }
}

/// The encoding of two texts, one after the other, is the encoding of the
/// first followed by the encoding of the second.
pub proof fn lemma_encode_concat(first: Seq<char>, second: Seq<char>)
    ensures
        encode_utf8(first + second) == encode_utf8(first) + encode_utf8(second),
    decreases first.len(),
{
    if first.len() == 0 {
        assert(first + second == second);
        assert(encode_utf8(first) + encode_utf8(second) == encode_utf8(second));
    } else {
        lemma_encode_concat(first.drop_first(), second);
        assert((first + second).drop_first() == first.drop_first() + second);
        assert(encode_utf8(first + second) == encode_scalar(first[0] as u32) + (encode_utf8(
            first.drop_first(),
        ) + encode_utf8(second)));
        assert(encode_utf8(first + second) == encode_utf8(first) + encode_utf8(second));
    }
}

/// The bytes of the character `k` stand at its offset, and the next
/// character begins right after them.
pub proof fn lemma_bytes_of_char(format: Seq<char>, k: int)
    requires
        0 <= k < format.len(),
    ensures
        0 <= byte_offset(format, k),
        byte_offset(format, k + 1) == byte_offset(format, k) + encode_scalar(
            format[k] as u32,
        ).len(),
        byte_offset(format, k + 1) <= encode_utf8(format).len(),
        byte_offset(format, format.len() as int) == encode_utf8(format).len(),
        byte_offset(format, 0) == 0,
        forall|j: int|
            0 <= j < encode_scalar(format[k] as u32).len() ==> encode_utf8(format)[byte_offset(
                format,
                k,
            ) + j] == #[trigger] encode_scalar(format[k] as u32)[j],
{
    let before = format.take(k);
    let here = seq![format[k]];
    let after = format.skip(k + 1);
    assert(format.take(k + 1) == before + here);
    assert(format == format.take(k + 1) + after);
    assert(format.take(format.len() as int) == format);
    assert(format.take(0) == Seq::<char>::empty());
    lemma_encode_concat(before, here);
    lemma_encode_concat(format.take(k + 1), after);
    assert(encode_utf8(here) == encode_scalar(format[k] as u32)) by {
        assert(here.drop_first() == Seq::<char>::empty());
        assert(encode_utf8(here.drop_first()) == Seq::<u8>::empty());
        assert(encode_utf8(here) == encode_scalar(here[0] as u32) + encode_utf8(
            here.drop_first(),
        ));
    }
}

/// The character in whose bytes the byte `at` lies, looked for from the
/// character `from` on.
proof fn lemma_owner(format: Seq<char>, at: int, from: int) -> (k: int)
    requires
        0 <= from < format.len(),
        byte_offset(format, from) <= at < encode_utf8(format).len(),
    ensures
        from <= k < format.len(),
        byte_offset(format, k) <= at < byte_offset(format, k + 1),
    decreases format.len() - from,
{
    lemma_bytes_of_char(format, from);
    if at < byte_offset(format, from + 1) {
        from
    } else {
        lemma_owner(format, at, from + 1)
    }
}

/// Every marker is an ASCII character.
pub proof fn lemma_markup_is_ascii(c: char)
    requires
        is_markup(c),
    ensures
        c <= '\u{7f}',
{
    assert(MARKUP@[0] == 'a' && MARKUP@[1] == 'b' && MARKUP@[2] == 'c' && MARKUP@[3] == 'd'
        && MARKUP@[4] == 'm' && MARKUP@[5] == 'i' && MARKUP@[6] == 's' && MARKUP@[7] == 't'
        && MARKUP@[8] == 'w');
}

/// A placeholder that begins at a character begins at the byte at that
/// character's offset, and the marker is the byte that follows.
pub proof fn lemma_char_fires_as_byte(format: Seq<char>, k: int)
    requires
        fires_in_text(format, k),
    ensures
        fires(encode_utf8(format), byte_offset(format, k)),
        encode_utf8(format)[byte_offset(format, k) + 1] as char == format[k + 1],
        byte_offset(format, k + 1) == byte_offset(format, k) + 1,
{
    let bytes = encode_utf8(format);
    let at = byte_offset(format, k);
    assert(INTRODUCER == '%');
    lemma_bytes_of_char(format, k);
    lemma_bytes_of_char(format, k + 1);
    lemma_scalar_bytes(format[k]);
    lemma_scalar_bytes(format[k + 1]);
    lemma_markup_is_ascii(format[k + 1]);
    assert(encode_scalar(format[k] as u32)[0] == format[k] as u8);
    assert(encode_scalar(format[k + 1] as u32)[0] == format[k + 1] as u8);
    assert(bytes[at] == INTRODUCER as u8);
    assert(bytes[at + 1] == format[k + 1] as u8);
    if k > 0 {
        let c = format[k - 1];
        let width = encode_scalar(c as u32).len() as int;
        lemma_bytes_of_char(format, k - 1);
        lemma_scalar_bytes(c);
        assert(bytes[byte_offset(format, k - 1) + (width - 1)] == encode_scalar(
            c as u32,
        )[width - 1]);
        assert(bytes[at - 1] != INTRODUCER as u8);
    }
}

/// A placeholder that begins at a byte begins at a character: the byte is
/// the first of a character, and a placeholder begins at that character.
pub proof fn lemma_byte_fires_as_char(format: Seq<char>, at: int) -> (k: int)
    requires
        fires(encode_utf8(format), at),
    ensures
        fires_in_text(format, k),
        byte_offset(format, k) == at,
{
    let bytes = encode_utf8(format);
    assert(INTRODUCER == '%');
    assert(format.take(0) == Seq::<char>::empty());
    if format.len() == 0 {
        assert(bytes.len() == 0);
    }
    let k = lemma_owner(format, at, 0);
    lemma_bytes_of_char(format, k);
    lemma_scalar_bytes(format[k]);
    let j = at - byte_offset(format, k);
    assert(bytes[byte_offset(format, k) + j] == encode_scalar(format[k] as u32)[j]);
    assert(format[k] <= '\u{7f}');
    assert(encode_scalar(format[k] as u32)[0] == format[k] as u8);
    assert(j == 0);
    assert(format[k] == INTRODUCER);
    // the marker is the character after it
    if k + 1 == format.len() {
        assert(byte_offset(format, k + 1) == bytes.len());
    }
    lemma_bytes_of_char(format, k + 1);
    lemma_scalar_bytes(format[k + 1]);
    lemma_markup_is_ascii(bytes[at + 1] as char);
    assert(bytes[byte_offset(format, k + 1) + 0] == encode_scalar(format[k + 1] as u32)[0]);
    assert(format[k + 1] <= '\u{7f}');
    assert(encode_scalar(format[k + 1] as u32)[0] == format[k + 1] as u8);
    assert(bytes[at + 1] as char == format[k + 1]);
    // and no introducer is the character before it
    if k > 0 {
        let c = format[k - 1];
        lemma_bytes_of_char(format, k - 1);
        lemma_scalar_bytes(c);
        if c == INTRODUCER {
            assert(encode_scalar(c as u32)[0] == c as u8);
            assert(bytes[byte_offset(format, k - 1) + 0] == encode_scalar(c as u32)[0]);
            assert(bytes[at - 1] == INTRODUCER as u8);
        }
    }
    k
}

/// The placeholders that the parser finds in the bytes of a text are those
/// that stand in its characters: a placeholder begins at a byte exactly where
/// it is the first byte of a character at which a placeholder begins.
pub proof fn lemma_bytes_as_characters(format: Seq<char>)
    ensures
        forall|k: int| #[trigger]
            fires_in_text(format, k) ==> fires(encode_utf8(format), byte_offset(format, k)),
        forall|at: int| #[trigger]
            fires(encode_utf8(format), at) ==> exists|k: int| #[trigger]
                fires_in_text(format, k) && byte_offset(format, k) == at,
{
    assert forall|k: int| #[trigger] fires_in_text(format, k) implies fires(
        encode_utf8(format),
        byte_offset(format, k),
    ) by {
        lemma_char_fires_as_byte(format, k);
    }
    assert forall|at: int| #[trigger] fires(encode_utf8(format), at) implies exists|k: int| #[trigger]
        fires_in_text(format, k) && byte_offset(format, k) == at by {
        let k = lemma_byte_fires_as_char(format, at);
    }
}

} // verus!
