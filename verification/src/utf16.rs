//! UTF-16 text as the operating system hands it over: encoding, lossy
//! decoding, null-terminated buffers and the fixed-size tooltip buffer.

use vstd::prelude::*;

verus! {

/// `char::from_u32` turns a Unicode scalar value into its character. Every
/// number outside the scalar values (above `0x10FFFF`, or a surrogate) gives
/// `None`.
pub assume_specification[ char::from_u32 ](code: u32) -> (ch: Option<char>)
    ensures
        ch == if is_scalar(code as int) {
            Some(code as char)
        } else {
            None
        },
;

/// The Unicode scalar values.
pub open spec fn is_scalar(code: int) -> bool {
    0 <= code < 0xD800 || 0xE000 <= code < 0x11_0000
}

/// A code unit that opens a surrogate pair.
pub open spec fn is_high_surrogate(unit: u16) -> bool {
    0xD800 <= unit < 0xDC00
}

/// A code unit that closes a surrogate pair.
pub open spec fn is_low_surrogate(unit: u16) -> bool {
    0xDC00 <= unit < 0xE000
}

/// The one or two code units of a character.
pub open spec fn char_units(ch: char) -> Seq<u16> {
    let code = ch as int;
    if code < 0x1_0000 {
        seq![code as u16]
    } else {
        seq![
            (0xD800 + (code - 0x1_0000) / 0x400) as u16,
            (0xDC00 + (code - 0x1_0000) % 0x400) as u16,
        ]
    }
}

/// The code units of a text, character by character.
pub open spec fn encoded(text: Seq<char>) -> Seq<u16>
    decreases text.len(),
{
    if text.len() == 0 {
        Seq::empty()
    } else {
        encoded(text.drop_last()) + char_units(text.last())
    }
}

/// The character of a surrogate pair.
pub open spec fn paired(high: u16, low: u16) -> char {
    (0x1_0000 + (high - 0xD800) * 0x400 + (low - 0xDC00)) as char
}

/// The text of a run of code units, in which each surrogate without its
/// partner counts as U+FFFD.
pub open spec fn decoded(units: Seq<u16>) -> Seq<char>
    decreases units.len(),
{
    if units.len() == 0 {
        Seq::empty()
    } else if units.len() >= 2 && is_high_surrogate(units[0]) && is_low_surrogate(units[1]) {
        seq![paired(units[0], units[1])] + decoded(units.skip(2))
    } else if is_high_surrogate(units[0]) || is_low_surrogate(units[0]) {
        seq!['\u{FFFD}'] + decoded(units.skip(1))
    } else {
        seq![units[0] as char] + decoded(units.skip(1))
    }
}

/// The units before the first zero, or all of them.
pub open spec fn until_null(units: Seq<u16>) -> Seq<u16>
    decreases units.len(),
{
    if units.len() == 0 || units[0] == 0 {
        Seq::empty()
    } else {
        seq![units[0]] + until_null(units.skip(1))
    }
}

/// Appends the code units of one character.
fn push_char(units: &mut Vec<u16>, ch: char)
    ensures
        final(units)@ == old(units)@ + char_units(ch),
{
    let code: u32 = ch as u32;
    if code < 0x1_0000 {
        units.push(code as u16);
    } else {
        let offset: u32 = code - 0x1_0000;
        units.push((0xD800 + offset / 0x400) as u16);
        units.push((0xDC00 + offset % 0x400) as u16);
    }
}

/// Encodes a text as UTF-16.
pub fn encode(text: &str) -> (units: Vec<u16>)
    ensures
        units@ == encoded(text@),
{
    let mut units: Vec<u16> = Vec::new();
    for ch in it: text.chars()
        invariant
            it.seq() == text@,
            units@ == encoded(text@.take(it.index() as int)),
    {
        push_char(&mut units, ch);
        proof {
            let longer = text@.take(it.index() + 1);
            assert(longer.drop_last() == text@.take(it.index() as int));
            assert(longer.last() == ch);
        }
    }
    assert(text@.take(text@.len() as int) == text@);
    units
}

/// Encodes a text as UTF-16 and appends the terminating zero.
pub fn wide_null(text: &str) -> (units: Vec<u16>)
    ensures
        units@ == encoded(text@).push(0),
{
    let mut units = encode(text);
    units.push(0);
    units
}

/// Decodes UTF-16, putting U+FFFD in place of each unpaired surrogate.
pub fn decode(units: &[u16]) -> (text: String)
    ensures
        text@ == decoded(units@),
{
    let mut text = String::new();
    let mut at: usize = 0;
    assert(units@.skip(0) == units@);
    while at < units.len()
        invariant
            at <= units@.len(),
            decoded(units@) == text@ + decoded(units@.skip(at as int)),
        decreases units@.len() - at,
    {
        let unit: u16 = units[at];
        let ghost rest = units@.skip(at as int);
        let ghost before = text@;
        if unit < 0xD800 || unit >= 0xE000 {
            match char::from_u32(unit as u32) {
                Some(ch) => text.push(ch),
                None => {},
            }
            at = at + 1;
            assert(rest.skip(1) == units@.skip(at as int));
        } else if unit < 0xDC00 && units.len() - at >= 2 && units[at + 1] >= 0xDC00 && units[at + 1]
            < 0xE000 {
            let high: u32 = unit as u32 - 0xD800;
            let low: u32 = units[at + 1] as u32 - 0xDC00;
            match char::from_u32(0x1_0000 + high * 0x400 + low) {
                Some(ch) => text.push(ch),
                None => {},
            }
            at = at + 2;
            assert(rest.skip(2) == units@.skip(at as int));
        } else {
            text.push('\u{FFFD}');
            at = at + 1;
            assert(rest.skip(1) == units@.skip(at as int));
        }
        assert(decoded(rest) == seq![text@.last()] + decoded(units@.skip(at as int)));
        assert(text@ == before.push(text@.last()));
    }
    text
}

/// Decodes a null-terminated buffer; without a zero the whole buffer counts.
pub fn string_from_wide_slice(buffer: &[u16]) -> (text: String)
    ensures
        text@ == decoded(until_null(buffer@)),
{
    let mut len: usize = 0;
    assert(buffer@.skip(0) == buffer@);
    while len < buffer.len() && buffer[len] != 0
        invariant
            len <= buffer@.len(),
            until_null(buffer@) == buffer@.take(len as int) + until_null(buffer@.skip(len as int)),
        decreases buffer@.len() - len,
    {
        let ghost rest = buffer@.skip(len as int);
        assert(rest.skip(1) == buffer@.skip(len + 1));
        assert(buffer@.take(len + 1) == buffer@.take(len as int).push(buffer@[len as int]));
        len = len + 1;
    }
    assert(until_null(buffer@) == buffer@.take(len as int));
    decode(vstd::slice::slice_subrange(buffer, 0, len))
}

/// The code units that a copying call left at the front of `buffer`. A count
/// of zero or less stands for none.
pub open spec fn copied_units(buffer: Seq<u16>, copied: int) -> Seq<u16> {
    if copied <= 0 {
        Seq::empty()
    } else {
        buffer.take(copied)
    }
}

/// Decodes the part of `buffer` that a copying call reports as filled.
pub fn text_from_buffer(buffer: &[u16], copied: i32) -> (text: String)
    requires
        copied <= buffer@.len(),
    ensures
        text@ == decoded(copied_units(buffer@, copied as int)),
{
    let filled: usize = if copied <= 0 {
        0
    } else {
        copied as usize
    };
    assert(copied_units(buffer@, copied as int) == buffer@.subrange(0, filled as int));
    decode(vstd::slice::slice_subrange(buffer, 0, filled))
}

/// What a tooltip buffer of `size` units holds: the text with zeros behind it,
/// or, where the text leaves no room for a terminating zero, as much of it as
/// fits in front of three dots and that zero.
pub open spec fn tip(text: Seq<char>, size: int) -> Seq<u16> {
    let units = encoded(text);
    let dot = '.' as u16;
    if units.len() < size {
        units + Seq::new((size - units.len()) as nat, |i: int| 0u16)
    } else {
        units.take(size - 4) + seq![dot, dot, dot, 0u16]
    }
}

/// Fills a tooltip buffer of `size` units.
pub fn write_tip(text: &str, size: usize) -> (buffer: Vec<u16>)
    requires
        size >= 4,
    ensures
        buffer@ == tip(text@, size as int),
{
    let mut buffer = encode(text);
    let ghost units = buffer@;
    if buffer.len() >= size {
        buffer.truncate(size - 4);
        buffer.push('.' as u16);
        buffer.push('.' as u16);
        buffer.push('.' as u16);
    }
    let ghost shown = buffer@;
    while buffer.len() < size
        invariant
            shown.len() < size,
            shown.len() <= buffer@.len() <= size,
            buffer@ == shown + Seq::new((buffer@.len() - shown.len()) as nat, |i: int| 0u16),
        decreases size - buffer@.len(),
    {
        buffer.push(0);
    }
    assert(buffer@ == tip(text@, size as int));
    buffer
}

/// Decoding one encoded character gives it back, whatever follows it.
proof fn lemma_decode_char(ch: char, rest: Seq<u16>)
    ensures
        decoded(char_units(ch) + rest) == seq![ch] + decoded(rest),
{
    let units = char_units(ch) + rest;
    let code = ch as int;
    if code < 0x1_0000 {
        assert(units.skip(1) == rest);
        assert(units[0] as char == ch);
    } else {
        assert(units.skip(2) == rest);
        let offset = code - 0x1_0000;
        assert(0 <= offset < 0x10_0000);
        assert(offset / 0x400 < 0x400);
        assert(paired(units[0], units[1]) as int == code);
    }
}

/// Decoding an encoded text gives it back, whatever follows it.
proof fn lemma_decode_prefix(text: Seq<char>, rest: Seq<u16>)
    ensures
        decoded(encoded(text) + rest) == text + decoded(rest),
    decreases text.len(),
{
    if text.len() == 0 {
        assert(encoded(text) + rest == rest);
        assert(text + decoded(rest) == decoded(rest));
    } else {
        let front = text.drop_last();
        let tail = char_units(text.last()) + rest;
        assert(encoded(text) + rest == encoded(front) + tail);
        lemma_decode_prefix(front, tail);
        lemma_decode_char(text.last(), rest);
        assert(front + (seq![text.last()] + decoded(rest)) == text + decoded(rest));
    }
}

/// Encoding keeps a text whole: decoding its code units gives it back.
pub proof fn decoding_undoes_encoding(text: Seq<char>)
    ensures
        decoded(encoded(text)) == text,
{
    lemma_decode_prefix(text, Seq::empty());
    assert(encoded(text) + Seq::<u16>::empty() == encoded(text));
    assert(decoded(Seq::<u16>::empty()) == Seq::<char>::empty());
    assert(text + Seq::<char>::empty() == text);
}

/// Encoding is compatible with putting texts one behind the other.
pub proof fn encoding_joins(front: Seq<char>, back: Seq<char>)
    ensures
        encoded(front + back) == encoded(front) + encoded(back),
    decreases back.len(),
{
    if back.len() == 0 {
        assert(front + back == front);
    } else {
        encoding_joins(front, back.drop_last());
        assert((front + back).drop_last() == front + back.drop_last());
        assert((front + back).last() == back.last());
    }
}

/// No unit of a character is zero, but for the null character.
proof fn lemma_no_zero_in_char(ch: char)
    requires
        ch != '\0',
    ensures
        forall|i: int| 0 <= i < char_units(ch).len() ==> char_units(ch)[i] != 0,
{
}

/// Without a null character in the text there is no zero among its units.
proof fn lemma_no_zero_unit(text: Seq<char>)
    requires
        !text.contains('\0'),
    ensures
        forall|i: int| 0 <= i < encoded(text).len() ==> encoded(text)[i] != 0,
    decreases text.len(),
{
    if text.len() > 0 {
        assert forall|ch: char| text.drop_last().contains(ch) implies text.contains(ch) by {
            let i = choose|i: int| 0 <= i < text.drop_last().len() && text.drop_last()[i] == ch;
            assert(text[i] == ch);
        }
        lemma_no_zero_unit(text.drop_last());
        assert(text.contains(text.last()));
        lemma_no_zero_in_char(text.last());
        let front = encoded(text.drop_last());
        let units = char_units(text.last());
        assert forall|i: int| 0 <= i < encoded(text).len() implies encoded(text)[i] != 0 by {
            if i >= front.len() {
                assert(encoded(text)[i] == units[i - front.len()]);
            } else {
                assert(encoded(text)[i] == front[i]);
            }
        }
    }
}

/// Zero-free units in front of a zero, or at the end, are all kept.
proof fn lemma_until_null(front: Seq<u16>, rest: Seq<u16>)
    requires
        forall|i: int| 0 <= i < front.len() ==> front[i] != 0,
        rest.len() == 0 || rest[0] == 0,
    ensures
        until_null(front + rest) == front,
    decreases front.len(),
{
    if front.len() > 0 {
        let shorter = front.skip(1);
        assert((front + rest).skip(1) == shorter + rest);
        lemma_until_null(shorter, rest);
        assert(seq![front[0]] + shorter == front);
    } else {
        assert(front + rest == rest);
    }
}

/// A null-terminated buffer gives back the text that was put into it, up to
/// the first null character of that text, whatever stands behind the
/// terminating zero.
pub proof fn wide_null_round_trip(head: Seq<char>, tail: Seq<char>, behind: Seq<u16>)
    requires
        !head.contains('\0'),
        tail.len() == 0 || tail[0] == '\0',
    ensures
        decoded(until_null(encoded(head + tail).push(0) + behind)) == head,
{
    encoding_joins(head, tail);
    lemma_no_zero_unit(head);
    let rest = encoded(tail).push(0) + behind;
    assert(encoded(head + tail).push(0) + behind == encoded(head) + rest);
    if tail.len() > 0 {
        lemma_first_unit(tail);
    } else {
        assert(encoded(tail).len() == 0);
    }
    lemma_until_null(encoded(head), rest);
    decoding_undoes_encoding(head);
}

/// The units of a text start with those of its first character.
proof fn lemma_first_unit(text: Seq<char>)
    requires
        text.len() > 0,
    ensures
        encoded(text).len() > 0,
        encoded(text)[0] == char_units(text[0])[0],
{
    encoding_joins(text.take(1), text.skip(1));
    assert(text.take(1) + text.skip(1) == text);
    let first = text.take(1);
    assert(first.drop_last() == Seq::<char>::empty());
    assert(encoded(first.drop_last()).len() == 0);
    assert(encoded(first) == char_units(text[0]));
}

/// A tooltip buffer always has its full size and ends in a zero, and decoding
/// it gives the text back wherever that text fits.
pub proof fn tip_is_terminated(text: Seq<char>, size: int)
    requires
        size >= 4,
    ensures
        tip(text, size).len() == size,
        tip(text, size)[size - 1] == 0,
        encoded(text).len() < size && !text.contains('\0') ==> decoded(
            until_null(tip(text, size)),
        ) == text,
{
    if encoded(text).len() < size && !text.contains('\0') {
        let rest = Seq::new((size - encoded(text).len()) as nat, |i: int| 0u16);
        lemma_no_zero_unit(text);
        lemma_until_null(encoded(text), rest);
        decoding_undoes_encoding(text);
    }
}

} // verus!
