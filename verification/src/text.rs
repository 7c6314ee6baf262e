//! Text routines: name normalisation, blank text, numbers in writing and the
//! joining of lines.

use vstd::prelude::*;

verus! {

/// `String::push` appends one character to the end of a string.
pub assume_specification[ String::push ](text: &mut String, ch: char)
    ensures
        final(text)@ == old(text)@.push(ch),
;

/// The lower-case form of an ASCII letter; any other character is kept.
pub open spec fn ascii_lower(ch: char) -> char {
    if 'A' <= ch <= 'Z' {
        (ch as u32 + 32) as char
    } else {
        ch
    }
}

/// A name in the form in which names are compared.
pub open spec fn normalized(text: Seq<char>) -> Seq<char> {
    text.map_values(|ch: char| ascii_lower(ch))
}

/// The characters that Unicode gives the property White_Space.
pub open spec fn is_white_space(ch: char) -> bool {
    let code = ch as int;
    ||| 0x9 <= code <= 0xD
    ||| code == 0x20
    ||| code == 0x85
    ||| code == 0xA0
    ||| code == 0x1680
    ||| 0x2000 <= code <= 0x200A
    ||| code == 0x2028
    ||| code == 0x2029
    ||| code == 0x202F
    ||| code == 0x205F
    ||| code == 0x3000
}

/// Nothing but white space.
pub open spec fn blank(text: Seq<char>) -> bool {
    forall|i: int| 0 <= i < text.len() ==> is_white_space(#[trigger] text[i])
}

/// The title that is shown for a window.
pub open spec fn shown_title(title: Seq<char>) -> Seq<char> {
    if blank(title) {
        "(untitled)"@
    } else {
        title
    }
}

/// A digit below sixteen in writing.
pub open spec fn digit(value: int) -> char {
    if value < 10 {
        (48 + value) as char
    } else {
        (55 + value) as char
    }
}

/// A number in writing, in the given base.
pub open spec fn numeral(value: nat, base: nat) -> Seq<char>
    decreases value,
{
    if base < 2 || value < base {
        seq![digit(value as int)]
    } else {
        proof {
            assert(value / base < value) by (nonlinear_arith)
                requires
                    base >= 2,
                    value >= base,
            ;
        }
        numeral(value / base, base).push(digit((value % base) as int))
    }
}

/// An integer in decimal writing.
pub open spec fn decimal(value: int) -> Seq<char> {
    if value < 0 {
        seq!['-'] + numeral((-value) as nat, 10)
    } else {
        numeral(value as nat, 10)
    }
}

/// A text with zeros in front of it, up to the given width.
pub open spec fn zero_padded(text: Seq<char>, width: int) -> Seq<char> {
    if text.len() < width {
        Seq::new((width - text.len()) as nat, |i: int| '0') + text
    } else {
        text
    }
}

/// A truth value in writing.
pub open spec fn truth(value: bool) -> Seq<char> {
    if value {
        "true"@
    } else {
        "false"@
    }
}

/// The contents of a list of strings.
pub open spec fn texts(list: Seq<String>) -> Seq<Seq<char>> {
    list.map_values(|text: String| text@)
}

/// Lines put one behind the other, with a line break between any two.
pub open spec fn joined(lines: Seq<Seq<char>>) -> Seq<char>
    decreases lines.len(),
{
    if lines.len() == 0 {
        Seq::empty()
    } else if lines.len() == 1 {
        lines[0]
    } else {
        joined(lines.drop_last()) + "\r\n"@ + lines.last()
    }
}

/// Brings a name into the form in which names are compared.
pub fn normalize_name(text: &str) -> (name: String)
    ensures
        name@ == normalized(text@),
{
    let mut name = String::new();
    for ch in it: text.chars()
        invariant
            it.seq() == text@,
            name@ == normalized(text@.take(it.index() as int)),
    {
        let lower = if 'A' <= ch && ch <= 'Z' {
            (ch as u8 + 32) as char
        } else {
            ch
        };
        name.push(lower);
        assert(text@.take(it.index() + 1) == text@.take(it.index() as int).push(ch));
    }
    assert(text@.take(text@.len() as int) == text@);
    name
}

/// Tests for white space.
pub fn is_space(ch: char) -> (space: bool)
    ensures
        space == is_white_space(ch),
{
    let code: u32 = ch as u32;
    (0x9 <= code && code <= 0xD) || code == 0x20 || code == 0x85 || code == 0xA0 || code == 0x1680
        || (0x2000 <= code && code <= 0x200A) || code == 0x2028 || code == 0x2029 || code == 0x202F
        || code == 0x205F || code == 0x3000
}

/// Tests for a text of nothing but white space.
pub fn is_blank(text: &str) -> (result: bool)
    ensures
        result == blank(text@),
{
    for ch in it: text.chars()
        invariant
            it.seq() == text@,
            forall|i: int| 0 <= i < it.index() ==> is_white_space(#[trigger] text@[i]),
    {
        if !is_space(ch) {
            assert(text@[it.index() as int] == ch);
            return false;
        }
    }
    true
}

/// Puts a placeholder where a window has no title to show.
pub fn window_title_or_placeholder(title: String) -> (shown: String)
    ensures
        shown@ == shown_title(title@),
{
    if is_blank(title.as_str()) {
        "(untitled)".to_string()
    } else {
        title
    }
}

/// Writes a number in the given base.
fn write_numeral(value: u64, base: u64) -> (text: String)
    requires
        2 <= base <= 16,
    ensures
        text@ == numeral(value as nat, base as nat),
    decreases value,
{
    let last: u8 = (value % base) as u8;
    let ch = if last < 10 {
        (48 + last) as char
    } else {
        (55 + last) as char
    };
    proof {
        assert(value < base ==> value % base == value) by (nonlinear_arith)
            requires
                base >= 2,
        ;
        assert(value >= base ==> value / base < value) by (nonlinear_arith)
            requires
                base >= 2,
        ;
    }
    let mut text = if value < base {
        String::new()
    } else {
        write_numeral(value / base, base)
    };
    text.push(ch);
    assert(value < base ==> text@ == seq![digit(value as int)]);
    text
}

/// Writes a number in decimal.
pub fn write_unsigned(value: u64) -> (text: String)
    ensures
        text@ == decimal(value as int),
{
    write_numeral(value, 10)
}

/// Writes an integer in decimal.
pub fn write_signed(value: i64) -> (text: String)
    ensures
        text@ == decimal(value as int),
{
    if value < 0 {
        let mut text = String::new();
        text.push('-');
        let size: u64 = (-(value + 1)) as u64 + 1;
        text.append(write_numeral(size, 10).as_str());
        assert(text@ == decimal(value as int));
        text
    } else {
        write_numeral(value as u64, 10)
    }
}

/// Writes a number in hexadecimal with at least `width` digits.
pub fn write_hex(value: u32, width: usize) -> (text: String)
    ensures
        text@ == zero_padded(numeral(value as nat, 16), width as int),
{
    pad_with_zeros(write_numeral(value as u64, 16), width)
}

/// Puts zeros in front of a text, up to the given width.
pub fn pad_with_zeros(text: String, width: usize) -> (padded: String)
    ensures
        padded@ == zero_padded(text@, width as int),
{
    let len: usize = text.as_str().unicode_len();
    if len >= width {
        return text;
    }
    let mut padded = String::new();
    let mut missing: usize = width - len;
    while missing > 0
        invariant
            len == text@.len(),
            len < width,
            missing <= width - len,
            padded@ == Seq::new((width - len - missing) as nat, |i: int| '0'),
        decreases missing,
    {
        padded.push('0');
        missing = missing - 1;
    }
    padded.append(text.as_str());
    padded
}

/// Writes a truth value.
pub fn write_bool(value: bool) -> (text: String)
    ensures
        text@ == truth(value),
{
    if value {
        "true".to_string()
    } else {
        "false".to_string()
    }
}

/// Tests whether `text` begins with `prefix`.
pub fn starts_with(text: &str, prefix: &str) -> (result: bool)
    ensures
        result == prefix@.is_prefix_of(text@),
{
    let len: usize = prefix.unicode_len();
    if len > text.unicode_len() {
        return false;
    }
    let mut at: usize = 0;
    while at < len
        invariant
            at <= len,
            len == prefix@.len(),
            len <= text@.len(),
            forall|i: int| 0 <= i < at ==> prefix@[i] == text@[i],
        decreases len - at,
    {
        if prefix.get_char(at) != text.get_char(at) {
            return false;
        }
        at = at + 1;
    }
    assert(prefix@ == text@.subrange(0, len as int));
    true
}

/// Joins lines, putting a line break between any two.
pub fn join_lines(lines: &Vec<String>) -> (text: String)
    ensures
        text@ == joined(texts(lines@)),
{
    let mut text = String::new();
    let mut at: usize = 0;
    assert(texts(lines@).take(0).len() == 0);
    while at < lines.len()
        invariant
            at <= lines@.len(),
            text@ == joined(texts(lines@).take(at as int)),
        decreases lines@.len() - at,
    {
        if at > 0 {
            text.append("\r\n");
        }
        text.append(lines[at].as_str());
        proof {
            let longer = texts(lines@).take(at + 1);
            assert(longer.drop_last() == texts(lines@).take(at as int));
            assert(longer.last() == lines@[at as int]@);
            if at == 0 {
                assert(text@ == longer[0]);
            }
        }
        at = at + 1;
    }
    assert(texts(lines@).take(lines@.len() as int) == texts(lines@));
    text
}

/// Normalising a name that is normalised changes nothing.
pub proof fn normalizing_is_idempotent(text: Seq<char>)
    ensures
        normalized(normalized(text)) == normalized(text),
        normalized(text).len() == text.len(),
{
    assert forall|i: int| 0 <= i < text.len() implies ascii_lower(
        ascii_lower(#[trigger] text[i]),
    ) == ascii_lower(text[i]) by {}
    assert(normalized(normalized(text)) =~= normalized(text));
}

} // verus!
