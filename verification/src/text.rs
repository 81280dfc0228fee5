//! ASCII text as bytes: fields, decimal numbers and surrounding white space.

use crate::hex::{digit, digit_text};
use vstd::prelude::*;
use vstd::slice::slice_subrange;
use vstd::string::StringSliceAdditionalSpecFns;

verus! {

/// ASCII bytes as characters.
pub open spec fn ascii(bytes: Seq<u8>) -> Seq<char> {
    bytes.map_values(|byte: u8| byte as char)
}

pub open spec fn all_ascii(bytes: Seq<u8>) -> bool {
    forall|i: int| 0 <= i < bytes.len() ==> #[trigger] bytes[i] < 128
}

/// Text made of ASCII bytes is encoded as those bytes.
pub proof fn lemma_ascii_bytes(bytes: Seq<u8>, text: &str)
    requires
        all_ascii(bytes),
        text@ == ascii(bytes),
    ensures
        text.spec_bytes() == bytes,
        text.is_ascii(),
{
    assert forall|i: int| 0 <= i < text@.len() implies (#[trigger] text@[i] as u32) < 128 by {
        assert(bytes[i] < 128);
    }
    assert(vstd::utf8::is_ascii_chars(text@));
    vstd::utf8::is_ascii_chars_encode_utf8(text@);
    assert(text.spec_bytes() =~= bytes);
}

/// The fields of a text with `separator` between two of them.
pub open spec fn split(text: Seq<u8>, separator: u8) -> Seq<Seq<u8>>
    decreases text.len(),
{
    if text.len() == 0 {
        seq![Seq::empty()]
    } else {
        let head = split(text.drop_last(), separator);
        if text.last() == separator {
            head.push(Seq::empty())
        } else {
            head.drop_last().push(head.last().push(text.last()))
        }
    }
}

/// A text without a separator is one field.
pub proof fn lemma_split_whole(text: Seq<u8>, separator: u8)
    requires
        !text.contains(separator),
    ensures
        split(text, separator) == seq![text],
    decreases text.len(),
{
    if text.len() == 0 {
        assert(text =~= Seq::empty());
    } else {
        assert forall|i: int| 0 <= i < text.drop_last().len() implies text.drop_last()[i]
            != separator by {
            assert(text[i] == text.drop_last()[i]);
        }
        lemma_split_whole(text.drop_last(), separator);
        assert(text[text.len() - 1] != separator);
        assert(text.drop_last().push(text.last()) =~= text);
        assert(split(text, separator) =~= seq![text]);
    }
}

/// A separator and a text without one add one field.
pub proof fn lemma_split_last(head: Seq<u8>, tail: Seq<u8>, separator: u8)
    requires
        !tail.contains(separator),
    ensures
        split(head.push(separator) + tail, separator) == split(head, separator).push(tail),
    decreases tail.len(),
{
    let text = head.push(separator) + tail;
    if tail.len() == 0 {
        assert(tail =~= Seq::empty());
        assert(text =~= head.push(separator));
        assert(text.drop_last() =~= head);
    } else {
        assert forall|i: int| 0 <= i < tail.drop_last().len() implies tail.drop_last()[i]
            != separator by {
            assert(tail[i] == tail.drop_last()[i]);
        }
        lemma_split_last(head, tail.drop_last(), separator);
        assert(tail[tail.len() - 1] != separator);
        assert(text.drop_last() =~= head.push(separator) + tail.drop_last());
        let earlier = split(head, separator).push(tail.drop_last());
        assert(tail.drop_last().push(tail.last()) =~= tail);
        assert(earlier.drop_last() =~= split(head, separator));
        assert(split(text, separator) =~= split(head, separator).push(tail));
    }
}

/// The contents of some byte vectors.
pub open spec fn contents(parts: Seq<Vec<u8>>) -> Seq<Seq<u8>> {
    parts.map_values(|part: Vec<u8>| part@)
}

/// The fields of a text with `separator` between two of them.
pub fn fields(text: &[u8], separator: u8) -> (parts: Vec<Vec<u8>>)
    ensures
        contents(parts@) == split(text@, separator),
{
    let mut parts: Vec<Vec<u8>> = Vec::new();
    let mut current: Vec<u8> = Vec::new();
    let mut index: usize = 0;
    assert(text@.take(0) =~= Seq::empty());
    assert(contents(parts@).push(current@) =~= seq![Seq::<u8>::empty()]);
    while index < text.len()
        invariant
            index <= text@.len(),
            contents(parts@).push(current@) == split(text@.take(index as int), separator),
        decreases text@.len() - index,
    {
        let ghost before = contents(parts@).push(current@);
        assert(text@.take(index + 1).drop_last() =~= text@.take(index as int));
        if text[index] == separator {
            parts.push(current);
            current = Vec::new();
            assert(contents(parts@) =~= before);
            assert(contents(parts@).push(current@) =~= before.push(Seq::empty()));
        } else {
            let ghost earlier = contents(parts@);
            current.push(text[index]);
            assert(before.drop_last() =~= earlier);
        }
        index = index + 1;
    }
    assert(text@.take(index as int) =~= text@);
    let ghost before = contents(parts@).push(current@);
    parts.push(current);
    assert(contents(parts@) =~= before);
    parts
}

/// ASCII white space around the text of a code.
pub open spec fn is_space(byte: u8) -> bool {
    0x09 <= byte <= 0x0d || byte == 0x20
}

pub open spec fn trim_start(text: Seq<u8>) -> Seq<u8>
    decreases text.len(),
{
    if text.len() > 0 && is_space(text[0]) {
        trim_start(text.drop_first())
    } else {
        text
    }
}

pub open spec fn trim_end(text: Seq<u8>) -> Seq<u8>
    decreases text.len(),
{
    if text.len() > 0 && is_space(text.last()) {
        trim_end(text.drop_last())
    } else {
        text
    }
}

/// The text without the white space around it.
pub open spec fn trim(text: Seq<u8>) -> Seq<u8> {
    trim_end(trim_start(text))
}

/// The text without the white space around it.
pub fn trimmed(text: &[u8]) -> (part: &[u8])
    ensures
        part@ == trim(text@),
{
    let length: usize = text.len();
    let mut start: usize = 0;
    assert(text@.skip(0) =~= text@);
    while start < length && (0x09 <= text[start] && text[start] <= 0x0d || text[start] == 0x20)
        invariant
            start <= length == text@.len(),
            trim_start(text@) == trim_start(text@.skip(start as int)),
        decreases length - start,
    {
        assert(text@.skip(start as int).drop_first() =~= text@.skip(start + 1));
        start = start + 1;
    }
    let mut end: usize = length;
    assert(text@.subrange(start as int, end as int) =~= text@.skip(start as int));
    while end > start && (0x09 <= text[end - 1] && text[end - 1] <= 0x0d || text[end - 1] == 0x20)
        invariant
            start <= end <= length == text@.len(),
            trim(text@) == trim_end(text@.subrange(start as int, end as int)),
        decreases end,
    {
        assert(text@.subrange(start as int, end as int).drop_last() =~= text@.subrange(
            start as int,
            end - 1,
        ));
        end = end - 1;
    }
    slice_subrange(text, start, end)
}

/// The decimal digits of a number.
pub open spec fn decimal(value: nat) -> Seq<u8>
    decreases value,
{
    if value < 10 {
        seq![(0x30 + value) as u8]
    } else {
        decimal(value / 10).push((0x30 + value % 10) as u8)
    }
}

pub open spec fn is_digits(text: Seq<u8>) -> bool {
    forall|i: int| 0 <= i < text.len() ==> 0x30 <= #[trigger] text[i] <= 0x39
}

/// The number that decimal digits stand for.
pub open spec fn digits_value(text: Seq<u8>) -> nat
    decreases text.len(),
{
    if text.len() == 0 {
        0
    } else {
        (digits_value(text.drop_last()) * 10 + (text.last() - 0x30)) as nat
    }
}

/// Writing a number and reading it back gives the same number.
pub proof fn lemma_decimal(value: nat)
    ensures
        decimal(value).len() > 0,
        is_digits(decimal(value)),
        digits_value(decimal(value)) == value,
        value > 0 ==> decimal(value)[0] != 0x30,
        value < 10 ==> decimal(value).len() == 1,
        value < 100 ==> decimal(value).len() <= 2,
        value < 1000 ==> decimal(value).len() <= 3,
        value < 1_0000 ==> decimal(value).len() <= 4,
        value < 10_0000 ==> decimal(value).len() <= 5,
    decreases value,
{
    if value < 10 {
        assert(decimal(value).drop_last() =~= Seq::empty());
        assert(digits_value(Seq::empty()) == 0);
    } else {
        lemma_decimal(value / 10);
        let head = decimal(value / 10);
        assert(decimal(value).drop_last() =~= head);
        assert(decimal(value)[0] == head[0]);
    }
}

/// Appends the decimal digits of a number.
pub fn push_decimal(text: &mut String, value: u64)
    ensures
        final(text)@ == old(text)@ + ascii(decimal(value as nat)),
    decreases value,
{
    if value >= 10 {
        push_decimal(text, value / 10);
    }
    text.append(digit_text((value % 10) as u8));
    proof {
        assert(ascii(decimal(value as nat)).last() == digit(value as int % 10));
        if value >= 10 {
            assert(ascii(decimal(value as nat)) =~= ascii(decimal((value / 10) as nat)).push(
                digit(value as int % 10),
            ));
        }
        assert(text@ =~= old(text)@ + ascii(decimal(value as nat)));
    }
}

/// The number that decimal digits stand for, where there is one up to `limit`.
pub open spec fn bounded_value(text: Seq<u8>, limit: nat) -> Option<nat> {
    if text.len() > 0 && is_digits(text) && digits_value(text) <= limit {
        Some(digits_value(text))
    } else {
        None
    }
}

/// The number that decimal digits stand for, where there is one up to `limit`.
pub fn read_decimal(text: &[u8], limit: u16) -> (value: Option<u16>)
    ensures
        match value {
            Some(number) => bounded_value(text@, limit as nat) == Some(number as nat),
            None => bounded_value(text@, limit as nat) is None,
        },
{
    if text.is_empty() {
        return None;
    }
    let length: usize = text.len();
    let mut value: u32 = 0;
    let mut index: usize = 0;
    assert(text@.take(0) =~= Seq::empty());
    while index < length
        invariant
            index <= length == text@.len(),
            value <= 0x1_0000,
            is_digits(text@.take(index as int)),
            digits_value(text@.take(index as int)) <= 0xffff ==> value == digits_value(
                text@.take(index as int),
            ),
            digits_value(text@.take(index as int)) > 0xffff ==> value == 0x1_0000,
        decreases length - index,
    {
        let byte: u8 = text[index];
        if byte < 0x30 || byte > 0x39 {
            assert(!is_digits(text@));
            return None;
        }
        proof {
            assert(text@.take(index + 1).drop_last() =~= text@.take(index as int));
            assert(text@.take(index + 1).last() == byte);
        }
        let next: u32 = value * 10 + (byte - 0x30) as u32;
        value = if next > 0xffff {
            0x1_0000
        } else {
            next
        };
        index = index + 1;
        assert(is_digits(text@.take(index as int))) by {
            assert forall|i: int| 0 <= i < index implies 0x30 <= #[trigger] text@.take(
                index as int,
            )[i] <= 0x39 by {
                if i < index - 1 {
                    assert(text@.take(index - 1)[i] == text@[i]);
                }
            }
        }
    }
    assert(text@.take(index as int) =~= text@);
    if value > limit as u32 {
        None
    } else {
        Some(value as u16)
    }
}

/// The parts put together again, with the separator between them.
pub open spec fn joined(parts: Seq<Seq<u8>>, separator: u8) -> Seq<u8>
    decreases parts.len(),
{
    if parts.len() == 0 {
        Seq::empty()
    } else if parts.len() == 1 {
        parts[0]
    } else {
        joined(parts.drop_last(), separator).push(separator) + parts.last()
    }
}

/// The parts of a text are what stands between its separators: put together again they are the text,
/// and none of them holds a separator.
pub proof fn law_parts_make_up_the_text(text: Seq<u8>, separator: u8)
    ensures
        split(text, separator).len() > 0,
        joined(split(text, separator), separator) == text,
        forall|i: int|
            0 <= i < split(text, separator).len() ==> !(#[trigger] split(
                text,
                separator,
            )[i]).contains(separator),
    decreases text.len(),
{
    if text.len() == 0 {
        assert(joined(seq![Seq::<u8>::empty()], separator) =~= text);
    } else {
        let head = split(text.drop_last(), separator);
        let parts = split(text, separator);
        law_parts_make_up_the_text(text.drop_last(), separator);
        if text.last() == separator {
            assert(parts.drop_last() =~= head);
            assert(joined(parts, separator) =~= text);
        } else {
            let longer = head.last().push(text.last());
            assert(parts.drop_last() =~= head.drop_last());
            assert(joined(parts, separator) =~= joined(head, separator).push(text.last()));
            assert(joined(parts, separator) =~= text);
            assert forall|i: int| 0 <= i < parts.len() implies !(#[trigger] parts[i]).contains(
                separator,
            ) by {
                if i < parts.len() - 1 {
                    assert(parts[i] == head[i]);
                } else {
                    assert(parts[i] == longer);
                    assert(!head[head.len() - 1].contains(separator));
                    assert(forall|j: int|
                        0 <= j < head.last().len() ==> longer[j] == head.last()[j]);
                    if longer.contains(separator) {
                        let j = choose|j: int| 0 <= j < longer.len() && longer[j] == separator;
                        assert(j < head.last().len());
                        assert(head.last()[j] == separator);
                    }
                }
            }
        }
    }
}

/// A trimmed text is the text without the spaces at its two ends, and all the rest of it: what was cut
/// off is space, and what is left neither begins nor ends with one.
pub proof fn law_trimming_cuts_spaces_off_the_ends(text: Seq<u8>) -> (cut: (int, int))
    ensures
        0 <= cut.0 <= cut.1 <= text.len(),
        trim(text) == text.subrange(cut.0, cut.1),
        forall|i: int| 0 <= i < cut.0 ==> is_space(#[trigger] text[i]),
        forall|i: int| cut.1 <= i < text.len() ==> is_space(#[trigger] text[i]),
        trim(text).len() > 0 ==> !is_space(trim(text)[0]) && !is_space(trim(text).last()),
{
    let from = lemma_trim_start(text);
    let rest = trim_start(text);
    let until = lemma_trim_end(rest);
    assert(text.subrange(from, text.len() as int).subrange(0, until) =~= text.subrange(
        from,
        from + until,
    ));
    assert forall|i: int| from + until <= i < text.len() implies is_space(#[trigger] text[i]) by {
        assert(rest[i - from] == text[i]);
    }
    (from, from + until)
}

proof fn lemma_trim_start(text: Seq<u8>) -> (from: int)
    ensures
        0 <= from <= text.len(),
        trim_start(text) == text.subrange(from, text.len() as int),
        forall|i: int| 0 <= i < from ==> is_space(#[trigger] text[i]),
        trim_start(text).len() > 0 ==> !is_space(trim_start(text)[0]),
    decreases text.len(),
{
    if text.len() > 0 && is_space(text[0]) {
        let rest = text.drop_first();
        let from = lemma_trim_start(rest);
        assert(rest.subrange(from, rest.len() as int) =~= text.subrange(
            from + 1,
            text.len() as int,
        ));
        assert forall|i: int| 0 <= i < from + 1 implies is_space(#[trigger] text[i]) by {
            if i > 0 {
                assert(rest[i - 1] == text[i]);
            }
        }
        from + 1
    } else {
        assert(text.subrange(0, text.len() as int) =~= text);
        0
    }
}

proof fn lemma_trim_end(text: Seq<u8>) -> (until: int)
    ensures
        0 <= until <= text.len(),
        trim_end(text) == text.subrange(0, until),
        forall|i: int| until <= i < text.len() ==> is_space(#[trigger] text[i]),
        trim_end(text).len() > 0 ==> !is_space(trim_end(text).last()),
        trim_end(text).len() > 0 ==> trim_end(text)[0] == text[0],
    decreases text.len(),
{
    if text.len() > 0 && is_space(text.last()) {
        let rest = text.drop_last();
        let until = lemma_trim_end(rest);
        assert(rest.subrange(0, until) =~= text.subrange(0, until));
        assert forall|i: int| until <= i < text.len() implies is_space(#[trigger] text[i]) by {
            if i < text.len() - 1 {
                assert(rest[i] == text[i]);
            }
        }
        until
    } else {
        assert(text.subrange(0, text.len() as int) =~= text);
        text.len() as int
    }
}

/// The spaces are the blank, the tabs and the breaks of a line or a page.
pub proof fn law_which_bytes_are_space(byte: u8)
    ensures
        is_space(byte) <==> byte == 0x20 || byte == 0x09 || byte == 0x0a || byte == 0x0b || byte
            == 0x0c || byte == 0x0d,
{
}

/// A number is read exactly where there are digits, nothing but digits, and no more than the limit.
pub proof fn law_which_numbers_are_read(text: Seq<u8>, limit: nat)
    ensures
        bounded_value(text, limit) is Some <==> text.len() > 0 && is_digits(text) && digits_value(
            text,
        ) <= limit,
        bounded_value(text, limit) is Some ==> bounded_value(text, limit)->0 == digits_value(text),
{
}

} // verus!
