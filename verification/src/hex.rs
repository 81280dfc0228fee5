//! Hexadecimal text for byte sequences.

use vstd::prelude::*;

verus! {

/// The uppercase digit for a value below 16.
pub open spec fn digit(value: int) -> char {
    if value < 10 {
        (value + 0x30) as char
    } else {
        (value - 10 + 0x41) as char
    }
}

/// The value of an ASCII hexadecimal digit in either case.
pub open spec fn digit_value(text: u8) -> Option<u8> {
    if 0x30 <= text <= 0x39 {
        Some((text - 0x30) as u8)
    } else if 0x61 <= text <= 0x66 {
        Some((text - 0x61 + 10) as u8)
    } else if 0x41 <= text <= 0x46 {
        Some((text - 0x41 + 10) as u8)
    } else {
        None
    }
}

/// Two uppercase digits for each byte.
pub open spec fn hex_text(bytes: Seq<u8>) -> Seq<char> {
    Seq::new(
        bytes.len() * 2,
        |i: int|
            if i % 2 == 0 {
                digit(bytes[i / 2] as int / 16)
            } else {
                digit(bytes[i / 2] as int % 16)
            },
    )
}

/// Every byte of `text` is a hexadecimal digit.
pub open spec fn all_digits(text: Seq<u8>) -> bool {
    forall|i: int| 0 <= i < text.len() ==> digit_value(#[trigger] text[i]) is Some
}

/// The byte that the digits at `index` and after it stand for.
pub open spec fn pair_value(text: Seq<u8>, index: int) -> u8 {
    (digit_value(text[index])->0 * 16 + digit_value(text[index + 1])->0) as u8
}

/// The bytes that pairs of digits stand for.
pub open spec fn hex_bytes(text: Seq<u8>) -> Seq<u8> {
    Seq::new(text.len() / 2, |i: int| pair_value(text, i * 2))
}

/// The digits of `hex_text` as bytes.
pub open spec fn hex_ascii(bytes: Seq<u8>) -> Seq<u8> {
    hex_text(bytes).map_values(|c: char| c as u8)
}

/// Writing bytes as digits and reading the digits gives the same bytes.
pub proof fn lemma_hex_round_trip(bytes: Seq<u8>)
    ensures
        hex_ascii(bytes).len() == bytes.len() * 2,
        all_digits(hex_ascii(bytes)),
        hex_bytes(hex_ascii(bytes)) == bytes,
        vstd::utf8::is_ascii_chars(hex_text(bytes)),
        forall|i: int| 0 <= i < hex_text(bytes).len() ==> #[trigger] hex_text(bytes)[i] != ':',
{
    let text = hex_ascii(bytes);
    assert forall|i: int| 0 <= i < text.len() implies digit_value(#[trigger] text[i]) is Some by {
        let value = if i % 2 == 0 {
            bytes[i / 2] as int / 16
        } else {
            bytes[i / 2] as int % 16
        };
        lemma_digit_value(value);
    }
    assert forall|i: int| 0 <= i < bytes.len() implies #[trigger] hex_bytes(text)[i] == bytes[i] by {
        assert((i * 2) / 2 == i && (i * 2 + 1) / 2 == i && (i * 2) % 2 == 0 && (i * 2 + 1) % 2
            == 1);
        lemma_digit_value(bytes[i] as int / 16);
        lemma_digit_value(bytes[i] as int % 16);
    }
    assert(hex_bytes(text) =~= bytes);
}

proof fn lemma_digit_value(value: int)
    requires
        0 <= value < 16,
    ensures
        digit_value(digit(value) as u8) == Some(value as u8),
        0x30 <= digit(value) as u32 <= 0x46,
        digit(value) != ':',
{
}

pub fn hex_nibble(value: u8) -> (nibble: Option<u8>)
    ensures
        nibble == digit_value(value),
        nibble matches Some(half) ==> half < 16,
{
    if 0x30 <= value && value <= 0x39 {
        Some(value - 0x30)
    } else if 0x61 <= value && value <= 0x66 {
        Some(value - 0x61 + 10)
    } else if 0x41 <= value && value <= 0x46 {
        Some(value - 0x41 + 10)
    } else {
        None
    }
}

/// The digit for a value below 16 as text.
pub(crate) fn digit_text(value: u8) -> (text: &'static str)
    requires
        value < 16,
    ensures
        text@ == seq![digit(value as int)],
{
    proof {
        reveal_strlit("0");
        reveal_strlit("1");
        reveal_strlit("2");
        reveal_strlit("3");
        reveal_strlit("4");
        reveal_strlit("5");
        reveal_strlit("6");
        reveal_strlit("7");
        reveal_strlit("8");
        reveal_strlit("9");
        reveal_strlit("A");
        reveal_strlit("B");
        reveal_strlit("C");
        reveal_strlit("D");
        reveal_strlit("E");
        reveal_strlit("F");
    }
    let text = match value {
        0 => "0",
        1 => "1",
        2 => "2",
        3 => "3",
        4 => "4",
        5 => "5",
        6 => "6",
        7 => "7",
        8 => "8",
        9 => "9",
        10 => "A",
        11 => "B",
        12 => "C",
        13 => "D",
        14 => "E",
        _ => "F",
    };
    assert(text@ =~= seq![digit(value as int)]);
    text
}

/// Appends the two digits of `byte`.
pub fn push_byte(text: &mut String, byte: u8)
    ensures
        final(text)@ == old(text)@.push(digit(byte as int / 16)).push(digit(byte as int % 16)),
{
    text.append(digit_text(byte / 16));
    text.append(digit_text(byte % 16));
    assert(text@ =~= old(text)@.push(digit(byte as int / 16)).push(digit(byte as int % 16)));
}

/// Two uppercase digits for each byte.
pub fn hex(bytes: &[u8]) -> (text: String)
    ensures
        text@ == hex_text(bytes@),
{
    let mut text = String::new();
    let mut index: usize = 0;
    assert(text@ =~= hex_text(bytes@.take(0)));
    while index < bytes.len()
        invariant
            index <= bytes@.len(),
            text@ == hex_text(bytes@.take(index as int)),
        decreases bytes@.len() - index,
    {
        push_byte(&mut text, bytes[index]);
        index = index + 1;
        assert(text@ =~= hex_text(bytes@.take(index as int)));
    }
    assert(bytes@.take(bytes@.len() as int) =~= bytes@);
    text
}

/// Reads pairs of digits; absent where any byte is no digit or one is left over.
pub fn decode_pairs(text: &[u8]) -> (bytes: Option<Vec<u8>>)
    ensures
        match bytes {
            Some(values) => text@.len() % 2 == 0 && all_digits(text@) && values@ == hex_bytes(
                text@,
            ),
            None => text@.len() % 2 != 0 || !all_digits(text@),
        },
{
    if text.len() % 2 != 0 {
        return None;
    }
    let mut bytes: Vec<u8> = Vec::new();
    let mut index: usize = 0;
    while index < text.len()
        invariant
            index <= text@.len(),
            index % 2 == 0,
            text@.len() % 2 == 0,
            bytes@.len() == index / 2,
            forall|i: int| 0 <= i < index ==> digit_value(#[trigger] text@[i]) is Some,
            forall|i: int| 0 <= i < bytes@.len() ==> #[trigger] bytes@[i] == pair_value(text@, i * 2),
        decreases text@.len() - index,
    {
        let high: u8 = match hex_nibble(text[index]) {
            Some(high) => high,
            None => return None,
        };
        let low: u8 = match hex_nibble(text[index + 1]) {
            Some(low) => low,
            None => return None,
        };
        bytes.push(high * 16 + low);
        index = index + 2;
    }
    assert(bytes@ =~= hex_bytes(text@));
    Some(bytes)
}

/// A digit counts the same in either case, and nothing but the sixteen digits counts.
pub proof fn law_digits_count_in_either_case(text: u8, value: u8)
    requires
        value < 6,
    ensures
        digit_value((0x61 + value) as u8) == Some((10 + value) as u8),
        digit_value((0x41 + value) as u8) == Some((10 + value) as u8),
        digit_value(text) is Some <==> 0x30 <= text <= 0x39 || 0x41 <= text <= 0x46 || 0x61 <= text
            <= 0x66,
        digit_value(text) is Some ==> digit_value(text)->0 < 16,
        0x30 <= text <= 0x39 ==> digit_value(text) == Some((text - 0x30) as u8),
{
}

/// Text is written in the digits 0 to 9 and A to F, the upper half of each byte first.
pub proof fn law_the_upper_half_is_written_first(bytes: Seq<u8>, place: int)
    requires
        0 <= place < bytes.len(),
    ensures
        hex_text(bytes).len() == 2 * bytes.len(),
        hex_text(bytes)[2 * place] == digit(bytes[place] as int / 16),
        hex_text(bytes)[2 * place + 1] == digit(bytes[place] as int % 16),
        digit(9) == '9',
        digit(0) == '0',
        digit(10) == 'A',
        digit(15) == 'F',
{
}

} // verus!
