//! Hexadecimal text: the lower-case form that seals are handed on in, and the form that a 256-bit
//! hash is read from.
use std::str::FromStr;

use vstd::prelude::*;

verus! {

/// The lower-case hexadecimal digit for `value`, which lies in `0..16`.
pub open spec fn lower_digit(value: int) -> char {
    if value < 10 {
        ('0' as int + value) as char
    } else {
        ('a' as int + value - 10) as char
    }
}

/// The text that writes each byte as two lower-case digits, the high one first.
pub open spec fn hex_lower(bytes: Seq<u8>) -> Seq<char> {
    Seq::new(
        2 * bytes.len(),
        |i: int|
            lower_digit(
                if i % 2 == 0 {
                    bytes[i / 2] as int / 16
                } else {
                    bytes[i / 2] as int % 16
                },
            ),
    )
}

/// The value of a hexadecimal digit of either case, and `None` for any other character.
pub open spec fn digit_value(c: char) -> Option<int> {
    if '0' <= c <= '9' {
        Some(c as int - '0' as int)
    } else if 'a' <= c <= 'f' {
        Some(c as int - 'a' as int + 10)
    } else if 'A' <= c <= 'F' {
        Some(c as int - 'A' as int + 10)
    } else {
        None
    }
}

/// Space, carriage return, line feed and tab, which may stand anywhere between digits.
pub open spec fn is_blank(c: char) -> bool {
    c == ' ' || c == '\r' || c == '\n' || c == '\t'
}

/// What is left of `text` without its blanks.
pub open spec fn without_blanks(text: Seq<char>) -> Seq<char> {
    text.filter(|c: char| !is_blank(c))
}

/// The bytes that `digits` spell, two hexadecimal digits of either case for each, the high one first.
pub open spec fn hex_bytes(digits: Seq<char>) -> Option<Seq<u8>> {
    if digits.len() % 2 == 0 && (forall|i: int|
        0 <= i < digits.len() ==> (#[trigger] digit_value(digits[i])) is Some) {
        Some(
            Seq::new(
                digits.len() / 2,
                |i: int|
                    (16 * digit_value(digits[2 * i])->0 + digit_value(digits[2 * i + 1])->0) as u8,
            ),
        )
    } else {
        None
    }
}

/// The 32 bytes that `text` spells: blanks aside, it must be exactly 64 hexadecimal digits.
pub open spec fn hash_bytes(text: Seq<char>) -> Option<Seq<u8>> {
    let digits = without_blanks(text);
    if digits.len() == 64 {
        hex_bytes(digits)
    } else {
        None
    }
}

/// `hex::encode`: two lower-case digits for each byte.
#[verifier::external_body]
pub(crate) fn encode(data: &Vec<u8>) -> (text: String)
    requires
        2 * data@.len() <= isize::MAX,
    ensures
        text@ == hex_lower(data@),
{
    hex::encode(data)
}

/// `H256::from_str`: the hash that 64 hexadecimal digits of either case spell, most significant
/// byte first. Blanks between the digits are skipped; anything else is refused.
#[verifier::external_body]
pub(crate) fn parse_hash(text: &str) -> (hash: Option<[u8; 32]>)
    ensures
        match hash {
            Some(bytes) => hash_bytes(text@) == Some(bytes@),
            None => hash_bytes(text@) is None,
        },
{
    match sp_core::H256::from_str(text) {
        Ok(hash) => Some(hash.to_fixed_bytes()),
        Err(_) => None,
    }
}

/// Text without blanks is left as it is.
proof fn lemma_nothing_blank(text: Seq<char>)
    requires
        forall|i: int| 0 <= i < text.len() ==> !is_blank(#[trigger] text[i]),
    ensures
        without_blanks(text) == text,
    decreases text.len(),
{
    reveal(Seq::filter);
    if text.len() > 0 {
        lemma_nothing_blank(text.drop_last());
        assert(text.drop_last().push(text.last()) =~= text);
    } else {
        assert(without_blanks(text) =~= text);
    }
}

/// The digits of a byte give the byte back.
proof fn lemma_digits_of_byte(byte: u8)
    ensures
        digit_value(lower_digit(byte as int / 16)) == Some(byte as int / 16),
        digit_value(lower_digit(byte as int % 16)) == Some(byte as int % 16),
        !is_blank(lower_digit(byte as int / 16)),
        !is_blank(lower_digit(byte as int % 16)),
{
}

/// Every character of a lower-case text is a digit, and none is a blank.
proof fn lemma_only_digits(bytes: Seq<u8>)
    ensures
        forall|i: int|
            0 <= i < hex_lower(bytes).len() ==> !is_blank(#[trigger] hex_lower(bytes)[i])
                && digit_value(hex_lower(bytes)[i]) is Some,
{
    assert forall|i: int| 0 <= i < hex_lower(bytes).len() implies !is_blank(
        #[trigger] hex_lower(bytes)[i],
    ) && digit_value(hex_lower(bytes)[i]) is Some by {
        lemma_digits_of_byte(bytes[i / 2]);
    }
}

/// Bytes that are written in lower-case hexadecimal are read back.
pub proof fn hex_bytes_reads_hex_lower(bytes: Seq<u8>)
    ensures
        hex_bytes(hex_lower(bytes)) == Some(bytes),
{
    let text = hex_lower(bytes);
    lemma_only_digits(bytes);
    assert(text.len() == 2 * bytes.len());
    assert forall|i: int| 0 <= i < bytes.len() implies #[trigger] hex_bytes(text)->0[i]
        == bytes[i] by {
        lemma_digits_of_byte(bytes[i]);
        assert((2 * i) / 2 == i && (2 * i + 1) / 2 == i);
        assert(text[2 * i] == lower_digit(bytes[i] as int / 16));
        assert(text[2 * i + 1] == lower_digit(bytes[i] as int % 16));
    }
    assert(hex_bytes(text)->0 =~= bytes);
}

/// Different byte strings have different lower-case texts.
pub proof fn hex_lower_is_injective(a: Seq<u8>, b: Seq<u8>)
    requires
        hex_lower(a) == hex_lower(b),
    ensures
        a == b,
{
    hex_bytes_reads_hex_lower(a);
    hex_bytes_reads_hex_lower(b);
}

/// A hash that is written in lower-case hexadecimal is read back.
pub proof fn hash_bytes_reads_hex_lower(hash: Seq<u8>)
    requires
        hash.len() == 32,
    ensures
        hash_bytes(hex_lower(hash)) == Some(hash),
{
    lemma_only_digits(hash);
    lemma_nothing_blank(hex_lower(hash));
    hex_bytes_reads_hex_lower(hash);
}

/// A value below sixteen is written as the character of `0123456789abcdef` at that place, and is read
/// from there as from `0123456789ABCDEF`.
pub proof fn digits_by_place(value: int)
    requires
        0 <= value < 16,
    ensures
        lower_digit(value) == "0123456789abcdef"@[value],
        digit_value("0123456789abcdef"@[value]) == Some(value),
        digit_value("0123456789ABCDEF"@[value]) == Some(value),
{
    reveal_strlit("0123456789abcdef");
    reveal_strlit("0123456789ABCDEF");
}

/// A character has a value only if it stands at that place of one of the two alphabets.
pub proof fn only_digits_have_values(c: char)
    ensures
        digit_value(c) matches Some(value) ==> 0 <= value < 16 && (c
            == "0123456789abcdef"@[value] || c == "0123456789ABCDEF"@[value]),
{
    reveal_strlit("0123456789abcdef");
    reveal_strlit("0123456789ABCDEF");
    if let Some(value) = digit_value(c) {
        digits_by_place(value);
    }
}

/// Blanks are the space, the carriage return, the line feed and the tab.
pub proof fn blanks_by_name(c: char)
    ensures
        is_blank(c) <==> " \r\n\t"@.contains(c),
{
    reveal_strlit(" \r\n\t");
    let blanks = " \r\n\t"@;
    assert(blanks[0] == ' ' && blanks[1] == '\r' && blanks[2] == '\n' && blanks[3] == '\t');
}

/// The text of `bytes` has two characters for each byte: that of its upper half, then that of its
/// lower half, out of `0123456789abcdef`.
pub proof fn hex_lower_by_place(bytes: Seq<u8>)
    ensures
        hex_lower(bytes).len() == 2 * bytes.len(),
        forall|i: int|
            #![trigger bytes[i]]
            0 <= i < bytes.len() ==> hex_lower(bytes)[2 * i]
                == "0123456789abcdef"@[bytes[i] as int / 16] && hex_lower(bytes)[2 * i + 1]
                == "0123456789abcdef"@[bytes[i] as int % 16],
{
    assert forall|i: int| #![trigger bytes[i]] 0 <= i < bytes.len() implies hex_lower(bytes)[2 * i]
        == "0123456789abcdef"@[bytes[i] as int / 16] && hex_lower(bytes)[2 * i + 1]
        == "0123456789abcdef"@[bytes[i] as int % 16] by {
        assert((2 * i) / 2 == i && (2 * i + 1) / 2 == i);
        digits_by_place(bytes[i] as int / 16);
        digits_by_place(bytes[i] as int % 16);
    }
}

/// Two characters for each byte, each in either case, spell the bytes; 32 of them spell a hash, and
/// any other number of them none.
pub proof fn either_case_spells(bytes: Seq<u8>, text: Seq<char>)
    requires
        text.len() == 2 * bytes.len(),
        forall|i: int|
            #![trigger bytes[i]]
            0 <= i < bytes.len() ==> (text[2 * i] == "0123456789abcdef"@[bytes[i] as int / 16]
                || text[2 * i] == "0123456789ABCDEF"@[bytes[i] as int / 16]) && (text[2 * i + 1]
                == "0123456789abcdef"@[bytes[i] as int % 16] || text[2 * i + 1]
                == "0123456789ABCDEF"@[bytes[i] as int % 16]),
    ensures
        hex_bytes(text) == Some(bytes),
        hash_bytes(text) == if bytes.len() == 32 {
            Some(bytes)
        } else {
            None
        },
{
    assert forall|i: int| 0 <= i < bytes.len() implies #[trigger] digit_value(text[2 * i]) == Some(
        bytes[i] as int / 16,
    ) && digit_value(text[2 * i + 1]) == Some(bytes[i] as int % 16) by {
        digits_by_place(bytes[i] as int / 16);
        digits_by_place(bytes[i] as int % 16);
    }
    assert forall|i: int| 0 <= i < text.len() implies (#[trigger] digit_value(text[i])) is Some
        && !is_blank(text[i]) by {
        let half = i / 2;
        assert(digit_value(text[2 * half]) is Some);
        assert(i == 2 * half || i == 2 * half + 1);
    }
    assert forall|i: int| 0 <= i < text.len() implies !is_blank(#[trigger] text[i]) by {
        assert(digit_value(text[i]) is Some);
    }
    lemma_nothing_blank(text);
    assert forall|i: int| 0 <= i < bytes.len() implies #[trigger] hex_bytes(text)->0[i]
        == bytes[i] by {
        assert(digit_value(text[2 * i]) == Some(bytes[i] as int / 16));
    }
    assert(hex_bytes(text)->0 =~= bytes);
}

/// A character that is neither a digit nor a blank spoils the text that it stands in.
pub proof fn foreign_character_spells_nothing(text: Seq<char>, at: int)
    requires
        0 <= at < text.len(),
        !"0123456789abcdef"@.contains(text[at]),
        !"0123456789ABCDEF"@.contains(text[at]),
    ensures
        hex_bytes(text) is None,
        !" \r\n\t"@.contains(text[at]) ==> hash_bytes(text) is None,
{
    reveal_strlit("0123456789abcdef");
    reveal_strlit("0123456789ABCDEF");
    only_digits_have_values(text[at]);
    blanks_by_name(text[at]);
    assert(digit_value(text[at]) is None) by {
        if let Some(value) = digit_value(text[at]) {
            assert("0123456789abcdef"@.contains("0123456789abcdef"@[value]));
            assert("0123456789ABCDEF"@.contains("0123456789ABCDEF"@[value]));
        }
    }
    if !" \r\n\t"@.contains(text[at]) {
        text.lemma_filter_contains(|c: char| !is_blank(c), at);
        let digits = without_blanks(text);
        let i = choose|i: int| 0 <= i < digits.len() && digits[i] == text[at];
        assert(digit_value(digits[i]) is None);
    }
}

/// A blank makes no difference to the hash that a text spells, wherever it stands.
pub proof fn blank_makes_no_difference(text: Seq<char>, at: int, blank: char)
    requires
        0 <= at <= text.len(),
        " \r\n\t"@.contains(blank),
    ensures
        hash_bytes(text.insert(at, blank)) == hash_bytes(text),
{
    blanks_by_name(blank);
    let kept = |c: char| !is_blank(c);
    let front = text.take(at);
    let back = text.skip(at);
    reveal(Seq::filter);
    assert(seq![blank].drop_last() =~= Seq::empty());
    assert(Seq::<char>::empty().filter(kept) =~= Seq::empty());
    assert(seq![blank].filter(kept) =~= Seq::empty());
    assert(text.insert(at, blank) =~= front + seq![blank] + back);
    assert(text =~= front + back);
    Seq::filter_distributes_over_add(front + seq![blank], back, kept);
    Seq::filter_distributes_over_add(front, seq![blank], kept);
    Seq::filter_distributes_over_add(front, back, kept);
    assert(without_blanks(text.insert(at, blank)) =~= without_blanks(text));
}

/// What a text spells as a hash has 32 bytes.
pub proof fn hash_has_32_bytes(text: Seq<char>)
    ensures
        hash_bytes(text) matches Some(bytes) ==> bytes.len() == 32,
{
}

/// An odd number of characters spells nothing, and blanks aside no hash.
pub proof fn odd_number_spells_nothing(text: Seq<char>)
    requires
        text.len() % 2 == 1,
    ensures
        hex_bytes(text) is None,
        (forall|i: int| 0 <= i < text.len() ==> !" \r\n\t"@.contains(#[trigger] text[i]))
            ==> hash_bytes(text) is None,
{
    if forall|i: int| 0 <= i < text.len() ==> !" \r\n\t"@.contains(#[trigger] text[i]) {
        assert forall|i: int| 0 <= i < text.len() implies !is_blank(#[trigger] text[i]) by {
            blanks_by_name(text[i]);
        }
        lemma_nothing_blank(text);
    }
}

} // verus!
