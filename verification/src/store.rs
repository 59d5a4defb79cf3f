//! The record as it is kept in the store: a decimal number, as text.

use vstd::prelude::*;

verus! {

/// Whether a byte is a decimal digit.
pub open spec fn is_digit(b: u8) -> bool {
    0x30 <= b <= 0x39
}

/// Whether every byte is a decimal digit.
pub open spec fn all_digits(text: Seq<u8>) -> bool {
    forall|i: int| 0 <= i < text.len() ==> is_digit(#[trigger] text[i])
}

/// The number that a run of digits writes.
pub open spec fn decimal_value(digits: Seq<u8>) -> nat
    decreases digits.len(),
{
    if digits.len() == 0 {
        0
    } else {
        (decimal_value(digits.drop_last()) * 10 + (digits.last() - 0x30)) as nat
    }
}

/// The text without the plus sign that may lead it.
pub open spec fn unsigned_part(text: Seq<u8>) -> Seq<u8> {
    if text.len() > 0 && text[0] == 0x2b {
        text.skip(1)
    } else {
        text
    }
}

/// Whether a text writes a record: digits, at least one, after at most
/// one plus sign, that make a number no larger than the largest score.
pub open spec fn writes_record(text: Seq<u8>) -> bool {
    let digits = unsigned_part(text);
    digits.len() > 0 && all_digits(digits) && decimal_value(digits) <= u32::MAX
}

/// The record that a stored text stands for: its number, or nothing where
/// it writes none.
pub open spec fn record_of(text: Seq<u8>) -> u32 {
    if writes_record(text) {
        decimal_value(unsigned_part(text)) as u32
    } else {
        0
    }
}

/// The decimal digits of a number, without leading zeros; none for zero.
pub open spec fn digits_of(value: nat) -> Seq<u8>
    decreases value,
{
    if value == 0 {
        Seq::empty()
    } else {
        digits_of(value / 10).push((0x30 + value % 10) as u8)
    }
}

/// The text that stores a record.
pub open spec fn text_of(record: u32) -> Seq<u8> {
    if record == 0 {
        seq![0x30u8]
    } else {
        digits_of(record as nat)
    }
}

/// Reads a record from the text that was stored. A text that writes no
/// record stands for no record yet.
pub fn parse_record(text: &[u8]) -> (r: u32)
    ensures
        r == record_of(text@),
{
    let start: usize = if text.len() > 0 && text[0] == 0x2b {
        1
    } else {
        0
    };
    let ghost digits = unsigned_part(text@);
    assert(digits =~= text@.skip(start as int));
    if start == text.len() {
        return 0;
    }
    let mut value: u64 = 0;
    let mut i: usize = start;
    assert(digits.take(0) =~= Seq::<u8>::empty());
    while i < text.len()
        invariant
            start <= i <= text.len(),
            digits == text@.skip(start as int),
            digits == unsigned_part(text@),
            all_digits(digits.take(i - start)),
            value == decimal_value(digits.take(i - start)),
            value <= u32::MAX,
        decreases text.len() - i,
    {
        let b: u8 = text[i];
        let ghost seen = digits.take(i - start);
        proof {
            assert(digits[i - start] == b);
            assert(digits.take(i - start + 1).drop_last() =~= seen);
            assert(digits.take(i - start + 1).last() == b);
            if all_digits(digits) {
                lemma_value_of_prefix(digits, i - start + 1);
            }
        }
        if b < 0x30 || b > 0x39 {
            assert(!is_digit(digits[i - start]));
            return 0;
        }
        let digit: u64 = (b - 0x30) as u64;
        value = value * 10 + digit;
        if value > 0xffff_ffff {
            return 0;
        }
        i += 1;
    }
    assert(digits.take(text.len() - start) =~= digits);
    value as u32
}

/// Reads the record from what the store held: nothing, or a text.
pub fn load_record(stored: Option<&[u8]>) -> (r: u32)
    ensures
        r == (match stored {
            Some(text) => record_of(text@),
            None => 0,
        }),
{
    match stored {
        Some(text) => parse_record(text),
        None => 0,
    }
}

/// Appends the decimal digits of `value`, none for zero.
pub fn push_digits(text: &mut Vec<u8>, value: u32)
    ensures
        final(text)@ == old(text)@ + digits_of(value as nat),
    decreases value,
{
    if value > 0 {
        push_digits(text, value / 10);
        let digit: u8 = (value % 10) as u8;
        text.push(0x30 + digit);
        assert(text@ =~= old(text)@ + digits_of(value as nat));
    } else {
        assert(text@ =~= old(text)@ + digits_of(value as nat));
    }
}

/// Writes a record as the text to store: its decimal digits, and a single
/// zero for no record.
pub fn format_record(record: u32) -> (text: Vec<u8>)
    ensures
        text@ == text_of(record),
        record_of(text@) == record,
{
    let mut text: Vec<u8> = Vec::new();
    if record == 0 {
        text.push(0x30);
    } else {
        push_digits(&mut text, record);
    }
    proof {
        lemma_text_reads_back(record);
        assert(text@ =~= text_of(record));
    }
    text
}

/// No beginning of a run of digits writes a larger number than the whole
/// run.
pub proof fn lemma_value_of_prefix(digits: Seq<u8>, n: int)
    requires
        0 <= n <= digits.len(),
        all_digits(digits),
    ensures
        decimal_value(digits.take(n)) <= decimal_value(digits),
    decreases digits.len(),
{
    if n == digits.len() {
        assert(digits.take(n) =~= digits);
    } else {
        assert(digits.drop_last().take(n) =~= digits.take(n));
        lemma_value_of_prefix(digits.drop_last(), n);
        assert(is_digit(digits.last()));
    }
}

/// The digits of a number write that number.
pub proof fn lemma_digits_write_value(value: nat)
    ensures
        all_digits(digits_of(value)),
        decimal_value(digits_of(value)) == value,
        value > 0 ==> digits_of(value).len() > 0 && digits_of(value)[0] != 0x2b,
    decreases value,
{
    if value > 0 {
        lemma_digits_write_value(value / 10);
        let rest = digits_of(value / 10);
        let last = (0x30 + value % 10) as u8;
        assert(digits_of(value).drop_last() =~= rest);
        assert(digits_of(value).last() == last);
        assert forall|i: int| 0 <= i < digits_of(value).len() implies is_digit(
            #[trigger] digits_of(value)[i],
        ) by {
            if i < rest.len() {
                assert(digits_of(value)[i] == rest[i]);
            }
        }
        if rest.len() > 0 {
            assert(digits_of(value)[0] == rest[0]);
        }
    }
}

/// A record that was stored is read back as it was.
pub proof fn lemma_text_reads_back(record: u32)
    ensures
        record_of(text_of(record)) == record,
{
    if record == 0 {
        let text = seq![0x30u8];
        assert(text.drop_last() =~= Seq::<u8>::empty());
        assert(decimal_value(text.drop_last()) == 0);
        assert(decimal_value(text) == 0);
    } else {
        lemma_digits_write_value(record as nat);
    }
}

} // verus!
