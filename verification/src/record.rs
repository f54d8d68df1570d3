//! The lines `set_color` appends to the animation recordings.
//!
//! The plain recording holds one `n|r|g|b` line per command, preceded by a
//! `T:<millis>` line when at least three milliseconds passed since the last
//! command. The controller recording is a C array initialiser of bytes: a
//! delay is written as `0xFE, <ms>` pairs of at most 255 ms each, followed by
//! the index (low byte first) and the colour.

use vstd::prelude::*;
use crate::protocol::{index_high, index_low};

verus! {

/// Marks a delay in the controller recording; the next byte is milliseconds.
pub const ESP_DELAY_MARKER: u8 = 0xFE;

/// The longest delay one marker pair can hold.
pub const ESP_MAX_DELAY: u8 = 0xFF;

/// Elapsed time below this many milliseconds is not written to the plain
/// recording.
pub const MIN_RECORDED_DELAY_MS: u128 = 3;

/// ASCII of a decimal digit.
pub open spec fn spec_decimal_digit(d: nat) -> u8 {
    (48 + d) as u8
}

/// Decimal ASCII representation of `x`, without leading zeros.
pub open spec fn spec_decimal(x: nat) -> Seq<u8>
    decreases x,
{
    if x < 10 {
        seq![spec_decimal_digit(x)]
    } else {
        spec_decimal(x / 10).push(spec_decimal_digit(x % 10))
    }
}

/// ASCII of an upper-case hexadecimal digit.
pub open spec fn spec_hex_digit(d: nat) -> u8 {
    if d < 10 {
        (48 + d) as u8
    } else {
        (55 + d) as u8
    }
}

/// `0xHH, ` for one byte, in upper case.
pub open spec fn spec_hex_byte_text(b: u8) -> Seq<u8> {
    seq![48u8, 120u8, spec_hex_digit(b as nat / 16), spec_hex_digit(b as nat % 16), 44u8, 32u8]
}

/// The controller-recording text of a byte sequence.
pub open spec fn spec_hex_bytes_text(bytes: Seq<u8>) -> Seq<u8>
    decreases bytes.len(),
{
    if bytes.len() == 0 {
        seq![]
    } else {
        spec_hex_bytes_text(bytes.drop_last()) + spec_hex_byte_text(bytes.last())
    }
}

/// An ASCII upper-case hexadecimal digit: `0`-`9` or `A`-`F`.
pub open spec fn is_upper_hex_digit(c: u8) -> bool {
    (48 <= c <= 57) || (65 <= c <= 70)
}

/// The value of an upper-case hexadecimal digit.
pub open spec fn hex_digit_value(c: u8) -> int {
    if c <= 57 {
        c - 48
    } else {
        c - 55
    }
}

/// Whether `text` is `0xHH, ` for the byte `b`: `0`, `x`, two upper-case hex
/// digits whose value is `b`, a comma and a space.
pub open spec fn reads_back_as(text: Seq<u8>, b: u8) -> bool {
    &&& text.len() == 6
    &&& text[0] == 48u8 && text[1] == 120u8
    &&& is_upper_hex_digit(text[2]) && is_upper_hex_digit(text[3])
    &&& 16 * hex_digit_value(text[2]) + hex_digit_value(text[3]) == b as int
    &&& text[4] == 44u8 && text[5] == 32u8
}

/// Every digit below sixteen is written as its upper-case hexadecimal ASCII
/// digit.
pub proof fn lemma_hex_digit_is_upper_case(d: nat)
    requires
        d < 16,
    ensures
        is_upper_hex_digit(spec_hex_digit(d)),
        hex_digit_value(spec_hex_digit(d)) == d,
        d < 10 ==> spec_hex_digit(d) == 48 + d,
        d >= 10 ==> spec_hex_digit(d) == 65 + (d - 10),
{
}

/// The text written for a byte reads back as that byte, in upper-case
/// hexadecimal.
pub proof fn lemma_hex_byte_text_reads_back(b: u8)
    ensures
        reads_back_as(spec_hex_byte_text(b), b),
{
    lemma_hex_digit_is_upper_case(b as nat / 16);
    lemma_hex_digit_is_upper_case(b as nat % 16);
}

/// The text of a byte sequence is six characters per byte, and the six
/// characters of the `i`-th byte read back as that byte.
pub proof fn lemma_hex_bytes_text_reads_back(bytes: Seq<u8>)
    ensures
        spec_hex_bytes_text(bytes).len() == 6 * bytes.len(),
        forall|i: int|
            0 <= i < bytes.len() ==> reads_back_as(
                #[trigger] spec_hex_bytes_text(bytes).subrange(6 * i, 6 * i + 6),
                bytes[i],
            ),
    decreases bytes.len(),
{
    if bytes.len() > 0 {
        let prefix = bytes.drop_last();
        lemma_hex_bytes_text_reads_back(prefix);
        lemma_hex_byte_text_reads_back(bytes.last());
        let text = spec_hex_bytes_text(bytes);
        assert(text == spec_hex_bytes_text(prefix) + spec_hex_byte_text(bytes.last()));
        assert forall|i: int| 0 <= i < bytes.len() implies reads_back_as(
            #[trigger] text.subrange(6 * i, 6 * i + 6),
            bytes[i],
        ) by {
            if i < prefix.len() {
                assert(text.subrange(6 * i, 6 * i + 6) =~= spec_hex_bytes_text(prefix).subrange(
                    6 * i,
                    6 * i + 6,
                ));
                assert(prefix[i] == bytes[i]);
            } else {
                assert(text.subrange(6 * i, 6 * i + 6) =~= spec_hex_byte_text(bytes.last()));
            }
        }
    }
}

/// The bytes that follow the full-length delay pairs: the remaining delay, if
/// any, then the LED index (low byte first) and the colour.
pub open spec fn spec_esp_entry(rest: u8, n: u16, r: u8, g: u8, b: u8) -> Seq<u8> {
    let delay = if rest > 0 {
        seq![ESP_DELAY_MARKER, rest]
    } else {
        seq![]
    };
    delay + seq![index_low(n), index_high(n), r, g, b]
}

/// The plain-recording text for one command.
pub open spec fn spec_data_record(millis: u128, n: u16, r: u8, g: u8, b: u8) -> Seq<u8> {
    let delay = if millis >= MIN_RECORDED_DELAY_MS {
        seq![84u8, 58u8] + spec_decimal(millis as nat) + seq![10u8]
    } else {
        seq![]
    };
    delay + spec_decimal(n as nat) + seq![124u8] + spec_decimal(r as nat) + seq![124u8]
        + spec_decimal(g as nat) + seq![124u8] + spec_decimal(b as nat) + seq![10u8]
}

/// The delay bytes written for `millis` milliseconds, one `0xFE, 0xFF` pair
/// per 255 ms while more than 255 ms remain, then `0xFE, <rest>` for what is
/// left, if anything.
pub open spec fn spec_esp_delay_bytes(millis: nat) -> Seq<u8>
    decreases millis,
{
    if millis > 255 {
        seq![ESP_DELAY_MARKER, ESP_MAX_DELAY] + spec_esp_delay_bytes((millis - 255) as nat)
    } else if millis > 0 {
        seq![ESP_DELAY_MARKER, millis as u8]
    } else {
        seq![]
    }
}

/// `full` pairs of `0xFE, 0xFF`.
pub open spec fn spec_full_delay_pairs(full: nat) -> Seq<u8>
    decreases full,
{
    if full == 0 {
        seq![]
    } else {
        seq![ESP_DELAY_MARKER, ESP_MAX_DELAY] + spec_full_delay_pairs((full - 1) as nat)
    }
}

/// Total milliseconds encoded by a sequence of delay pairs.
pub open spec fn spec_delay_total(bytes: Seq<u8>) -> nat
    decreases bytes.len(),
{
    if bytes.len() < 2 {
        0
    } else {
        bytes[1] as nat + spec_delay_total(bytes.skip(2))
    }
}

/// Writing `full` maximal pairs followed by the remaining delay, as split by
/// `esp_delay_split`, produces exactly the delay bytes of the step-by-step
/// encoding, and those bytes add up to the elapsed milliseconds.
pub proof fn lemma_esp_delay_split_encodes_elapsed_time(millis: nat, full: nat, rest: u8)
    requires
        255 * full + rest == millis,
        millis > 0 ==> rest > 0,
    ensures
        spec_esp_delay_bytes(millis) == spec_full_delay_pairs(full) + (if rest > 0 {
            seq![ESP_DELAY_MARKER, rest]
        } else {
            seq![]
        }),
        spec_delay_total(spec_esp_delay_bytes(millis)) == millis,
    decreases full,
{
    let tail = if rest > 0 {
        seq![ESP_DELAY_MARKER, rest]
    } else {
        seq![]
    };
    if full == 0 {
        assert(spec_full_delay_pairs(0) + tail =~= tail);
        if rest > 0 {
            assert(tail.skip(2) =~= Seq::<u8>::empty());
            assert(spec_delay_total(tail.skip(2)) == 0);
            assert(spec_delay_total(tail) == rest as nat);
        }
    } else {
        lemma_esp_delay_split_encodes_elapsed_time((millis - 255) as nat, (full - 1) as nat, rest);
        let inner = spec_esp_delay_bytes((millis - 255) as nat);
        assert(spec_full_delay_pairs(full) + tail =~= seq![ESP_DELAY_MARKER, ESP_MAX_DELAY]
            + (spec_full_delay_pairs((full - 1) as nat) + tail));
        let outer = seq![ESP_DELAY_MARKER, ESP_MAX_DELAY] + inner;
        assert(outer.skip(2) =~= inner);
        assert(millis > 255);
        assert(spec_esp_delay_bytes(millis) == outer);
        assert(outer[1] == ESP_MAX_DELAY);
        assert(spec_delay_total(outer) == 255 + spec_delay_total(inner));
    }
}

/// Numeric value of a string of decimal digits.
pub open spec fn spec_decimal_value(text: Seq<u8>) -> nat
    decreases text.len(),
{
    if text.len() == 0 {
        0
    } else {
        10 * spec_decimal_value(text.drop_last()) + (text.last() - 48) as nat
    }
}

/// The decimal text holds only digits, reads back as the number, and has no
/// leading zero (zero itself is `0`).
pub proof fn lemma_decimal_reads_back(x: nat)
    ensures
        spec_decimal(x).len() > 0,
        x == 0 ==> spec_decimal(x) == seq![48u8],
        x > 0 ==> spec_decimal(x)[0] != 48u8,
        forall|i: int| 0 <= i < spec_decimal(x).len() ==> 48 <= #[trigger] spec_decimal(x)[i] <= 57,
        spec_decimal_value(spec_decimal(x)) == x,
    decreases x,
{
    if x >= 10 {
        lemma_decimal_reads_back(x / 10);
        assert(spec_decimal(x).drop_last() =~= spec_decimal(x / 10));
        assert(spec_decimal(x)[0] == spec_decimal(x / 10)[0]);
        assert(spec_decimal(x).last() == spec_decimal_digit(x % 10));
        assert(x == 10 * (x / 10) + x % 10);
    } else {
        assert(spec_decimal(x).drop_last() =~= Seq::<u8>::empty());
        assert(spec_decimal_value(Seq::<u8>::empty()) == 0);
    }
}

/// Splits an elapsed time into the number of full `0xFE, 0xFF` delay pairs and
/// the remaining milliseconds: `255 * full + rest == millis`, and the rest is
/// non-zero whenever time passed.
pub fn esp_delay_split(millis: u128) -> (split: (u128, u8))
    ensures
        255 * split.0 + split.1 == millis,
        millis > 0 ==> split.1 > 0,
{
    if millis == 0 {
        return (0, 0);
    }
    let full = (millis - 1) / 255;
    let rest = millis - 255 * full;
    (full, rest as u8)
}

/// The controller-recording bytes after the full delay pairs.
pub fn esp_entry(rest: u8, n: u16, r: u8, g: u8, b: u8) -> (entry: Vec<u8>)
    ensures
        entry@ == spec_esp_entry(rest, n, r, g, b),
        entry@.len() == if rest > 0 {
            7int
        } else {
            5int
        },
        rest > 0 ==> entry@[0] == 0xFEu8 && entry@[1] == rest,
        ({
            let k = entry@.len() - 5;
            &&& entry@[k] as int + 256 * entry@[k + 1] as int == n as int
            &&& entry@[k + 2] == r && entry@[k + 3] == g && entry@[k + 4] == b
        }),
{
    let mut entry: Vec<u8> = Vec::new();
    if rest > 0 {
        entry.push(ESP_DELAY_MARKER);
        entry.push(rest);
    }
    entry.push((n % 256) as u8);
    entry.push((n / 256) as u8);
    entry.push(r);
    entry.push(g);
    entry.push(b);
    assert(entry@ =~= spec_esp_entry(rest, n, r, g, b));
    entry
}

fn hex_digit(d: u8) -> (c: u8)
    requires
        d < 16,
    ensures
        c == spec_hex_digit(d as nat),
        is_upper_hex_digit(c),
        hex_digit_value(c) == d as int,
{
    if d < 10 {
        48 + d
    } else {
        55 + d
    }
}

/// Formats bytes the way the controller recording writes them: `0xHH, ` each.
pub fn hex_bytes_text(bytes: &[u8]) -> (text: Vec<u8>)
    ensures
        text@ == spec_hex_bytes_text(bytes@),
        text@.len() == 6 * bytes@.len(),
        forall|i: int|
            0 <= i < bytes@.len() ==> reads_back_as(
                #[trigger] text@.subrange(6 * i, 6 * i + 6),
                bytes@[i],
            ),
{
    let mut text: Vec<u8> = Vec::new();
    let mut i: usize = 0;
    while i < bytes.len()
        invariant
            i <= bytes@.len(),
            text@ == spec_hex_bytes_text(bytes@.take(i as int)),
        decreases bytes@.len() - i,
    {
        let b = bytes[i];
        text.push(48u8);
        text.push(120u8);
        text.push(hex_digit(b / 16));
        text.push(hex_digit(b % 16));
        text.push(44u8);
        text.push(32u8);
        proof {
            assert(bytes@.take(i as int + 1).drop_last() =~= bytes@.take(i as int));
            assert(text@ =~= spec_hex_bytes_text(bytes@.take(i as int + 1)));
        }
        i = i + 1;
    }
    assert(bytes@.take(bytes@.len() as int) =~= bytes@);
    proof {
        lemma_hex_bytes_text_reads_back(bytes@);
    }
    text
}

/// Appends the decimal representation of `x`.
fn push_decimal(text: &mut Vec<u8>, x: u128)
    ensures
        final(text)@ == old(text)@ + spec_decimal(x as nat),
    decreases x,
{
    if x >= 10 {
        push_decimal(text, x / 10);
    }
    text.push(48 + (x % 10) as u8);
    assert(final(text)@ =~= old(text)@ + spec_decimal(x as nat));
}

/// The plain-recording text for a command sent `millis` milliseconds after
/// the previous one.
pub fn data_record(millis: u128, n: u16, r: u8, g: u8, b: u8) -> (text: Vec<u8>)
    ensures
        text@ == spec_data_record(millis, n, r, g, b),
        text@ == (if millis >= 3 {
            seq![84u8, 58u8] + spec_decimal(millis as nat) + seq![10u8]
        } else {
            Seq::<u8>::empty()
        }) + spec_decimal(n as nat) + seq![124u8] + spec_decimal(r as nat) + seq![124u8]
            + spec_decimal(g as nat) + seq![124u8] + spec_decimal(b as nat) + seq![10u8],
{
    let mut text: Vec<u8> = Vec::new();
    if millis >= MIN_RECORDED_DELAY_MS {
        text.push(84u8);
        text.push(58u8);
        push_decimal(&mut text, millis);
        text.push(10u8);
    }
    push_decimal(&mut text, n as u128);
    text.push(124u8);
    push_decimal(&mut text, r as u128);
    text.push(124u8);
    push_decimal(&mut text, g as u128);
    text.push(124u8);
    push_decimal(&mut text, b as u128);
    text.push(10u8);
    assert(text@ =~= spec_data_record(millis, n, r, g, b));
    text
}

} // verus!
