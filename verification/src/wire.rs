//! The text form of a shot: `row,col`, two decimal numbers around a single
//! comma.
//!
//! A part that is no decimal number — empty, holding anything but digits
//! after an optional leading `+`, or too large for the machine — counts as
//! zero; a message without a comma, or with more than one, is no shot.

use vstd::prelude::*;

verus! {

/// The byte `,`.
pub const COMMA: u8 = 44;

/// The byte `+`.
pub const PLUS: u8 = 43;

/// The byte `0`.
pub const ZERO: u8 = 48;

/// The byte `9`.
pub const NINE: u8 = 57;

/// Whether every byte is a decimal digit.
pub open spec fn all_digits(digits: Seq<u8>) -> bool {
    forall|i: int| 0 <= i < digits.len() ==> ZERO <= #[trigger] digits[i] <= NINE
}

/// The number that a run of decimal digits writes.
pub open spec fn decimal_value(digits: Seq<u8>) -> int
    decreases digits.len(),
{
    if digits.len() == 0 {
        0
    } else {
        decimal_value(digits.drop_last()) * 10 + (digits.last() - ZERO)
    }
}

/// The part without its leading `+`, if it has one.
pub open spec fn unsigned(part: Seq<u8>) -> Seq<u8> {
    if part.len() > 0 && part[0] == PLUS {
        part.skip(1)
    } else {
        part
    }
}

/// The number that a part stands for: its decimal value if it is a
/// non-empty run of digits, after an optional `+`, that fits the machine
/// word, and zero otherwise.
pub open spec fn number_or_zero(part: Seq<u8>) -> usize {
    let digits = unsigned(part);
    if digits.len() > 0 && all_digits(digits) && decimal_value(digits) <= usize::MAX {
        decimal_value(digits) as usize
    } else {
        0
    }
}

/// Whether the byte at `k` is the only comma of the text.
pub open spec fn sole_comma(text: Seq<u8>, k: int) -> bool {
    &&& 0 <= k < text.len()
    &&& text[k] == COMMA
    &&& forall|j: int| 0 <= j < text.len() && j != k ==> #[trigger] text[j] != COMMA
}

/// The shot that a text names, if it names one.
pub open spec fn parsed_shot(text: Seq<u8>) -> Option<(usize, usize)> {
    if exists|k: int| sole_comma(text, k) {
        let k = choose|k: int| sole_comma(text, k);
        Some((number_or_zero(text.take(k)), number_or_zero(text.skip(k + 1))))
    } else {
        None
    }
}

/// Appending digits never lowers the value.
proof fn lemma_value_grows(digits: Seq<u8>, shorter: int)
    requires
        0 <= shorter <= digits.len(),
        all_digits(digits),
    ensures
        0 <= decimal_value(digits.take(shorter)) <= decimal_value(digits),
    decreases digits.len() - shorter,
{
    if shorter == digits.len() {
        assert(digits.take(shorter) =~= digits);
        lemma_value_positive(digits);
    } else {
        lemma_value_grows(digits, shorter + 1);
        let longer = digits.take(shorter + 1);
        assert(longer.drop_last() =~= digits.take(shorter));
        assert(longer.last() == digits[shorter]);
        lemma_value_positive(digits.take(shorter));
    }
}

/// The value of a run of digits is not negative.
proof fn lemma_value_positive(digits: Seq<u8>)
    requires
        all_digits(digits),
    ensures
        0 <= decimal_value(digits),
    decreases digits.len(),
{
    if digits.len() > 0 {
        lemma_value_positive(digits.drop_last());
    }
}

/// The number that the bytes `from..to` of `text` stand for.
fn number_between(text: &[u8], from: usize, to: usize) -> (number: usize)
    requires
        from <= to <= text@.len(),
    ensures
        number == number_or_zero(text@.subrange(from as int, to as int)),
{
    let ghost part = text@.subrange(from as int, to as int);
    let mut i: usize = from;
    if i < to && text[i] == PLUS {
        i = i + 1;
    }
    let start: usize = i;
    let ghost digits = text@.subrange(start as int, to as int);
    assert(digits =~= unsigned(part));
    if start == to {
        return 0;
    }
    let mut value: usize = 0;
    while i < to
        invariant
            start <= i <= to <= text@.len(),
            digits == text@.subrange(start as int, to as int),
            digits == unsigned(text@.subrange(from as int, to as int)),
            digits.len() > 0,
            all_digits(digits.take(i - start)),
            value == decimal_value(digits.take(i - start)),
        decreases to - i,
    {
        let byte: u8 = text[i];
        assert(byte == digits[i - start]);
        if byte < ZERO || byte > NINE {
            assert(!all_digits(digits));
            return 0;
        }
        let digit: usize = (byte - ZERO) as usize;
        let ghost longer = digits.take(i + 1 - start);
        proof {
            assert(longer.drop_last() =~= digits.take(i - start));
            assert(longer.last() == byte);
            assert forall|j: int| 0 <= j < longer.len() implies ZERO <= #[trigger] longer[j]
                <= NINE by {
                if j < i - start {
                    assert(longer[j] == digits.take(i - start)[j]);
                }
            }
        }
        if value > (usize::MAX - digit) / 10 {
            proof {
                if all_digits(digits) {
                    lemma_value_grows(digits, i + 1 - start);
                    assert(decimal_value(digits) > usize::MAX);
                }
            }
            return 0;
        }
        value = value * 10 + digit;
        i = i + 1;
    }
    assert(digits.take(to - start) =~= digits);
    value
}

/// Reads a shot from its text form.
///
/// The text names a shot when it holds exactly one comma; the parts before
/// and after the comma give the row and the column.
pub fn parse_shot(text: &[u8]) -> (shot: Option<(usize, usize)>)
    ensures
        shot == parsed_shot(text@),
{
    let len: usize = text.len();
    let mut found: Option<usize> = None;
    let mut i: usize = 0;
    while i < len
        invariant
            i <= len,
            len == text@.len(),
            match found {
                Some(k) => k < i && text@[k as int] == COMMA && forall|j: int|
                    0 <= j < i && j != k ==> #[trigger] text@[j] != COMMA,
                None => forall|j: int| 0 <= j < i ==> #[trigger] text@[j] != COMMA,
            },
        decreases len - i,
    {
        if text[i] == COMMA {
            match found {
                Some(k) => {
                    assert forall|other: int| !sole_comma(text@, other) by {
                        if other == k {
                            assert(text@[i as int] == COMMA);
                        } else {
                            assert(text@[k as int] == COMMA);
                        }
                    }
                    return None;
                },
                None => {
                    found = Some(i);
                },
            }
        }
        i = i + 1;
    }
    match found {
        Some(k) => {
            assert(sole_comma(text@, k as int));
            proof {
                let chosen = choose|c: int| sole_comma(text@, c);
                assert(chosen == k);
                assert(text@.take(k as int) =~= text@.subrange(0, k as int));
                assert(text@.skip(k + 1) =~= text@.subrange(k + 1, len as int));
            }
            let row: usize = number_between(text, 0, k);
            let col: usize = number_between(text, k + 1, len);
            Some((row, col))
        },
        None => {
            assert forall|other: int| !sole_comma(text@, other) by {}
            None
        },
    }
}

} // verus!
