//! Reading numeric literals: integers from their digits, floats from a table
//! of readings that the caller supplies.

use crate::cell::Float64;
use vstd::prelude::*;
use vstd::string::StrSliceExecFns;

verus! {

/// Whether the character is one of the ten decimal digits.
pub open spec fn is_digit(c: char) -> bool {
    '0' <= c <= '9'
}

/// Whether every character is a decimal digit.
pub open spec fn all_digits(s: Seq<char>) -> bool {
    forall|i: int| 0 <= i < s.len() ==> is_digit(#[trigger] s[i])
}

/// The number that the digits write, the most significant first.
pub open spec fn digits_value(s: Seq<char>) -> int
    decreases s.len(),
{
    if s.len() == 0 {
        0
    } else {
        10 * digits_value(s.drop_last()) + (s.last() as int - '0' as int)
    }
}

/// Whether the text starts with a sign.
pub open spec fn has_sign(text: Seq<char>) -> bool {
    text.len() > 0 && (text[0] == '-' || text[0] == '+')
}

/// The text without its sign, if it starts with one.
pub open spec fn unsigned_part(text: Seq<char>) -> Seq<char> {
    if has_sign(text) {
        text.subrange(1, text.len() as int)
    } else {
        text
    }
}

/// The integer that the text writes in decimal: an optional sign, then at least
/// one digit and nothing but digits, the whole within the 64-bit signed range.
pub open spec fn integer_reading(text: Seq<char>) -> Option<i64> {
    let digits = unsigned_part(text);
    if digits.len() == 0 || !all_digits(digits) {
        None
    } else {
        let magnitude = digits_value(digits);
        let value = if text[0] == '-' {
            -magnitude
        } else {
            magnitude
        };
        if i64::MIN <= value <= i64::MAX {
            Some(value as i64)
        } else {
            None
        }
    }
}

/// Digits write a number that is not negative.
pub proof fn lemma_digits_value_nonnegative(s: Seq<char>)
    requires
        all_digits(s),
    ensures
        digits_value(s) >= 0,
    decreases s.len(),
{
    if s.len() > 0 {
        assert(is_digit(s[s.len() - 1]));
        assert forall|i: int| 0 <= i < s.drop_last().len() implies is_digit(
            #[trigger] s.drop_last()[i],
        ) by {
            assert(is_digit(s[i]));
        }
        lemma_digits_value_nonnegative(s.drop_last());
    }
}

/// The first digits of a number write no more than all of them.
pub proof fn lemma_digits_value_prefix(s: Seq<char>, k: int)
    requires
        all_digits(s),
        0 <= k <= s.len(),
    ensures
        0 <= digits_value(s.take(k)) <= digits_value(s),
        all_digits(s.take(k)),
    decreases s.len(),
{
    assert forall|i: int| 0 <= i < s.take(k).len() implies is_digit(#[trigger] s.take(k)[i]) by {
        assert(is_digit(s[i]));
    }
    lemma_digits_value_nonnegative(s.take(k));
    if k == s.len() {
        assert(s.take(k) =~= s);
    } else {
        let shorter = s.drop_last();
        assert forall|i: int| 0 <= i < shorter.len() implies is_digit(#[trigger] shorter[i]) by {
            assert(is_digit(s[i]));
        }
        assert(is_digit(s[s.len() - 1]));
        lemma_digits_value_prefix(shorter, k);
        assert(shorter.take(k) =~= s.take(k));
    }
}

/// One more digit at the end: ten times the number so far, plus the digit.
pub proof fn lemma_digits_value_push(s: Seq<char>, c: char)
    ensures
        digits_value(s.push(c)) == 10 * digits_value(s) + (c as int - '0' as int),
{
    assert(s.push(c).drop_last() =~= s);
}

/// The number of characters in the text.
fn char_count(text: &str) -> (r: usize)
    ensures
        r == text@.len(),
{
    text.unicode_len()
}

/// Whether the text holds a decimal point.
pub fn has_decimal_point(text: &str) -> (r: bool)
    ensures
        r == text@.contains('.'),
{
    let n = char_count(text);
    let mut i: usize = 0;
    while i < n
        invariant
            i <= n,
            n == text@.len(),
            forall|j: int| 0 <= j < i ==> text@[j] != '.',
        decreases n - i,
    {
        if text.get_char(i) == '.' {
            assert(text@[i as int] == '.');
            return true;
        }
        i += 1;
    }
    false
}

/// The value of the character as a decimal digit.
fn digit_of(c: char) -> (r: Option<u8>)
    ensures
        match r {
            Some(d) => is_digit(c) && d == c as int - '0' as int,
            None => !is_digit(c),
        },
{
    if c == '0' {
        Some(0)
    } else if c == '1' {
        Some(1)
    } else if c == '2' {
        Some(2)
    } else if c == '3' {
        Some(3)
    } else if c == '4' {
        Some(4)
    } else if c == '5' {
        Some(5)
    } else if c == '6' {
        Some(6)
    } else if c == '7' {
        Some(7)
    } else if c == '8' {
        Some(8)
    } else if c == '9' {
        Some(9)
    } else {
        None
    }
}

/// Reads a decimal integer: an optional sign, then digits.
///
/// Gives nothing where the text is empty or only a sign, where anything but a
/// digit follows, and where the number does not fit in 64 bits.
#[verifier::loop_isolation(false)]
pub fn parse_integer(text: &str) -> (r: Option<i64>)
    ensures
        r == integer_reading(text@),
{
    let n = char_count(text);
    if n == 0 {
        return None;
    }
    let first = text.get_char(0);
    let negative = first == '-';
    let start: usize = if first == '-' || first == '+' {
        1
    } else {
        0
    };
    let ghost digits = unsigned_part(text@);
    assert(digits =~= text@.subrange(start as int, n as int));
    if start == n {
        return None;
    }
    let mut magnitude: u64 = 0;
    let mut i: usize = start;
    while i < n
        invariant
            start <= i <= n,
            n == text@.len(),
            digits == text@.subrange(start as int, n as int),
            all_digits(digits.take(i - start)),
            magnitude == digits_value(digits.take(i - start)),
            magnitude <= 0x8000_0000_0000_0000,
        decreases n - i,
    {
        let c = text.get_char(i);
        assert(digits[i - start] == c);
        let ghost so_far = digits.take(i - start);
        let ghost longer = digits.take(i - start + 1);
        assert(longer =~= so_far.push(c));
        match digit_of(c) {
            None => {
                assert(!is_digit(digits[i - start]));
                return None;
            },
            Some(d) => {
                proof {
                    lemma_digits_value_push(so_far, c);
                    assert forall|j: int| 0 <= j < longer.len() implies is_digit(
                        #[trigger] longer[j],
                    ) by {
                        if j < so_far.len() {
                            assert(is_digit(so_far[j]));
                        }
                    }
                    if all_digits(digits) {
                        lemma_digits_value_prefix(digits, i - start + 1);
                    }
                }
                if magnitude > 922337203685477580 {
                    return None;
                }
                let next: u64 = magnitude * 10 + d as u64;
                if next > 0x8000_0000_0000_0000 {
                    return None;
                }
                magnitude = next;
            },
        }
        i += 1;
    }
    assert(digits.take(n - start) =~= digits);
    if negative {
        if magnitude == 0x8000_0000_0000_0000 {
            Some(i64::MIN)
        } else {
            Some(-(magnitude as i64))
        }
    } else if magnitude <= 0x7fff_ffff_ffff_ffff {
        Some(magnitude as i64)
    } else {
        None
    }
}

/// What a table of readings holds: pairs of a literal's text and the 64-bit
/// float that the text writes.
pub type ReadingsView = Seq<(Seq<char>, Float64)>;

/// The reading of the text in the first pair, from position `from` on, that
/// has the text.
pub open spec fn reading_from(readings: ReadingsView, text: Seq<char>, from: int) -> Option<Float64>
    decreases readings.len() - from,
{
    if from < 0 || from >= readings.len() {
        None
    } else if readings[from].0 == text {
        Some(readings[from].1)
    } else {
        reading_from(readings, text, from + 1)
    }
}

/// The reading of the text: that of the first pair that has it.
pub open spec fn reading(readings: ReadingsView, text: Seq<char>) -> Option<Float64> {
    reading_from(readings, text, 0)
}

/// Readings of float literals.
///
/// Translation classifies a numeric literal with a decimal point as a float
/// and takes the float's value from this table, by the literal's text without
/// any sign. The caller fills the table with what the texts write.
#[derive(Clone, Debug, PartialEq, Eq)]
pub struct FloatReadings {
    entries: Vec<(String, Float64)>,
}

impl DeepView for Float64 {
    type V = Float64;

    #[verifier::inline]
    open spec fn deep_view(&self) -> Float64 {
        *self
    }
}

impl View for FloatReadings {
    type V = ReadingsView;

    closed spec fn view(&self) -> ReadingsView {
        self.entries.deep_view()
    }
}

impl FloatReadings {
    /// The table without readings.
    pub fn new() -> (r: Self)
        ensures
            r@ == Seq::<(Seq<char>, Float64)>::empty(),
    {
        let r = Self { entries: Vec::new() };
        assert(r.entries.deep_view() =~= Seq::<(Seq<char>, Float64)>::empty());
        r
    }

    /// The number of pairs.
    pub fn len(&self) -> (r: usize)
        ensures
            r == self@.len(),
    {
        self.entries.len()
    }

    /// Adds a reading at the end. A text that already has a reading keeps it.
    pub fn insert(&mut self, text: String, value: Float64)
        ensures
            final(self)@ == old(self)@.push((text@, value)),
    {
        proof {
            crate::views::lemma_deep_view_push(self.entries, (text, value));
        }
        self.entries.push((text, value));
    }

    /// The reading of the text.
    pub fn get(&self, text: &String) -> (r: Option<Float64>)
        ensures
            r == reading(self@, text@),
    {
        let mut i: usize = 0;
        while i < self.entries.len()
            invariant
                i <= self.entries.len(),
                reading(self@, text@) == reading_from(self@, text@, i as int),
            decreases self.entries.len() - i,
        {
            if self.entries[i].0 == *text {
                return Some(self.entries[i].1);
            }
            i += 1;
        }
        None
    }
}

} // verus!
