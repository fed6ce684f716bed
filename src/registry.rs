//! The registry of days: each entry pairs a day number, derived from the entry's
//! name, with that day's entry point.

use vstd::prelude::*;

verus! {

/// Whether `c` is a decimal digit.
pub open spec fn is_digit(c: char) -> bool {
    '0' <= c && c <= '9'
}

/// The value of a decimal digit character.
pub open spec fn digit_value(c: char) -> nat {
    ((c as int) - ('0' as int)) as nat
}

/// The value of a string of decimal digits, most significant first.
pub open spec fn digits_value(s: Seq<char>) -> nat
    decreases s.len(),
{
    if s.len() == 0 {
        0
    } else {
        digits_value(s.drop_last()) * 10 + digit_value(s.last())
    }
}

/// Whether every character of `s` is a decimal digit.
pub open spec fn all_digits(s: Seq<char>) -> bool {
    forall|i: int| 0 <= i < s.len() ==> is_digit(#[trigger] s[i])
}

/// `s` without one leading '+', if it has one.
pub open spec fn without_plus(s: Seq<char>) -> Seq<char> {
    if s.len() > 0 && s[0] == '+' {
        s.drop_first()
    } else {
        s
    }
}

/// The `u8` written by `s`: an optional '+', then one or more decimal digits whose
/// value is at most 255.
pub open spec fn u8_text_value(s: Seq<char>) -> Option<u8> {
    let digits = without_plus(s);
    if digits.len() > 0 && all_digits(digits) && digits_value(digits) <= 255 {
        Some(digits_value(digits) as u8)
    } else {
        None
    }
}

/// The day number that a registered name encodes: "day" followed by a `u8`.
pub open spec fn day_number_of(name: Seq<char>) -> Option<u8> {
    if name.len() >= 3 && name[0] == 'd' && name[1] == 'a' && name[2] == 'y' {
        u8_text_value(name.skip(3))
    } else {
        None
    }
}

proof fn lemma_prefix_value_bounded(s: Seq<char>, k: int)
    requires
        0 <= k <= s.len(),
    ensures
        digits_value(s.take(k)) <= digits_value(s),
    decreases s.len(),
{
    if k < s.len() {
        assert(s.drop_last().take(k) =~= s.take(k));
        lemma_prefix_value_bounded(s.drop_last(), k);
    } else {
        assert(s.take(k) =~= s);
    }
}

/// The day number encoded by `name` ("day07" gives 7), or `None` where the name
/// encodes none.
pub fn day_number(name: &str) -> (r: Option<u8>)
    ensures
        r == day_number_of(name@),
{
    let len = name.unicode_len();
    if len < 3 || name.get_char(0) != 'd' || name.get_char(1) != 'a' || name.get_char(2) != 'y' {
        return None;
    }
    let ghost rest = name@.skip(3);
    let mut start: usize = 3;
    if len > 3 && name.get_char(3) == '+' {
        start = 4;
    }
    let ghost digits = name@.skip(start as int);
    assert(digits =~= without_plus(rest));
    if start == len {
        return None;
    }
    assert(day_number_of(name@) == u8_text_value(rest));
    let mut value: u32 = 0;
    let mut i: usize = start;
    while i < len
        invariant
            3 <= start < len,
            start <= i <= len,
            len == name@.len(),
            digits == name@.skip(start as int),
            day_number_of(name@) == u8_text_value(rest),
            digits == without_plus(rest),
            value <= 255,
            value == digits_value(digits.take(i - start)),
            forall|j: int| 0 <= j < i - start ==> is_digit(#[trigger] digits[j]),
        decreases len - i,
    {
        let c = name.get_char(i);
        assert(digits[i - start] == c);
        if !('0' <= c && c <= '9') {
            assert(digits.len() == len - start);
            assert(!all_digits(digits));
            return None;
        }
        assert(digits.take(i - start + 1).drop_last() =~= digits.take(i - start));
        assert(digits.take(i - start + 1).last() == c);
        assert(digit_value(c) == c as u32 - '0' as u32);
        value = value * 10 + (c as u32 - '0' as u32);
        assert(value == digits_value(digits.take(i - start + 1)));
        if value > 255 {
            proof {
                lemma_prefix_value_bounded(digits, i - start + 1);
            }
            return None;
        }
        i += 1;
    }
    assert(digits.take(i - start) =~= digits);
    assert(all_digits(digits));
    Some(value as u8)
}

/// One registered day: its number, its name, and its entry point.
pub struct RegistryEntry<F> {
    pub day: u8,
    pub name: String,
    pub entry: F,
}

/// Why a day cannot be registered.
#[derive(Debug, PartialEq, Eq)]
pub enum RegistryError {
    /// The name does not encode a day number.
    InvalidDayName(String),
}

impl<F> RegistryEntry<F> {
    /// The entry for a day named `name` ("day07"), whose number the name encodes;
    /// fails exactly when the name encodes no number.
    pub fn new(name: String, entry: F) -> (r: Result<RegistryEntry<F>, RegistryError>)
        ensures
            day_number_of(name@) is None ==> (r matches Err(RegistryError::InvalidDayName(n))
                && n@ == name@),
            day_number_of(name@) is Some ==> (r matches Ok(e) && e.day == day_number_of(
                name@,
            )->Some_0 && e.name@ == name@ && e.entry == entry),
    {
        match day_number(name.as_str()) {
            Some(day) => Ok(RegistryEntry { day, name, entry }),
            None => Err(RegistryError::InvalidDayName(name)),
        }
    }
}

} // verus!
