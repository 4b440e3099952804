//! The wire form of a calendar date: eight decimal digits, four for the
//! year, two for the month, two for the day, each zero-padded. The
//! four-digit year is the deliberate choice for the `date` parameter: it
//! keeps every date at exactly eight digits and leaves no two dates with
//! one text.

use vstd::prelude::*;
use vstd::string::StrSliceExecFns;
use vstd::string::StringExecFns;
use vstd::arithmetic::div_mod::{lemma_fundamental_div_mod, lemma_mod_mod};
use crate::dates::{month_code, month_from_code, valid_date, Month, TDate};

verus! {

/// The decimal digit character for a value between 0 and 9.
pub open spec fn digit_char(d: int) -> char {
    if d == 0 { '0' }
    else if d == 1 { '1' }
    else if d == 2 { '2' }
    else if d == 3 { '3' }
    else if d == 4 { '4' }
    else if d == 5 { '5' }
    else if d == 6 { '6' }
    else if d == 7 { '7' }
    else if d == 8 { '8' }
    else { '9' }
}

/// The value of a decimal digit character, or -1 for any other character.
pub open spec fn digit_value(c: char) -> int {
    if c == '0' { 0 }
    else if c == '1' { 1 }
    else if c == '2' { 2 }
    else if c == '3' { 3 }
    else if c == '4' { 4 }
    else if c == '5' { 5 }
    else if c == '6' { 6 }
    else if c == '7' { 7 }
    else if c == '8' { 8 }
    else if c == '9' { 9 }
    else { -1 }
}

/// A number between 0 and 99 as two zero-padded decimal digits.
pub open spec fn two_digits(n: int) -> Seq<char> {
    seq![digit_char(n / 10), digit_char(n % 10)]
}

/// A number between 0 and 9999 as four zero-padded decimal digits.
pub open spec fn four_digits(n: int) -> Seq<char> {
    seq![
        digit_char(n / 1000),
        digit_char((n % 1000) / 100),
        digit_char((n % 100) / 10),
        digit_char(n % 10),
    ]
}

/// The wire form of a date: `YYYYMMDD`.
pub open spec fn wire_format(d: TDate) -> Seq<char> {
    four_digits(d.year as int) + two_digits(month_code(d.month)) + two_digits(d.day as int)
}

/// What parsing a wire-form date yields: the date, if the text is eight
/// decimal digits naming a real calendar date, and nothing otherwise.
pub open spec fn parse_wire_spec(s: Seq<char>) -> Option<TDate> {
    if s.len() == 8 && (forall |i: int| 0 <= i < 8 ==> digit_value(#[trigger] s[i]) >= 0) {
        let y = 1000 * digit_value(s[0]) + 100 * digit_value(s[1]) + 10 * digit_value(s[2])
            + digit_value(s[3]);
        let m = 10 * digit_value(s[4]) + digit_value(s[5]);
        let d = 10 * digit_value(s[6]) + digit_value(s[7]);
        if valid_date(y, m, d) {
            Some(TDate { day: d as u8, month: month_from_code(m), year: y as i32 })
        } else {
            None
        }
    } else {
        None
    }
}

/// The one-character string for a decimal digit value.
pub(crate) fn digit_str(n: u8) -> (r: &'static str)
    requires
        n < 10,
    ensures
        r@ == seq![digit_char(n as int)],
{
    proof {
        reveal_strlit("0");
        reveal_strlit("1");
        reveal_strlit("2");
        reveal_strlit("3");
        reveal_strlit("4");
        reveal_strlit("5");
        reveal_strlit("6");
        reveal_strlit("7");
        reveal_strlit("8");
        reveal_strlit("9");
    }
    let r: &'static str = match n {
        0 => "0",
        1 => "1",
        2 => "2",
        3 => "3",
        4 => "4",
        5 => "5",
        6 => "6",
        7 => "7",
        8 => "8",
        _ => "9",
    };
    proof {
        assert(r@ =~= seq![digit_char(n as int)]);
    }
    r
}

/// The value of a decimal digit character, if it is one.
fn digit_of_char(c: char) -> (r: Option<u8>)
    ensures
        r matches Some(v) ==> v < 10 && digit_value(c) == v as int,
        r is None ==> digit_value(c) < 0,
{
    match c {
        '0' => Some(0),
        '1' => Some(1),
        '2' => Some(2),
        '3' => Some(3),
        '4' => Some(4),
        '5' => Some(5),
        '6' => Some(6),
        '7' => Some(7),
        '8' => Some(8),
        '9' => Some(9),
        _ => None,
    }
}

impl TDate {
    /// The date in its wire form, `YYYYMMDD`.
    pub fn format(&self) -> (r: String)
        requires
            self.valid(),
        ensures
            r@ == wire_format(*self),
    {
        let y: u32 = self.year as u32;
        let m: u32 = self.month.code() as u32;
        let d: u32 = self.day as u32;
        let mut s = String::new();
        s.append(digit_str((y / 1000) as u8));
        s.append(digit_str(((y % 1000) / 100) as u8));
        s.append(digit_str(((y % 100) / 10) as u8));
        s.append(digit_str((y % 10) as u8));
        s.append(digit_str((m / 10) as u8));
        s.append(digit_str((m % 10) as u8));
        s.append(digit_str((d / 10) as u8));
        s.append(digit_str((d % 10) as u8));
        proof {
            assert(s@ =~= wire_format(*self));
        }
        s
    }

    /// Parses a date from its wire form, `YYYYMMDD`.
    ///
    /// Succeeds exactly on eight decimal digits that name a real calendar
    /// date.
    pub fn parse_wire(s: &str) -> (r: Option<TDate>)
        ensures
            r == parse_wire_spec(s@),
    {
        if s.unicode_len() != 8 {
            return None;
        }
        let mut digits: Vec<u8> = Vec::new();
        let mut i: usize = 0;
        while i < 8
            invariant
                s@.len() == 8,
                i <= 8,
                digits@.len() == i as int,
                forall |k: int| 0 <= k < i ==>
                    digits@[k] < 10 && digit_value(s@[k]) == #[trigger] digits@[k] as int,
            decreases 8 - i,
        {
            match digit_of_char(s.get_char(i)) {
                Some(v) => {
                    digits.push(v);
                }
                None => {
                    return None;
                }
            }
            i += 1;
        }
        let y: u32 = 1000 * (digits[0] as u32) + 100 * (digits[1] as u32)
            + 10 * (digits[2] as u32) + (digits[3] as u32);
        let m: u32 = 10 * (digits[4] as u32) + (digits[5] as u32);
        let d: u32 = 10 * (digits[6] as u32) + (digits[7] as u32);
        if 1 <= m && m <= 12 {
            let month = Month::from_code(m as u8).unwrap();
            match TDate::from_calendar_date(y as i32, month, d as u8) {
                Ok(date) => Some(date),
                Err(_) => None,
            }
        } else {
            None
        }
    }
}

/// Formatting a valid date and parsing the result gives the date back: the
/// wire form loses nothing.
pub proof fn lemma_wire_round_trip(d: TDate)
    requires
        d.valid(),
    ensures
        parse_wire_spec(wire_format(d)) == Some(d),
{
    let s = wire_format(d);
    let y = d.year as int;
    let m = month_code(d.month);
    let dd = d.day as int;
    assert(s.len() == 8);
    assert(s[0] == digit_char(y / 1000));
    assert(s[1] == digit_char((y % 1000) / 100));
    assert(s[2] == digit_char((y % 100) / 10));
    assert(s[3] == digit_char(y % 10));
    assert(s[4] == digit_char(m / 10));
    assert(s[5] == digit_char(m % 10));
    assert(s[6] == digit_char(dd / 10));
    assert(s[7] == digit_char(dd % 10));
    lemma_fundamental_div_mod(y, 1000);
    lemma_fundamental_div_mod(y % 1000, 100);
    lemma_fundamental_div_mod(y % 100, 10);
    lemma_mod_mod(y, 100, 10);
    lemma_mod_mod(y, 10, 10);
    assert(100 * 10 == 1000);
    assert(10 * 10 == 100);
    assert((y % 1000) % 100 == y % 100);
    assert((y % 100) % 10 == y % 10);
    assert(y == 1000 * (y / 1000) + 100 * ((y % 1000) / 100) + 10 * ((y % 100) / 10) + y % 10);
    lemma_fundamental_div_mod(m, 10);
    lemma_fundamental_div_mod(dd, 10);
    assert(forall |k: int| 0 <= k < 10 ==> digit_value(digit_char(k)) == k);
}

/// A nonnegative number in decimal, without padding.
pub open spec fn dec_digits(n: int) -> Seq<char>
    decreases n,
{
    if n < 10 { seq![digit_char(n)] } else { dec_digits(n / 10).push(digit_char(n % 10)) }
}

/// Renders a number in decimal.
pub fn u64_to_string(n: u64) -> (r: String)
    ensures
        r@ == dec_digits(n as int),
    decreases n,
{
    if n < 10 {
        let mut s = String::new();
        s.append(digit_str(n as u8));
        proof {
            assert(s@ =~= dec_digits(n as int));
        }
        s
    } else {
        let mut s = u64_to_string(n / 10);
        s.append(digit_str((n % 10) as u8));
        proof {
            assert(s@ =~= dec_digits(n as int));
        }
        s
    }
}

/// Whether two strings hold the same characters.
pub fn str_eq(a: &str, b: &str) -> (r: bool)
    ensures
        r == (a@ == b@),
{
    let alen = a.unicode_len();
    if alen != b.unicode_len() {
        return false;
    }
    let mut i: usize = 0;
    while i < alen
        invariant
            alen == a@.len(),
            a@.len() == b@.len(),
            i <= alen,
            forall |k: int| 0 <= k < i ==> a@[k] == b@[k],
        decreases alen - i,
    {
        if a.get_char(i) != b.get_char(i) {
            return false;
        }
        i += 1;
    }
    proof {
        assert(a@ =~= b@);
    }
    true
}

} // verus!
