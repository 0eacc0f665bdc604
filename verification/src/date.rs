//! Calendar dates: reading one from text and writing one into a name.

use vstd::prelude::*;
use chrono::Datelike;
use crate::text::{
    decimal, lemma_decimal_len, push_decimal, push_zero_padded, string_of, zero_padded,
};

verus! {

/// A calendar day without a time of day.
#[derive(Clone, Copy, Debug, PartialEq, Eq)]
pub struct DateKey {
    pub year: i32,
    pub month: u32,
    pub day: u32,
}

/// What `chrono::NaiveDate::parse_from_str` makes of `text` under `format`:
/// year, month and day of the date, or nothing where it reports an error.
pub uninterp spec fn parsed_date(text: Seq<char>, format: Seq<char>) -> Option<(int, int, int)>;

/// The date that `text` holds under `format`.
pub open spec fn date_in(text: Seq<char>, format: Seq<char>) -> Option<DateKey> {
    match parsed_date(text, format) {
        Some((year, month, day)) => Some(
            DateKey { year: year as i32, month: month as u32, day: day as u32 },
        ),
        None => None,
    }
}

/// Year, month and day of an optional date.
pub open spec fn date_parts(date: Option<DateKey>) -> Option<(int, int, int)> {
    match date {
        Some(d) => Some((d.year as int, d.month as int, d.day as int)),
        None => None,
    }
}

/// The three forms in which this crate reads a date.
#[derive(Clone, Copy, Debug, PartialEq, Eq)]
pub enum DatePattern {
    /// `YYYYMMDD`, as in a file name.
    Compact,
    /// `YYYY-MM-DD`, as the title service writes a release day.
    Dashed,
    /// `YYYY-MM-DD HH:MM:SS`, as the capture time of a picture is shown.
    Timestamp,
}

impl DatePattern {
    /// The strftime pattern of the form.
    pub open spec fn text(self) -> Seq<char> {
        match self {
            DatePattern::Compact => "%Y%m%d"@,
            DatePattern::Dashed => "%Y-%m-%d"@,
            DatePattern::Timestamp => "%Y-%m-%d %H:%M:%S"@,
        }
    }

    /// The strftime pattern of the form.
    pub fn as_str(&self) -> (pattern: &'static str)
        ensures
            pattern@ == self.text(),
    {
        match self {
            DatePattern::Compact => "%Y%m%d",
            DatePattern::Dashed => "%Y-%m-%d",
            DatePattern::Timestamp => "%Y-%m-%d %H:%M:%S",
        }
    }
}

/// Calls `chrono::NaiveDate::parse_from_str`, which reads `text` by the
/// strftime pattern `format`, and hands back the date's year, month and day
/// (`Datelike`), or `None` for any parse error. Only the three patterns of
/// `DatePattern` are handed in. The contract claims that the answer is a
/// function of the two texts, and that month and day lie in the ranges that
/// `Datelike::month` and `Datelike::day` document.
#[verifier::external_body]
fn parse_date(text: &str, format: &str) -> (r: Option<DateKey>)
    requires
        format@ == "%Y%m%d"@ || format@ == "%Y-%m-%d"@ || format@ == "%Y-%m-%d %H:%M:%S"@,
    ensures
        date_parts(r) == parsed_date(text@, format@),
        r matches Some(date) ==> date.in_range(),
{
    match chrono::NaiveDate::parse_from_str(text, format) {
        Ok(date) => Some(DateKey { year: date.year(), month: date.month(), day: date.day() }),
        Err(_) => None,
    }
}

/// Reads a date from `text` in one of the three forms. A text that does not
/// have the form, and one that names no day of the calendar, give none.
pub fn read_date(text: &str, pattern: DatePattern) -> (r: Option<DateKey>)
    ensures
        r == date_in(text@, pattern.text()),
        r matches Some(date) ==> date.in_range(),
{
    parse_date(text, pattern.as_str())
}

/// A year as it stands in names: four digits from 0 to 9999, else a sign
/// and at least four digits.
pub open spec fn year_text(year: int) -> Seq<char> {
    if 0 <= year <= 9999 {
        zero_padded(year as nat, 4)
    } else if year < 0 {
        seq!['-'] + zero_padded((-year) as nat, 4)
    } else {
        seq!['+'] + decimal(year as nat)
    }
}

/// Appends the year in the form of `year_text`.
pub fn push_year(out: &mut Vec<char>, year: i32)
    ensures
        final(out)@ == old(out)@ + year_text(year as int),
{
    let ghost before = out@;
    let wide: i64 = year as i64;
    if 0 <= wide && wide <= 9999 {
        push_zero_padded(out, wide as u64, 4);
    } else if wide < 0 {
        out.push('-');
        push_zero_padded(out, (-wide) as u64, 4);
        assert(out@ =~= before + year_text(year as int));
    } else {
        out.push('+');
        push_decimal(out, wide as u64);
        assert(out@ =~= before + year_text(year as int));
    }
}

impl DateKey {
    /// The month is one of the twelve, and the day one of at most 31.
    pub open spec fn in_range(self) -> bool {
        1 <= self.month <= 12 && 1 <= self.day <= 31
    }

    /// The date as `YYYYMMDD`.
    pub open spec fn compact(self) -> Seq<char> {
        year_text(self.year as int) + zero_padded(self.month as nat, 2) + zero_padded(
            self.day as nat,
            2,
        )
    }

    /// The date as `YYYY-MM-DD`.
    pub open spec fn dashed(self) -> Seq<char> {
        year_text(self.year as int) + seq!['-'] + zero_padded(self.month as nat, 2) + seq!['-']
            + zero_padded(self.day as nat, 2)
    }

    /// The year as `YYYY`.
    pub open spec fn year_name(self) -> Seq<char> {
        year_text(self.year as int)
    }

    /// Writes the date as `YYYYMMDD`.
    pub fn to_compact(&self) -> (text: String)
        ensures
            text@ == self.compact(),
    {
        let mut out: Vec<char> = Vec::new();
        self.push_compact(&mut out);
        assert(out@ =~= self.compact());
        string_of(&out)
    }

    /// Writes the date as `YYYY-MM-DD`.
    pub fn to_dashed(&self) -> (text: String)
        ensures
            text@ == self.dashed(),
    {
        let mut out: Vec<char> = Vec::new();
        self.push_dashed(&mut out);
        assert(out@ =~= self.dashed());
        string_of(&out)
    }

    /// Writes the year as `YYYY`.
    pub fn to_year(&self) -> (text: String)
        ensures
            text@ == self.year_name(),
    {
        let mut out: Vec<char> = Vec::new();
        push_year(&mut out, self.year);
        assert(out@ =~= self.year_name());
        string_of(&out)
    }

    /// Appends the date as `YYYYMMDD`.
    pub fn push_compact(&self, out: &mut Vec<char>)
        ensures
            final(out)@ == old(out)@ + self.compact(),
    {
        let ghost before = out@;
        push_year(out, self.year);
        push_zero_padded(out, self.month as u64, 2);
        push_zero_padded(out, self.day as u64, 2);
        assert(out@ =~= before + self.compact());
    }

    /// Appends the date as `YYYY-MM-DD`.
    pub fn push_dashed(&self, out: &mut Vec<char>)
        ensures
            final(out)@ == old(out)@ + self.dashed(),
    {
        let ghost before = out@;
        push_year(out, self.year);
        out.push('-');
        push_zero_padded(out, self.month as u64, 2);
        out.push('-');
        push_zero_padded(out, self.day as u64, 2);
        assert(out@ =~= before + self.dashed());
    }
}

/// A date of the years 0 to 9999 is written with four digits for the year
/// and two each for month and day.
pub proof fn lemma_date_text_len(date: DateKey)
    requires
        date.in_range(),
        0 <= date.year <= 9999,
    ensures
        date.year_name().len() == 4,
        date.compact().len() == 8,
        date.dashed().len() == 10,
{
    lemma_decimal_len(date.year as nat);
    lemma_decimal_len(date.month as nat);
    lemma_decimal_len(date.day as nat);
}

} // verus!
