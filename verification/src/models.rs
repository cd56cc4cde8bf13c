use vstd::prelude::*;
use vstd::string::StringExecFns;
use crate::text::{dec_digits, u64_to_decimal};

verus! {

/// A feature of a roadmap quarter.
#[derive(Debug)]
pub struct Feature {
    pub id: String,
    pub title: String,
    pub description: String,
    pub completed: bool,
    pub status: String,
    pub color: String,
}

impl Clone for Feature {
    fn clone(&self) -> (r: Self)
        ensures
            r == *self,
    {
        Feature {
            id: self.id.clone(),
            title: self.title.clone(),
            description: self.description.clone(),
            completed: self.completed,
            status: self.status.clone(),
            color: self.color.clone(),
        }
    }
}

/// The status a feature read from a file has where the file gives none.
pub fn default_status() -> (r: String)
    ensures
        r@ == "Planned"@,
{
    String::from_str("Planned")
}

/// The color a feature read from a file has where the file gives none.
pub fn default_color() -> (r: String)
    ensures
        r@ == "#2196F3"@,
{
    String::from_str("#2196F3")
}

/// A quarter of a year with its features.
#[derive(Debug)]
pub struct Quarter {
    pub year: u32,
    pub quarter: u32,
    pub features: Vec<Feature>,
}

/// A quarter as plain values.
#[verifier::ext_equal]
pub struct QuarterView {
    pub year: u32,
    pub quarter: u32,
    pub features: Seq<Feature>,
}

impl View for Quarter {
    type V = QuarterView;

    open spec fn view(&self) -> QuarterView {
        QuarterView { year: self.year, quarter: self.quarter, features: self.features@ }
    }
}

/// A copy of a list of features.
pub fn clone_features(v: &Vec<Feature>) -> (r: Vec<Feature>)
    ensures
        r@ == v@,
{
    let mut r: Vec<Feature> = Vec::new();
    let mut i: usize = 0;
    while i < v.len()
        invariant
            i <= v@.len(),
            r@ == v@.take(i as int),
        decreases v@.len() - i,
    {
        r.push(v[i].clone());
        assert(r@ =~= v@.take(i + 1));
        i = i + 1;
    }
    assert(v@.take(v@.len() as int) =~= v@);
    r
}

impl Clone for Quarter {
    fn clone(&self) -> (r: Self)
        ensures
            r@ == self@,
    {
        Quarter { year: self.year, quarter: self.quarter, features: clone_features(&self.features) }
    }
}

/// The three-letter English name of a month, as `%b` writes it.
pub open spec fn month_abbrev(month: u32) -> Seq<char> {
    if month == 1 { "Jan"@ }
    else if month == 2 { "Feb"@ }
    else if month == 3 { "Mar"@ }
    else if month == 4 { "Apr"@ }
    else if month == 5 { "May"@ }
    else if month == 6 { "Jun"@ }
    else if month == 7 { "Jul"@ }
    else if month == 8 { "Aug"@ }
    else if month == 9 { "Sep"@ }
    else if month == 10 { "Oct"@ }
    else if month == 11 { "Nov"@ }
    else { "Dec"@ }
}

/// A day of the month in two digits, as `%d` writes it.
pub open spec fn two_digits(day: u32) -> Seq<char> {
    if day < 10 { seq!['0'] + dec_digits(day as nat) } else { dec_digits(day as nat) }
}

/// Whether a year of the proleptic Gregorian calendar is a leap year.
pub open spec fn is_leap_year(year: int) -> bool {
    (year % 4 == 0 && year % 100 != 0) || year % 400 == 0
}

/// The number of days of a month.
pub open spec fn days_in_month(year: int, month: u32) -> u32 {
    if month == 2 {
        if is_leap_year(year) { 29 } else { 28 }
    } else if month == 4 || month == 6 || month == 9 || month == 11 {
        30
    } else {
        31
    }
}

/// The years `chrono::NaiveDate` can hold.
pub open spec fn is_date_year(year: int) -> bool {
    -262143 <= year <= 262142
}

/// `chrono::NaiveDate::from_ymd_opt` followed by `format("%b %d")`: the date written as a
/// month abbreviation and a two-digit day. Trusted to give a text exactly for the dates the
/// calendar has in chrono's year range, and that text as `%b %d` is documented to write it.
#[verifier::external_body]
fn month_day_label(year: i32, month: u32, day: u32) -> (r: Option<String>)
    ensures
        r is Some <==> (is_date_year(year as int) && 1 <= month <= 12 && 1 <= day <= days_in_month(year as int, month)),
        r matches Some(s) ==> s@ == month_abbrev(month) + " "@ + two_digits(day),
{
    match chrono::NaiveDate::from_ymd_opt(year, month, day) {
        Some(date) => Some(date.format("%b %d").to_string()),
        None => None,
    }
}

/// The year a `u32` stands for once it is read as an `i32`, as `as i32` reads it.
pub open spec fn year_as_i32(year: u32) -> int {
    if year < 0x8000_0000 { year as int } else { year as int - 0x1_0000_0000 }
}

/// The first and last month of a quarter.
pub open spec fn quarter_months(quarter: u32) -> (u32, u32) {
    if quarter == 1 { (1, 3) }
    else if quarter == 2 { (4, 6) }
    else if quarter == 3 { (7, 9) }
    else { (10, 12) }
}

/// The span of a quarter as shown under its name, such as `Jan 01 - Mar 31`.
pub open spec fn quarter_span(year: u32, quarter: u32) -> Seq<char> {
    let (first, last) = quarter_months(quarter);
    month_abbrev(first) + " "@ + two_digits(1) + " - "@ + month_abbrev(last) + " "@
        + two_digits(days_in_month(year_as_i32(year), last))
}

/// The name of a quarter, such as `Q1 2025`.
pub open spec fn quarter_name(year: u32, quarter: u32) -> Seq<char> {
    "Q"@ + dec_digits(quarter as nat) + " "@ + dec_digits(year as nat)
}

impl Quarter {
    /// An empty quarter.
    pub fn new(year: u32, quarter: u32) -> (r: Self)
        ensures
            r.year == year,
            r.quarter == quarter,
            r.features@.len() == 0,
    {
        Quarter { year, quarter, features: Vec::new() }
    }

    /// The quarter's name: `Q`, its number, a space and its year.
    pub fn name(&self) -> (r: String)
        ensures
            r@ == quarter_name(self.year, self.quarter),
    {
        let mut s = String::from_str("Q");
        let q = u64_to_decimal(self.quarter as u64);
        s.append(q.as_str());
        s.append(" ");
        let y = u64_to_decimal(self.year as u64);
        s.append(y.as_str());
        s
    }

    /// The first and last day of the quarter. Defined for the quarters 1 to 4 of the years that
    /// the calendar library holds.
    pub fn date_range(&self) -> (r: String)
        requires
            1 <= self.quarter <= 4,
            is_date_year(year_as_i32(self.year)),
        ensures
            r@ == quarter_span(self.year, self.quarter),
    {
        let (first, last): (u32, u32) = if self.quarter == 1 {
            (1, 3)
        } else if self.quarter == 2 {
            (4, 6)
        } else if self.quarter == 3 {
            (7, 9)
        } else {
            (10, 12)
        };
        let y = self.year;
        let year = y as i32;
        if y < 0x8000_0000 {
            assert(y < 0x8000_0000 ==> (y as i32) as int == y as int) by (bit_vector);
        } else {
            assert(y >= 0x8000_0000 ==> (y as i32) as int == y as int - 0x1_0000_0000) by (bit_vector);
        }
        assert(year as int == year_as_i32(self.year));
        let last_day: u32 = if last == 6 || last == 9 { 30 } else { 31 };
        let start = match month_day_label(year, first, 1) {
            Some(s) => s,
            None => { assert(false); String::new() },
        };
        let end = match month_day_label(year, last, last_day) {
            Some(s) => s,
            None => { assert(false); String::new() },
        };
        let mut r = start;
        r.append(" - ");
        r.append(end.as_str());
        r
    }
}

/// A roadmap as saved to a file: its quarters.
#[derive(Debug)]
pub struct RoadmapFile {
    pub quarters: Vec<Quarter>,
}

} // verus!
