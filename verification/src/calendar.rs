//! The date picker: a calendar day that the arrow keys move by days or by
//! months, and that is written back into a form field as `YYYY-MM-DD`.
use vstd::prelude::*;
use chrono::Datelike;
use crate::app::{AppMode, EditField};
use crate::text::{decimal, push_char, push_decimal_u64};

verus! {

/// The earliest year chrono's dates reach.
pub const MIN_YEAR: i32 = -262_143;
/// The latest year chrono's dates reach.
pub const MAX_YEAR: i32 = 262_142;

/// Whether `y` is a leap year of the proleptic Gregorian calendar.
pub open spec fn is_leap(y: int) -> bool {
    (y % 4 == 0 && y % 100 != 0) || y % 400 == 0
}

/// Days in month `m` (1 to 12) of year `y`.
pub open spec fn days_in_month(y: int, m: int) -> int {
    if m == 2 {
        if is_leap(y) { 29 } else { 28 }
    } else if m == 4 || m == 6 || m == 9 || m == 11 {
        30
    } else {
        31
    }
}

/// Whether chrono has a date with year `y`, month `m` and day `d`.
pub open spec fn date_exists(y: int, m: int, d: int) -> bool {
    MIN_YEAR <= y <= MAX_YEAR && 1 <= m <= 12 && 1 <= d <= days_in_month(y, m)
}

/// The day before the first of month `m + 1` of year `y`, as chrono finds
/// it (from that first, or from the next New Year's Day when month `m + 1`
/// does not exist), or 28 where chrono finds no such day.
pub open spec fn last_day_spec(y: int, m: int) -> int {
    if date_exists(y, m + 1, 1) {
        if m + 1 == 1 {
            if date_exists(y - 1, 12, 31) { 31 } else { 28 }
        } else {
            days_in_month(y, m)
        }
    } else if date_exists(y + 1, 1, 1) {
        if date_exists(y, 12, 31) { 31 } else { 28 }
    } else {
        28
    }
}

/// Rust's `/` on integers: the quotient rounded toward zero (`b > 0`).
pub open spec fn trunc_div(a: int, b: int) -> int {
    if a >= 0 { a / b } else { -((-a) / b) }
}

/// Rust's `%` on integers: the remainder that takes the sign of `a` (`b > 0`).
pub open spec fn trunc_rem(a: int, b: int) -> int {
    a - b * trunc_div(a, b)
}

fn is_leap_year(y: i32) -> (r: bool)
    ensures
        r == is_leap(y as int),
{
    let r4 = y % 4;
    let r100 = y % 100;
    let r400 = y % 400;
    proof {
        assert(r4 == 0 <==> (y as int) % 4 == 0);
        assert(r100 == 0 <==> (y as int) % 100 == 0);
        assert(r400 == 0 <==> (y as int) % 400 == 0);
    }
    (r4 == 0 && r100 != 0) || r400 == 0
}

fn month_days(y: i32, m: u32) -> (r: u32)
    ensures
        r as int == days_in_month(y as int, m as int),
{
    if m == 2 {
        if is_leap_year(y) { 29 } else { 28 }
    } else if m == 4 || m == 6 || m == 9 || m == 11 {
        30
    } else {
        31
    }
}

fn exists_date(y: i32, m: u32, d: u32) -> (r: bool)
    ensures
        r == date_exists(y as int, m as int, d as int),
{
    MIN_YEAR <= y && y <= MAX_YEAR && 1 <= m && m <= 12 && 1 <= d && d <= month_days(y, m)
}

/// The last day of month `month` of `year` as the date picker finds it.
pub fn last_day(year: i32, month: u32) -> (r: u32)
    requires
        month < u32::MAX,
        i32::MIN < year < i32::MAX,
    ensures
        r as int == last_day_spec(year as int, month as int),
{
    if exists_date(year, month + 1, 1) {
        if month + 1 == 1 {
            if exists_date(year - 1, 12, 31) { 31 } else { 28 }
        } else {
            month_days(year, month)
        }
    } else if exists_date(year + 1, 1, 1) {
        if exists_date(year, 12, 31) { 31 } else { 28 }
    } else {
        28
    }
}

/// The date chrono reads from `s` under the strftime format `fmt`, as
/// (year, month, day).
pub uninterp spec fn formatted_date_ymd(s: Seq<char>, fmt: Seq<char>) -> Option<(i32, u32, u32)>;

/// Days in year `y`.
pub open spec fn year_len(y: int) -> int {
    if is_leap(y) { 366 } else { 365 }
}

/// Days from 0001-01-01 to New Year's Day of year `y` (negative before).
pub open spec fn days_before_year(y: int) -> int {
    365 * (y - 1) + (y - 1) / 4 - (y - 1) / 100 + (y - 1) / 400
}

/// Days of year `y` before the first of month `m` (1 to 12).
pub open spec fn days_before_month(y: int, m: int) -> int {
    let leap_day = if is_leap(y) { 1int } else { 0int };
    if m <= 1 { 0 }
    else if m == 2 { 31 }
    else if m == 3 { 59 + leap_day }
    else if m == 4 { 90 + leap_day }
    else if m == 5 { 120 + leap_day }
    else if m == 6 { 151 + leap_day }
    else if m == 7 { 181 + leap_day }
    else if m == 8 { 212 + leap_day }
    else if m == 9 { 243 + leap_day }
    else if m == 10 { 273 + leap_day }
    else if m == 11 { 304 + leap_day }
    else { 334 + leap_day }
}

/// The number of day (`y`, `m`, `d`) of the proleptic Gregorian calendar,
/// counted from 1970-01-01 (negative before).
pub open spec fn days_from_epoch(y: int, m: int, d: int) -> int {
    days_before_year(y) + days_before_month(y, m) + d - 1 - 719_162
}

/// Whether day number `n` lies within the dates chrono has.
pub open spec fn day_in_range(n: int) -> bool {
    days_from_epoch(MIN_YEAR as int, 1, 1) <= n <= days_from_epoch(MAX_YEAR as int, 12, 31)
}

proof fn lemma_year_step(y: int)
    ensures
        days_before_year(y + 1) == days_before_year(y) + year_len(y),
{
}

proof fn lemma_years_apart(y1: int, y2: int)
    requires
        y1 < y2,
    ensures
        days_before_year(y1) + year_len(y1) <= days_before_year(y2),
    decreases y2 - y1,
{
    lemma_year_step(y1);
    if y2 > y1 + 1 {
        lemma_years_apart(y1 + 1, y2);
    }
}

proof fn lemma_day_of_year(y: int, m: int, d: int)
    requires
        1 <= m <= 12,
        1 <= d <= days_in_month(y, m),
    ensures
        0 <= days_before_month(y, m) + d - 1 < year_len(y),
        forall|m2: int| m < m2 <= 12 ==> days_before_month(y, m) + d - 1 < #[trigger] days_before_month(y, m2),
{
}

/// A calendar day is fixed by its number: two dates with the same
/// [`days_from_epoch`] are the same date.
pub proof fn lemma_day_number_fixes_date(y1: int, m1: int, d1: int, y2: int, m2: int, d2: int)
    requires
        date_exists(y1, m1, d1),
        date_exists(y2, m2, d2),
        days_from_epoch(y1, m1, d1) == days_from_epoch(y2, m2, d2),
    ensures
        y1 == y2 && m1 == m2 && d1 == d2,
{
    lemma_day_of_year(y1, m1, d1);
    lemma_day_of_year(y2, m2, d2);
    if y1 < y2 {
        lemma_years_apart(y1, y2);
    } else if y2 < y1 {
        lemma_years_apart(y2, y1);
    } else {
        if m1 < m2 {
            assert(days_before_month(y1, m1) + d1 - 1 < days_before_month(y1, m2));
        } else if m2 < m1 {
            assert(days_before_month(y2, m2) + d2 - 1 < days_before_month(y2, m1));
        }
    }
}

/// Whether the date (`y`, `m`, `d`) exists and the day `delta` days on lies
/// within chrono's range.
pub open spec fn shift_possible(y: int, m: int, d: int, delta: int) -> bool {
    date_exists(y, m, d) && day_in_range(days_from_epoch(y, m, d) + delta)
}

/// Whether (`y2`, `m2`, `d2`) is a date and the day `delta` days after
/// (`y`, `m`, `d`).
pub open spec fn shifted_to(y: int, m: int, d: int, delta: int, y2: int, m2: int, d2: int) -> bool {
    date_exists(y2, m2, d2) && days_from_epoch(y2, m2, d2) == days_from_epoch(y, m, d) + delta
}

/// chrono's `NaiveDate::checked_add_signed` with a whole-day `TimeDelta`
/// (`TimeDelta::try_days`), on the date built by `NaiveDate::from_ymd_opt`.
/// The contract claims that a date comes back exactly when the start is a
/// date and the day `delta` days on is within chrono's range, and that it
/// is that day of the calendar.
#[verifier::external_body]
fn shift_date(year: i32, month: u32, day: u32, delta: i64) -> (r: Option<(i32, u32, u32)>)
    ensures
        r is Some <==> shift_possible(year as int, month as int, day as int, delta as int),
        r matches Some(t) ==> shifted_to(year as int, month as int, day as int, delta as int, t.0 as int, t.1 as int, t.2 as int),
{
    let start = match chrono::NaiveDate::from_ymd_opt(year, month, day) {
        Some(d) => d,
        None => return None,
    };
    let span = match chrono::TimeDelta::try_days(delta) {
        Some(t) => t,
        None => return None,
    };
    match start.checked_add_signed(span) {
        Some(d) => Some((d.year(), d.month(), d.day())),
        None => None,
    }
}

/// chrono's `NaiveDate::parse_from_str`, the date taken apart into (year,
/// month, day). The contract names the result and states that it is a day
/// of the calendar, as every `NaiveDate` is.
#[verifier::external_body]
fn parse_date_ymd(s: &str, fmt: &str) -> (r: Option<(i32, u32, u32)>)
    ensures
        r == formatted_date_ymd(s@, fmt@),
        r matches Some(d) ==> date_exists(d.0 as int, d.1 as int, d.2 as int),
{
    match chrono::NaiveDate::parse_from_str(s, fmt) {
        Ok(d) => Some((d.year(), d.month(), d.day())),
        Err(_) => None,
    }
}

/// Today's date (UTC) from chrono's `Utc::now`. Which day it is depends on
/// the clock; the contract states only that it is a day of the calendar, as
/// every `NaiveDate` is. `Utc::now` panics when the system clock reads a
/// time before 1970, a state of the machine that no argument can rule out.
#[verifier::external_body]
fn today_ymd() -> (r: (i32, u32, u32))
    ensures
        date_exists(r.0 as int, r.1 as int, r.2 as int),
{
    let d = chrono::Utc::now().date_naive();
    (d.year(), d.month(), d.day())
}

/// The date picker's state: the day shown, the form field it writes to
/// and the mode to return to.
#[derive(Clone, Copy, Debug, PartialEq, Eq, Structural)]
pub struct CalendarState {
    pub year: i32,
    pub month: u32,
    pub day: u32,
    pub field_idx: usize,
    pub is_edit: bool,
    pub from_mode: AppMode,
}

/// The month count `year * 12 + month - 1 + delta` that a move by months
/// starts from, when it is computed without leaving `i32`.
pub open spec fn month_total_fits(year: i32, month: u32, delta: i32) -> bool {
    let m = month as i32;
    &&& i32::MIN <= year * 12 <= i32::MAX
    &&& i32::MIN <= year * 12 + m <= i32::MAX
    &&& i32::MIN <= year * 12 + m - 1 <= i32::MAX
    &&& i32::MIN <= year * 12 + m - 1 + delta <= i32::MAX
}

/// The picker after moving `delta` months: the month count is split back
/// into year and month with Rust's truncating `/` and `%`, and the day is
/// clamped to the new month's last day.
pub open spec fn move_months_spec(s: CalendarState, delta: i32) -> CalendarState {
    let total = s.year * 12 + (s.month as i32) - 1 + delta;
    let year = trunc_div(total, 12);
    let month = (trunc_rem(total, 12) + 1) as u32;
    let max_day = last_day_spec(year, month as int);
    CalendarState { year: year as i32, month, day: if s.day < max_day { s.day } else { max_day as u32 }, ..s }
}

/// Whether a move by `delta` months stays within what the picker's
/// arithmetic can compute: the month count fits `i32`, and the month it
/// gives is not the one whose successor overflows `u32`.
pub open spec fn move_months_ok(s: CalendarState, delta: i32) -> bool {
    &&& month_total_fits(s.year, s.month, delta)
    &&& ((trunc_rem(s.year * 12 + (s.month as i32) - 1 + delta, 12) + 1) as u32) < u32::MAX
}

impl CalendarState {
    /// Opens the picker on the date written in `value` (`YYYY-MM-DD`), or on
    /// today when it holds none, for field `field_idx` of the trade form
    /// (`is_edit`) or of the close form, returning to `from_mode`.
    pub fn open(value: &str, field_idx: usize, is_edit: bool, from_mode: AppMode) -> (r: CalendarState)
        ensures
            r.field_idx == field_idx,
            r.is_edit == is_edit,
            r.from_mode == from_mode,
            formatted_date_ymd(value@, "%Y-%m-%d"@) matches Some(d) ==> (r.year, r.month, r.day) == d,
            date_exists(r.year as int, r.month as int, r.day as int),
    {
        let (year, month, day) = match parse_date_ymd(value, "%Y-%m-%d") {
            Some(d) => d,
            None => today_ymd(),
        };
        CalendarState { year, month, day, field_idx, is_edit, from_mode }
    }

    /// Moves the day by `delta` days; where chrono has no such day the
    /// picker stays where it is.
    pub fn move_days(&mut self, delta: i64)
        ensures
            shift_possible(old(self).year as int, old(self).month as int, old(self).day as int, delta as int) ==> {
                &&& shifted_to(old(self).year as int, old(self).month as int, old(self).day as int, delta as int,
                    final(self).year as int, final(self).month as int, final(self).day as int)
                &&& final(self).field_idx == old(self).field_idx
                &&& final(self).is_edit == old(self).is_edit
                &&& final(self).from_mode == old(self).from_mode
            },
            !shift_possible(old(self).year as int, old(self).month as int, old(self).day as int, delta as int)
                ==> *final(self) == *old(self),
    {
        if let Some((y, m, d)) = shift_date(self.year, self.month, self.day, delta) {
            self.year = y;
            self.month = m;
            self.day = d;
        }
    }

    /// Moves by `delta` months, keeping the day where the new month has it
    /// and clamping it to the month's last day otherwise.
    pub fn move_months(&mut self, delta: i32)
        requires
            move_months_ok(*old(self), delta),
        ensures
            *final(self) == move_months_spec(*old(self), delta),
    {
        let total = self.year * 12 + self.month as i32 - 1 + delta;
        let year = total / 12;
        let rem = total % 12;
        proof {
            assert(year as int == trunc_div(total as int, 12));
            assert(rem as int == trunc_rem(total as int, 12));
        }
        let month = (rem + 1) as u32;
        let max_day = last_day(year, month);
        self.year = year;
        self.month = month;
        self.day = if self.day < max_day { self.day } else { max_day };
    }
}

/// `digits` with zeros in front up to `width` characters.
pub open spec fn zero_pad(digits: Seq<char>, width: nat) -> Seq<char> {
    if digits.len() >= width {
        digits
    } else {
        Seq::new((width - digits.len()) as nat, |i: int| '0') + digits
    }
}

/// An integer written as Rust's `{:0width$}` writes it: a minus sign for
/// negative values, then zeros up to the full width (sign included).
pub open spec fn padded_int(n: int, width: nat) -> Seq<char> {
    if n < 0 {
        seq!['-'] + zero_pad(decimal((-n) as nat), if width >= 1 { (width - 1) as nat } else { 0 })
    } else {
        zero_pad(decimal(n as nat), width)
    }
}

fn push_zero_padded(s: &mut String, n: u64, width: usize)
    ensures
        final(s)@ == old(s)@ + zero_pad(decimal(n as nat), width as nat),
{
    let digits = crate::text::u64_to_string(n);
    let len = crate::text::chars_of(digits.as_str()).len();
    let ghost start = s@;
    if len < width {
        let mut k: usize = 0;
        while k < width - len
            invariant
                k <= width - len,
                len < width,
                s@ == start + Seq::new(k as nat, |i: int| '0'),
            decreases width - len - k,
        {
            push_char(s, '0');
            proof {
                assert(Seq::new(k as nat, |i: int| '0').push('0') =~= Seq::new((k + 1) as nat, |i: int| '0'));
            }
            k = k + 1;
        }
    }
    crate::text::push_str(s, digits.as_str());
    proof {
        if len < width {
            assert(s@ =~= start + zero_pad(decimal(n as nat), width as nat));
        } else {
            assert(s@ =~= start + zero_pad(decimal(n as nat), width as nat));
        }
    }
}

impl CalendarState {
    /// The chosen day written as `YYYY-MM-DD` (`{:04}-{:02}-{:02}`).
    pub fn date_text(&self) -> (r: String)
        ensures
            r@ == padded_int(self.year as int, 4) + "-"@ + padded_int(self.month as int, 2) + "-"@
                + padded_int(self.day as int, 2),
    {
        let mut s = String::new();
        if self.year < 0 {
            push_char(&mut s, '-');
            let m: u64 = ((-(self.year + 1)) as u64) + 1;
            push_zero_padded(&mut s, m, 3);
        } else {
            push_zero_padded(&mut s, self.year as u64, 4);
        }
        push_char(&mut s, '-');
        push_zero_padded(&mut s, self.month as u64, 2);
        push_char(&mut s, '-');
        push_zero_padded(&mut s, self.day as u64, 2);
        proof {
            reveal_strlit("-");
            assert(s@ =~= padded_int(self.year as int, 4) + "-"@ + padded_int(self.month as int, 2) + "-"@
                + padded_int(self.day as int, 2));
        }
        s
    }

    /// Writes the chosen day into its form field (when the form still has
    /// it) and gives the mode to return to.
    pub fn confirm(&self, fields: &mut Vec<EditField>) -> (mode: AppMode)
        ensures
            mode == self.from_mode,
            final(fields)@.len() == old(fields)@.len(),
            forall|i: int| 0 <= i < old(fields)@.len() && i != self.field_idx ==> final(fields)@[i] == old(fields)@[i],
            self.field_idx < old(fields)@.len() ==> {
                let f = final(fields)@[self.field_idx as int];
                let o = old(fields)@[self.field_idx as int];
                &&& f.label == o.label
                &&& f.kind == o.kind
                &&& f.section_header == o.section_header
                &&& f.value@ == padded_int(self.year as int, 4) + "-"@ + padded_int(self.month as int, 2)
                    + "-"@ + padded_int(self.day as int, 2)
            },
    {
        if self.field_idx < fields.len() {
            let text = self.date_text();
            let mut f = fields.remove(self.field_idx);
            f.value = text;
            fields.insert(self.field_idx, f);
        }
        self.from_mode
    }
}

/// Moving by months from a real day lands on a real day: for a month
/// inside chrono's range (its year not at either end), the clamped day is
/// one the month has.
pub proof fn lemma_move_months_lands_on_a_day(s: CalendarState, delta: i32)
    requires
        move_months_ok(s, delta),
        s.day >= 1,
        MIN_YEAR < move_months_spec(s, delta).year < MAX_YEAR,
        1 <= move_months_spec(s, delta).month <= 12,
    ensures
        date_exists(
            move_months_spec(s, delta).year as int,
            move_months_spec(s, delta).month as int,
            move_months_spec(s, delta).day as int,
        ),
{
    let r = move_months_spec(s, delta);
    let y = r.year as int;
    let m = r.month as int;
    if m < 12 {
        assert(date_exists(y, m + 1, 1));
        assert(last_day_spec(y, m) == days_in_month(y, m));
    } else {
        assert(!date_exists(y, m + 1, 1));
        assert(date_exists(y + 1, 1, 1));
        assert(date_exists(y, 12, 31));
        assert(last_day_spec(y, m) == 31);
    }
}

} // verus!
