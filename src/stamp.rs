//! Calendar instants at second precision and their textual form
//! `YYYY-MM-DD.hh:mm:ssAM` (or `PM`), the prefix of every archive file name.
use vstd::prelude::*;

verus! {

/// A local calendar instant, to the second.
#[derive(Clone, Copy, Debug, PartialEq, Eq, Structural)]
pub struct Stamp {
    pub year: u32,
    pub month: u32,
    pub day: u32,
    pub hour: u32,
    pub minute: u32,
    pub second: u32,
}

pub open spec fn is_leap_year(y: int) -> bool {
    (y % 4 == 0 && y % 100 != 0) || y % 400 == 0
}

pub open spec fn days_in_month(y: int, m: int) -> int {
    if m == 2 {
        if is_leap_year(y) { 29 } else { 28 }
    } else if m == 4 || m == 6 || m == 9 || m == 11 {
        30
    } else {
        31
    }
}

/// The decimal digit `d` as a character.
pub open spec fn digit_char(d: int) -> char {
    seq!['0', '1', '2', '3', '4', '5', '6', '7', '8', '9'][d]
}

pub open spec fn two_digits(n: int) -> Seq<char> {
    seq![digit_char(n / 10 % 10), digit_char(n % 10)]
}

pub open spec fn four_digits(n: int) -> Seq<char> {
    seq![digit_char(n / 1000 % 10), digit_char(n / 100 % 10), digit_char(n / 10 % 10), digit_char(n % 10)]
}

pub open spec fn hour12(h: int) -> int {
    if h % 12 == 0 { 12 } else { h % 12 }
}

pub open spec fn meridiem(h: int) -> Seq<char> {
    if h < 12 { seq!['A', 'M'] } else { seq!['P', 'M'] }
}

/// The stamp with the given calendar fields, if they name a valid stamp.
pub open spec fn stamp_from_parts(year: int, month: int, day: int, hour: int, minute: int, second: int) -> Option<Stamp> {
    if 0 <= year <= 9999 && 0 <= month && 0 <= day && 0 <= hour && 0 <= minute && 0 <= second
        && month <= u32::MAX && day <= u32::MAX && hour <= u32::MAX && minute <= u32::MAX && second <= u32::MAX
        && (Stamp {
        year: year as u32,
        month: month as u32,
        day: day as u32,
        hour: hour as u32,
        minute: minute as u32,
        second: second as u32,
    }).valid() {
        Some(
            Stamp {
                year: year as u32,
                month: month as u32,
                day: day as u32,
                hour: hour as u32,
                minute: minute as u32,
                second: second as u32,
            },
        )
    } else {
        None
    }
}

/// What chrono's `NaiveDateTime::parse_from_str` reads from a text with the
/// format `%F.%I:%M:%S%p`: year, month, day, hour, minute and second.
pub uninterp spec fn parsed_time(s: Seq<char>) -> Option<(i32, u32, u32, u32, u32, u32)>;

/// The stamp that a text names: what chrono reads from it, when that is a
/// valid stamp.
pub open spec fn stamp_of_text(s: Seq<char>) -> Option<Stamp> {
    match parsed_time(s) {
        Some(t) => stamp_from_parts(t.0 as int, t.1 as int, t.2 as int, t.3 as int, t.4 as int, t.5 as int),
        None => None,
    }
}

/// Number of characters in a rendered stamp.
pub const STAMP_LEN: usize = 21;

impl Stamp {
    /// A real calendar date with a time of day, in a year of four digits.
    pub open spec fn valid(self) -> bool {
        &&& self.year <= 9999
        &&& 1 <= self.month <= 12
        &&& 1 <= self.day <= days_in_month(self.year as int, self.month as int)
        &&& self.hour < 24
        &&& self.minute < 60
        &&& self.second < 60
    }

    /// The text of the stamp: `YYYY-MM-DD.hh:mm:ssAM`, with a 12-hour clock.
    pub open spec fn text(self) -> Seq<char> {
        four_digits(self.year as int) + seq!['-'] + two_digits(self.month as int) + seq!['-']
            + two_digits(self.day as int) + seq!['.'] + two_digits(hour12(self.hour as int))
            + seq![':'] + two_digits(self.minute as int) + seq![':'] + two_digits(
            self.second as int,
        ) + meridiem(self.hour as int)
    }

    /// Chronological order: `self` is strictly earlier than `o`.
    pub open spec fn before(self, o: Stamp) -> bool {
        if self.year != o.year {
            self.year < o.year
        } else if self.month != o.month {
            self.month < o.month
        } else if self.day != o.day {
            self.day < o.day
        } else if self.hour != o.hour {
            self.hour < o.hour
        } else if self.minute != o.minute {
            self.minute < o.minute
        } else {
            self.second < o.second
        }
    }
}

fn digit_str(d: u32) -> (r: &'static str)
    requires
        d < 10,
    ensures
        r@ == seq![digit_char(d as int)],
{
    proof {
        reveal_strlit("0");
        reveal_strlit("1");
        reveal_strlit("2");
        reveal_strlit("3");
        reveal_strlit("4");
        reveal_strlit("5");
        reveal_strlit("6");
        reveal_strlit("7");
        reveal_strlit("8");
        reveal_strlit("9");
    }
    match d {
        0 => "0",
        1 => "1",
        2 => "2",
        3 => "3",
        4 => "4",
        5 => "5",
        6 => "6",
        7 => "7",
        8 => "8",
        _ => "9",
    }
}


fn push_two(s: &mut String, n: u32)
    requires
        n < 100,
    ensures
        final(s)@ == old(s)@ + two_digits(n as int),
{
    s.append(digit_str(n / 10 % 10));
    s.append(digit_str(n % 10));
}

/// The text of a valid stamp, character by character.
proof fn lemma_text_chars(st: Stamp)
    ensures
        st.text() =~= seq![
            four_digits(st.year as int)[0], four_digits(st.year as int)[1],
            four_digits(st.year as int)[2], four_digits(st.year as int)[3], '-',
            two_digits(st.month as int)[0], two_digits(st.month as int)[1], '-',
            two_digits(st.day as int)[0], two_digits(st.day as int)[1], '.',
            two_digits(hour12(st.hour as int))[0], two_digits(hour12(st.hour as int))[1], ':',
            two_digits(st.minute as int)[0], two_digits(st.minute as int)[1], ':',
            two_digits(st.second as int)[0], two_digits(st.second as int)[1],
            meridiem(st.hour as int)[0], 'M',
        ],
        st.text().len() == STAMP_LEN,
{
    let y = four_digits(st.year as int);
    let a = y + seq!['-'];
    let b = a + two_digits(st.month as int);
    let c = b + seq!['-'];
    let d = c + two_digits(st.day as int);
    let e = d + seq!['.'];
    let f = e + two_digits(hour12(st.hour as int));
    let g = f + seq![':'];
    let h = g + two_digits(st.minute as int);
    let i = h + seq![':'];
    let j = i + two_digits(st.second as int);
    let k = j + meridiem(st.hour as int);
    assert(k == st.text());
    assert(j.len() == 19);
    assert(k[20] == 'M');
}


fn month_length(y: u32, m: u32) -> (r: u32)
    ensures
        r == days_in_month(y as int, m as int),
{
    if m == 2 {
        if (y % 4 == 0 && y % 100 != 0) || y % 400 == 0 {
            29
        } else {
            28
        }
    } else if m == 4 || m == 6 || m == 9 || m == 11 {
        30
    } else {
        31
    }
}

/// Whether two texts hold the same characters.
pub fn same_text(a: &str, b: &str) -> (r: bool)
    ensures
        r == (a@ == b@),
{
    let n = a.unicode_len();
    if n != b.unicode_len() {
        return false;
    }
    let mut i: usize = 0;
    while i < n
        invariant
            n == a@.len() == b@.len(),
            i <= n,
            a@.subrange(0, i as int) == b@.subrange(0, i as int),
        decreases n - i,
    {
        if a.get_char(i) != b.get_char(i) {
            return false;
        }
        assert(a@.subrange(0, i + 1) =~= a@.subrange(0, i as int).push(a@[i as int]));
        assert(b@.subrange(0, i + 1) =~= b@.subrange(0, i as int).push(b@[i as int]));
        i = i + 1;
    }
    assert(a@ =~= a@.subrange(0, n as int));
    assert(b@ =~= b@.subrange(0, n as int));
    true
}

impl Stamp {
    /// Builds a stamp from calendar fields, if they name a valid stamp.
    pub fn from_parts(year: i32, month: u32, day: u32, hour: u32, minute: u32, second: u32) -> (r:
        Option<Stamp>)
        ensures
            r == stamp_from_parts(
                year as int,
                month as int,
                day as int,
                hour as int,
                minute as int,
                second as int,
            ),
            r matches Some(st) ==> st.valid(),
    {
        if year < 0 || year > 9999 {
            return None;
        }
        let st = Stamp { year: year as u32, month, day, hour, minute, second };
        if st.is_valid() {
            Some(st)
        } else {
            None
        }
    }

    /// Whether the stamp is valid.
    pub fn is_valid(&self) -> (r: bool)
        ensures
            r == self.valid(),
    {
        self.year <= 9999 && 1 <= self.month && self.month <= 12 && 1 <= self.day && self.day
            <= month_length(self.year, self.month) && self.hour < 24 && self.minute < 60
            && self.second < 60
    }

    /// Whether `self` is strictly earlier than `o`.
    pub fn is_before(&self, o: &Stamp) -> (r: bool)
        ensures
            r == self.before(*o),
    {
        if self.year != o.year {
            self.year < o.year
        } else if self.month != o.month {
            self.month < o.month
        } else if self.day != o.day {
            self.day < o.day
        } else if self.hour != o.hour {
            self.hour < o.hour
        } else if self.minute != o.minute {
            self.minute < o.minute
        } else {
            self.second < o.second
        }
    }

    /// Renders the stamp as `YYYY-MM-DD.hh:mm:ssAM` (or `PM`).
    pub fn to_text(&self) -> (r: String)
        requires
            self.valid(),
        ensures
            r@ == self.text(),
    {
        let mut s = String::new();
        push_two(&mut s, self.year / 100);
        push_two(&mut s, self.year % 100);
        proof {
            let y = self.year as int;
            assert(y / 100 / 10 % 10 == y / 1000 % 10);
            assert((y / 100) % 10 == y / 100 % 10);
            assert(y % 100 / 10 % 10 == y / 10 % 10);
            assert(y % 100 % 10 == y % 10);
            assert(s@ =~= four_digits(y));
        }
        s.append("-");
        push_two(&mut s, self.month);
        s.append("-");
        push_two(&mut s, self.day);
        s.append(".");
        let h = if self.hour % 12 == 0 {
            12
        } else {
            self.hour % 12
        };
        push_two(&mut s, h);
        s.append(":");
        push_two(&mut s, self.minute);
        s.append(":");
        push_two(&mut s, self.second);
        if self.hour < 12 {
            s.append("AM");
        } else {
            s.append("PM");
        }
        proof {
            reveal_strlit("-");
            reveal_strlit(".");
            reveal_strlit(":");
            reveal_strlit("AM");
            reveal_strlit("PM");
            assert(s@ =~= self.text());
        }
        s
    }
}

/// A valid stamp renders to `STAMP_LEN` characters.
pub proof fn lemma_text_len(st: Stamp)
    ensures
        st.text().len() == STAMP_LEN,
{
    lemma_text_chars(st);
}

/// Relies on chrono's `NaiveDateTime::parse_from_str` with the format
/// `%F.%I:%M:%S%p`, and its `Datelike` / `Timelike` accessors for the fields:
/// the text that `Stamp::text` writes for a valid stamp (a four-digit year,
/// two-digit fields, `AM` or `PM`) reads back as that date and time.
#[verifier::external_body]
fn parse_time(s: &str) -> (r: Option<(i32, u32, u32, u32, u32, u32)>)
    ensures
        r == parsed_time(s@),
        forall|st: Stamp|
            st.valid() && st.text() == s@ ==> r == Some(
                (st.year as i32, st.month, st.day, st.hour, st.minute, st.second),
            ),
{
    match chrono::NaiveDateTime::parse_from_str(s, "%F.%I:%M:%S%p") {
        Ok(t) => Some((
            chrono::Datelike::year(&t),
            chrono::Datelike::month(&t),
            chrono::Datelike::day(&t),
            chrono::Timelike::hour(&t),
            chrono::Timelike::minute(&t),
            chrono::Timelike::second(&t),
        )),
        Err(_) => None,
    }
}

/// Reads a stamp from its text; the text of a valid stamp reads back as it.
pub fn parse_stamp(s: &str) -> (r: Option<Stamp>)
    ensures
        r == stamp_of_text(s@),
        forall|st: Stamp| st.valid() && st.text() == s@ ==> r == Some(st),
{
    match parse_time(s) {
        Some((y, mo, d, h, mi, se)) => Stamp::from_parts(y, mo, d, h, mi, se),
        None => None,
    }
}

} // verus!
