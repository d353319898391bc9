//! Calendar dates as plain values: validity, ordering, stepping one day
//! back, parsing from timestamp-prefixed file names, and the capture-streak
//! and on-this-day rules built on them.  The host's clock supplies "today";
//! everything else is computed and verified here.

use vstd::prelude::*;
use crate::text;

verus! {

use vstd::string::StrSliceExecFns;
use vstd::string::StringExecFns;

/// A calendar date.  Years run from 0 through 9999, the range note file
/// names can carry.
#[derive(Debug, Clone, Copy, PartialEq, Eq, Structural)]
pub struct Date {
    pub year: u32,
    pub month: u32,
    pub day: u32,
}

pub open spec fn is_leap_year(y: int) -> bool {
    y % 4 == 0 && (y % 100 != 0 || y % 400 == 0)
}

pub open spec fn days_in_month(y: int, m: int) -> int {
    if m == 2 {
        if is_leap_year(y) {
            29
        } else {
            28
        }
    } else if m == 4 || m == 6 || m == 9 || m == 11 {
        30
    } else {
        31
    }
}

pub open spec fn valid_date(d: Date) -> bool {
    d.year <= 9999 && 1 <= d.month <= 12 && 1 <= d.day <= days_in_month(
        d.year as int,
        d.month as int,
    )
}

/// A rank that grows strictly with the calendar order; used to terminate
/// walks backwards through the calendar.
pub open spec fn date_rank(d: Date) -> int {
    d.year * 372 + (d.month - 1) * 31 + d.day
}

fn exec_days_in_month(y: u32, m: u32) -> (r: u32)
    requires
        1 <= m <= 12,
    ensures
        r == days_in_month(y as int, m as int),
{
    if m == 2 {
        if y % 4 == 0 && (y % 100 != 0 || y % 400 == 0) {
            29
        } else {
            28
        }
    } else if m == 4 || m == 6 || m == 9 || m == 11 {
        30
    } else {
        31
    }
}

impl Date {
    /// Builds a date, rejecting anything outside the calendar.
    pub fn from_ymd(year: u32, month: u32, day: u32) -> (r: Option<Date>)
        ensures
            r is Some <==> valid_date((Date { year, month, day })),
            r is Some ==> r->0 == (Date { year, month, day }),
    {
        if year <= 9999 && 1 <= month && month <= 12 {
            if 1 <= day && day <= exec_days_in_month(year, month) {
                Some(Date { year, month, day })
            } else {
                None
            }
        } else {
            None
        }
    }
}

/// Strictly earlier in the calendar.
pub open spec fn date_lt(a: Date, b: Date) -> bool {
    a.year < b.year || (a.year == b.year && a.month < b.month) || (a.year == b.year && a.month
        == b.month && a.day < b.day)
}

pub fn date_before(a: &Date, b: &Date) -> (r: bool)
    ensures
        r == date_lt(*a, *b),
{
    a.year < b.year || (a.year == b.year && a.month < b.month) || (a.year == b.year && a.month
        == b.month && a.day < b.day)
}

/// The day before; defined for every valid date but the calendar's first.
pub open spec fn prev_date(d: Date) -> Date {
    if d.day > 1 {
        Date { year: d.year, month: d.month, day: (d.day - 1) as u32 }
    } else if d.month > 1 {
        Date {
            year: d.year,
            month: (d.month - 1) as u32,
            day: days_in_month(d.year as int, d.month - 1) as u32,
        }
    } else {
        Date { year: (d.year - 1) as u32, month: 12, day: 31 }
    }
}

pub open spec fn is_first_date(d: Date) -> bool {
    d.year == 0 && d.month == 1 && d.day == 1
}

proof fn lemma_prev_date(d: Date)
    requires
        valid_date(d),
        !is_first_date(d),
    ensures
        valid_date(prev_date(d)),
        date_rank(prev_date(d)) < date_rank(d),
        date_lt(prev_date(d), d),
{
}

pub fn prev_day(d: Date) -> (r: Date)
    requires
        valid_date(d),
        !is_first_date(d),
    ensures
        r == prev_date(d),
        valid_date(r),
        date_lt(r, d),
{
    proof {
        lemma_prev_date(d);
    }
    if d.day > 1 {
        Date { year: d.year, month: d.month, day: d.day - 1 }
    } else if d.month > 1 {
        Date { year: d.year, month: d.month - 1, day: exec_days_in_month(d.year, d.month - 1) }
    } else {
        Date { year: d.year - 1, month: 12, day: 31 }
    }
}

// ───────────────────────── parsing and formatting ─────────────────────────

/// The date named by a note file name: its first dash-separated piece must
/// be exactly eight digits, year-month-day, and form a real date.
pub open spec fn filename_date(filename: Seq<char>) -> Option<Date> {
    let seg = text::split_char_spec(filename, '-')[0];
    if seg.len() == 8 && text::all_digits(seg) {
        let d = Date {
            year: text::dec_value(seg.subrange(0, 4)) as u32,
            month: text::dec_value(seg.subrange(4, 6)) as u32,
            day: text::dec_value(seg.subrange(6, 8)) as u32,
        };
        if valid_date(d) {
            Some(d)
        } else {
            None
        }
    } else {
        None
    }
}

pub fn parse_date_from_filename(filename: &str) -> (r: Option<Date>)
    ensures
        r == filename_date(filename@),
{
    let pieces = text::split_char(filename, '-');
    proof {
        assert(pieces.deep_view()[0] == pieces[0int]@);
    }
    let seg = pieces[0].as_str();
    let n = seg.unicode_len();
    if n != 8 {
        return None;
    }
    let ghost sv = seg@;
    let year = match text::parse_u32_dec(seg.substring_char(0, 4)) {
        Some(y) => y,
        None => {
            proof {
                assert(!text::all_digits(sv)) by {
                    if text::all_digits(sv) {
                        assert(forall|k: int|
                            0 <= k < 4 ==> sv.subrange(0, 4)[k] == #[trigger] sv[k]);
                    }
                }
            }
            return None;
        },
    };
    let month = match text::parse_u32_dec(seg.substring_char(4, 6)) {
        Some(m) => m,
        None => {
            proof {
                assert(!text::all_digits(sv)) by {
                    if text::all_digits(sv) {
                        assert(forall|k: int|
                            0 <= k < 2 ==> sv.subrange(4, 6)[k] == #[trigger] sv[k + 4]);
                    }
                }
            }
            return None;
        },
    };
    let day = match text::parse_u32_dec(seg.substring_char(6, 8)) {
        Some(d) => d,
        None => {
            proof {
                assert(!text::all_digits(sv)) by {
                    if text::all_digits(sv) {
                        assert(forall|k: int|
                            0 <= k < 2 ==> sv.subrange(6, 8)[k] == #[trigger] sv[k + 6]);
                    }
                }
            }
            return None;
        },
    };
    proof {
        assert(text::all_digits(sv)) by {
            assert(forall|k: int| 0 <= k < 4 ==> #[trigger] sv[k] == sv.subrange(0, 4)[k]);
            assert(forall|k: int| 4 <= k < 6 ==> #[trigger] sv[k] == sv.subrange(4, 6)[k - 4]);
            assert(forall|k: int| 6 <= k < 8 ==> #[trigger] sv[k] == sv.subrange(6, 8)[k - 6]);
        }
    }
    Date::from_ymd(year, month, day)
}

/// Zero-padded decimal digits of width `w` (for values that fit).
pub open spec fn padded_dec(v: int, w: int) -> Seq<char> {
    text::repeat_seq(seq!['0'], w - text::dec_seq(v).len()) + text::dec_seq(v)
}

proof fn lemma_dec_seq_len(v: int, w: int)
    requires
        0 <= v,
        0 < w,
        v < text::pow10(w),
    ensures
        1 <= text::dec_seq(v).len() <= w,
    decreases w,
{
    if v < 10 {
    } else {
        if w == 1 {
            reveal_with_fuel(text::pow10, 2);
            assert(false);
        }
        assert(text::pow10(w) == 10 * text::pow10(w - 1));
        lemma_dec_seq_len(v / 10, w - 1);
    }
}

fn pad_to_width(digits: String, w: usize) -> (r: String)
    requires
        digits@.len() <= w,
    ensures
        r@ == text::repeat_seq(seq!['0'], w - digits@.len()) + digits@,
{
    let mut zeros = String::new();
    let have = digits.as_str().unicode_len();
    let mut i: usize = 0;
    while i < w - have
        invariant
            have == digits@.len() <= w,
            i <= w - have,
            zeros@ == text::repeat_seq(seq!['0'], i as int),
        decreases w - have - i,
    {
        text::push_char(&mut zeros, '0');
        proof {
            assert(text::repeat_seq(seq!['0'], i + 1 as int) =~= text::repeat_seq(
                seq!['0'],
                i as int,
            ).push('0'));
        }
        i += 1;
    }
    zeros.append(digits.as_str());
    zeros
}

/// The ISO form of a date: four-digit year, two-digit month and day,
/// dash-separated.
pub open spec fn date_iso(d: Date) -> Seq<char> {
    padded_dec(d.year as int, 4) + "-"@ + padded_dec(d.month as int, 2) + "-"@ + padded_dec(
        d.day as int,
        2,
    )
}

pub fn format_date_iso(d: &Date) -> (r: String)
    requires
        valid_date(*d),
    ensures
        r@ == date_iso(*d),
{
    proof {
        reveal_with_fuel(text::pow10, 5);
        lemma_dec_seq_len(d.year as int, 4);
        lemma_dec_seq_len(d.month as int, 2);
        lemma_dec_seq_len(d.day as int, 2);
    }
    let mut out = pad_to_width(text::u32_to_dec(d.year), 4);
    out.append("-");
    out.append(pad_to_width(text::u32_to_dec(d.month), 2).as_str());
    out.append("-");
    out.append(pad_to_width(text::u32_to_dec(d.day), 2).as_str());
    proof {
        assert(out@ =~= date_iso(*d));
    }
    out
}

// ───────────────────────── on this day ─────────────────────────

/// Status record for the on-this-day lookup.
#[derive(Debug, Clone)]
pub struct OnThisDayStatus {
    pub found: bool,
    pub message: String,
    pub date: Option<String>,
    pub folder: Option<String>,
    pub preview: Option<String>,
}

/// A note qualifies when it was written on today's month and day in an
/// earlier year.
pub open spec fn on_this_day(d: Date, today: Date) -> bool {
    d.month == today.month && d.day == today.day && d.year < today.year
}

pub fn is_on_this_day(d: &Date, today: &Date) -> (r: bool)
    ensures
        r == on_this_day(*d, *today),
{
    d.month == today.month && d.day == today.day && d.year < today.year
}

/// A note from an earlier year written on today's month and day.
#[derive(Debug, Clone)]
pub struct OnThisDayCandidate {
    pub date: Date,
    pub folder: String,
    pub preview: String,
}

impl OnThisDayCandidate {
    fn duplicate(&self) -> (r: OnThisDayCandidate)
        ensures
            r == *self,
    {
        OnThisDayCandidate {
            date: self.date,
            folder: self.folder.clone(),
            preview: self.preview.clone(),
        }
    }
}

/// The candidate from the latest year, when there is any.
pub fn select_best_candidate(candidates: &Vec<OnThisDayCandidate>) -> (r: Option<
    OnThisDayCandidate,
>)
    ensures
        r is Some <==> candidates@.len() > 0,
        r is Some ==> (exists|i: int|
            0 <= i < candidates@.len() && #[trigger] candidates@[i] == r->0),
        r is Some ==> (forall|k: int|
            0 <= k < candidates@.len() ==> !date_lt(r->0.date, (#[trigger] candidates@[k]).date)),
{
    if candidates.len() == 0 {
        return None;
    }
    let mut best: usize = 0;
    let mut i: usize = 1;
    while i < candidates.len()
        invariant
            best < i <= candidates@.len(),
            forall|k: int|
                0 <= k < i ==> !date_lt(candidates@[best as int].date, (
                #[trigger] candidates@[k]).date),
        decreases candidates@.len() - i,
    {
        if !date_before(&candidates[i].date, &candidates[best].date) {
            best = i;
        }
        i += 1;
    }
    Some(candidates[best].duplicate())
}

/// A notification is due unless one was already shown today.
pub fn should_notify_today(last_notified_date: Option<&str>, today: Date) -> (r: bool)
    requires
        valid_date(today),
    ensures
        (match last_notified_date {
            Some(last) => r == (last@ != date_iso(today)),
            None => r,
        }),
{
    match last_notified_date {
        Some(last) => {
            let today_str = format_date_iso(&today);
            !text::str_eq(last, today_str.as_str())
        },
        None => true,
    }
}

/// The single-line preview of a note: its non-blank lines joined by single
/// spaces, cut to 120 characters with an ellipsis; a fixed marker when the
/// note has no content.
pub open spec fn preview_spec(content: Seq<char>) -> Seq<char> {
    let condensed = text::join_char_spec(
        text::nonblank_trimmed(text::lines_spec(content)),
        ' ',
    );
    if condensed.len() == 0 {
        "(empty note)"@
    } else if condensed.len() > 120 {
        text::take_chars(condensed, 120) + "..."@
    } else {
        condensed
    }
}

pub fn build_preview(content: &str) -> (r: String)
    ensures
        r@ == preview_spec(content@),
{
    let lines = text::split_lines(content);
    let ghost lv = lines.deep_view();
    let mut kept: Vec<String> = Vec::new();
    let mut i: usize = 0;
    proof {
        assert(lv.skip(0) =~= lv);
        assert(kept.deep_view() + text::nonblank_trimmed(lv)
            =~= text::nonblank_trimmed(lv));
    }
    while i < lines.len()
        invariant
            i <= lines.len(),
            lines.deep_view() == lv,
            lv == text::lines_spec(content@),
            lv.len() == lines.len(),
            text::nonblank_trimmed(lv) == kept.deep_view()
                + text::nonblank_trimmed(lv.skip(i as int)),
        decreases lines.len() - i,
    {
        proof {
            assert(lv.skip(i as int)[0] == lv[i as int]);
            assert(lv.skip(i as int).drop_first() =~= lv.skip(i + 1 as int));
            assert(lv[i as int] == lines[i as int]@);
        }
        let t = text::trim(lines[i].as_str());
        if t.as_str().unicode_len() > 0 {
            let ghost old_kept = kept.deep_view();
            kept.push(t);
            proof {
                assert(kept.deep_view() =~= old_kept.push(text::trim_spec(lv[i as int])));
                assert(old_kept + (seq![text::trim_spec(lv[i as int])]
                    + text::nonblank_trimmed(lv.skip(i + 1 as int))) =~= kept.deep_view()
                    + text::nonblank_trimmed(lv.skip(i + 1 as int)));
            }
        }
        i += 1;
    }
    proof {
        assert(lv.skip(lines.len() as int) =~= Seq::<Seq<char>>::empty());
        assert(kept.deep_view() + text::nonblank_trimmed(
            lv.skip(lines.len() as int),
        ) =~= kept.deep_view());
    }
    let condensed = text::join_strings(&kept, ' ');
    let n = condensed.as_str().unicode_len();
    if n == 0 {
        String::from_str("(empty note)")
    } else if n > 120 {
        let mut cut = text::truncate_chars(condensed.as_str(), 120);
        cut.append("...");
        cut
    } else {
        condensed
    }
}

// ───────────────────────── capture streak ─────────────────────────

#[derive(Debug, Clone)]
pub struct CaptureStats {
    pub capture_streak_days: u32,
    pub last_computed_at: String,
}

#[derive(Debug, Clone)]
pub struct CaptureStreakStatus {
    pub days: u32,
    pub label: String,
}

pub open spec fn date_in(dates: Seq<Date>, d: Date) -> bool {
    exists|i: int| 0 <= i < dates.len() && dates[i] == d
}

fn contains_date(dates: &Vec<Date>, d: &Date) -> (r: bool)
    ensures
        r == date_in(dates@, *d),
{
    let mut i: usize = 0;
    while i < dates.len()
        invariant
            i <= dates@.len(),
            forall|k: int| 0 <= k < i ==> dates@[k] != *d,
        decreases dates@.len() - i,
    {
        if dates[i].year == d.year && dates[i].month == d.month && dates[i].day == d.day {
            return true;
        }
        i += 1;
    }
    false
}

/// How many consecutive days, walking backwards from `cursor`, have a
/// capture.
pub open spec fn streak_from(dates: Seq<Date>, cursor: Date) -> nat
    decreases date_rank(cursor),
    when valid_date(cursor)
{
    if !date_in(dates, cursor) {
        0
    } else if is_first_date(cursor) {
        1
    } else {
        1 + streak_from(dates, prev_date(cursor))
    }
}

proof fn lemma_streak_bound(dates: Seq<Date>, cursor: Date)
    requires
        valid_date(cursor),
    ensures
        streak_from(dates, cursor) <= date_rank(cursor),
    decreases date_rank(cursor),
{
    if date_in(dates, cursor) && !is_first_date(cursor) {
        lemma_prev_date(cursor);
        lemma_streak_bound(dates, prev_date(cursor));
    }
}

/// The length of the current capture streak: consecutive days with at
/// least one note, counted back from today, or from yesterday when today
/// has none yet.
pub fn compute_capture_streak_from_dates(dates: &Vec<Date>, today: Date) -> (r: u32)
    requires
        valid_date(today),
    ensures
        date_in(dates@, today) ==> r == streak_from(dates@, today),
        !date_in(dates@, today) && is_first_date(today) ==> r == 0,
        !date_in(dates@, today) && !is_first_date(today) ==> r == streak_from(
            dates@,
            prev_date(today),
        ),
{
    let start: Date = if contains_date(dates, &today) {
        today
    } else {
        if today.year == 0 && today.month == 1 && today.day == 1 {
            return 0;
        }
        let yesterday = prev_day(today);
        if contains_date(dates, &yesterday) {
            yesterday
        } else {
            return 0;
        }
    };
    let mut streak: u32 = 0;
    let mut cursor = start;
    proof {
        lemma_streak_bound(dates@, start);
    }
    while contains_date(dates, &cursor)
        invariant
            valid_date(cursor),
            valid_date(start),
            valid_date(today),
            streak + streak_from(dates@, cursor) == streak_from(dates@, start),
            streak_from(dates@, start) <= date_rank(start),
            date_rank(start) < 0x1000_0000,
            date_in(dates@, today) ==> start == today,
            !date_in(dates@, today) ==> !is_first_date(today) && start == prev_date(today),
        decreases date_rank(cursor),
    {
        streak = streak + 1;
        if cursor.year == 0 && cursor.month == 1 && cursor.day == 1 {
            return streak;
        }
        proof {
            lemma_prev_date(cursor);
        }
        cursor = prev_day(cursor);
    }
    streak
}

/// The tray label for a streak: singular for one day, plural otherwise.
pub fn format_capture_streak_label(days: u32) -> (r: String)
    ensures
        days == 1 ==> r@ == "Streak: 1 day"@,
        days != 1 ==> r@ == "Streak: "@ + text::dec_seq(days as int) + " days"@,
{
    if days == 1 {
        String::from_str("Streak: 1 day")
    } else {
        let mut s = String::from_str("Streak: ");
        s.append(text::u32_to_dec(days).as_str());
        s.append(" days");
        s
    }
}

} // verus!
