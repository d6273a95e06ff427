//! The clock and local time, as text, and the time formats that name new entries.
use std::fmt::Write;

use vstd::prelude::*;
use vstd::string::*;

use crate::i18n::{warn_template_format, warn_template_format_text, warn_template_name, warn_template_name_text, Lang};
use crate::scratch::{opt_string, valid_name, validate_name};
use crate::text::{decimal, digit_char};

verus! {

/// Time formats that name only the year, month, day, hour, minute and second: every `%`
/// introduces one of `Y`, `m`, `d`, `H`, `M`, `S`.
pub open spec fn simple_time_format(f: Seq<char>) -> bool {
    forall|i: int| 0 <= i < f.len() && #[trigger] f[i] == '%' ==> i + 1 < f.len() && (f[i + 1] == 'Y' || f[i + 1] == 'm' || f[i + 1] == 'd' || f[i + 1] == 'H' || f[i + 1] == 'M' || f[i + 1] == 'S')
}

/// Whether chrono reads `fmt` as a time format without an unknown or malformed specifier
/// (what `StrftimeItems::new(fmt).parse()` decides).
pub uninterp spec fn strftime_parses(fmt: Seq<char>) -> bool;

/// chrono's `StrftimeItems::new(fmt).parse()`, as whether it succeeded: true exactly when
/// chrono finds no unknown or malformed specifier in `fmt`.
#[verifier::external_body]
fn format_parses(fmt: &str) -> (r: bool)
    ensures
        r == strftime_parses(fmt@),
{
    chrono::format::StrftimeItems::new(fmt).parse().is_ok()
}

/// A reading of the local clock: the calendar fields chrono writes (a second may be 60 during
/// a leap second).
pub ghost struct ClockReading {
    pub year: int,
    pub month: int,
    pub day: int,
    pub hour: int,
    pub minute: int,
    pub second: int,
}

pub open spec fn valid_reading(t: ClockReading) -> bool {
    &&& 1 <= t.month <= 12
    &&& 1 <= t.day <= 31
    &&& 0 <= t.hour <= 23
    &&& 0 <= t.minute <= 59
    &&& 0 <= t.second <= 60
}

/// A number below 100 as two digits, zero-padded (chrono's `%m`, `%d`, `%H`, `%M`, `%S`).
pub open spec fn two_digits(v: int) -> Seq<char> {
    seq![digit_char((v / 10) as nat), digit_char((v % 10) as nat)]
}

/// Digits left-padded with zeros to at least four.
pub open spec fn pad4(s: Seq<char>) -> Seq<char> {
    if s.len() >= 4 {
        s
    } else {
        Seq::new((4 - s.len()) as nat, |i: int| '0') + s
    }
}

/// chrono's `%Y`: the year zero-padded to four digits, with a sign before years outside
/// 0 through 9999.
pub open spec fn year_text(y: int) -> Seq<char> {
    if y < 0 {
        seq!['-'] + pad4(decimal((-y) as nat))
    } else if y > 9999 {
        seq!['+'] + pad4(decimal(y as nat))
    } else {
        pad4(decimal(y as nat))
    }
}

/// What `%` followed by `c` writes for the reading `t`.
pub open spec fn field_text(c: char, t: ClockReading) -> Seq<char> {
    if c == 'Y' {
        year_text(t.year)
    } else if c == 'm' {
        two_digits(t.month)
    } else if c == 'd' {
        two_digits(t.day)
    } else if c == 'H' {
        two_digits(t.hour)
    } else if c == 'M' {
        two_digits(t.minute)
    } else {
        two_digits(t.second)
    }
}

/// A format of [`simple_time_format`] written for the reading `t`: each specifier replaced by
/// its field, every other character kept.
pub open spec fn simple_render(f: Seq<char>, t: ClockReading) -> Seq<char>
    decreases f.len(),
{
    if f.len() == 0 {
        Seq::<char>::empty()
    } else if f[0] == '%' && f.len() >= 2 {
        field_text(f[1], t) + simple_render(f.skip(2), t)
    } else {
        seq![f[0]] + simple_render(f.skip(1), t)
    }
}

/// `text` is the format `f` written for some valid reading of the clock, when `f` is of
/// [`simple_time_format`] (nothing is required otherwise).
pub open spec fn written_at_some_reading(f: Seq<char>, text: Seq<char>) -> bool {
    simple_time_format(f) ==> exists|t: ClockReading| valid_reading(t) && text == simple_render(f, t)
}

/// What writing the format `f` now may give: for a format of [`simple_time_format`], always a
/// text, that format written for some reading of the clock; for a format chrono cannot read,
/// nothing. Other formats may give a text or nothing (chrono fails on a few specifiers it
/// reads but cannot write, such as `%#z`).
pub open spec fn written_now(f: Seq<char>, r: Option<Seq<char>>) -> bool {
    &&& simple_time_format(f) ==> r is Some && written_at_some_reading(f, r->0)
    &&& !simple_time_format(f) && !strftime_parses(f) ==> r is None
}

/// chrono's `Local::now().format(fmt)`, written into a `String` with `write!`: the text, or
/// `None` when chrono reports an error while writing (an unknown or malformed specifier, or an
/// item the date cannot supply). For a format of [`simple_time_format`] it never fails
/// (chrono's `write_year` and `write_two` with zero padding), and the text is that format
/// written for some reading of the clock; which reading depends on the clock and the time zone.
/// Nothing is stated of other formats' text.
#[verifier::external_body]
fn local_time_text(fmt: &str) -> (r: Option<String>)
    ensures
        written_now(fmt@, opt_string(r)),
{
    let mut s = String::new();
    match write!(s, "{}", chrono::Local::now().format(fmt)) {
        Ok(()) => Some(s),
        Err(_) => None,
    }
}

/// The seconds since the epoch that chrono's `DateTime::from_timestamp` places: those of the
/// days from January 1 of the year -262143 through December 31 of 262142 (chrono's
/// `NaiveDate::MIN` and `NaiveDate::MAX`, days -96465292 through 95026236 from 1970-01-01).
pub open spec fn chrono_places(secs: int) -> bool {
    -8_334_601_228_800 <= secs <= 8_210_266_876_799
}

/// The calendar reading of the second `s` counted from 1970-01-01 00:00:00, in the proleptic
/// Gregorian calendar that chrono's dates follow (days to civil date as in H. Hinnant's
/// `civil_from_days`).
pub open spec fn civil_reading(s: int) -> ClockReading {
    let days = s / 86_400;
    let sod = s % 86_400;
    let z = days + 719_468;
    let era = z / 146_097;
    let doe = z - era * 146_097;
    let yoe = (doe - doe / 1_460 + doe / 36_524 - doe / 146_096) / 365;
    let doy = doe - (365 * yoe + yoe / 4 - yoe / 100);
    let mp = (5 * doy + 2) / 153;
    let month = if mp < 10 {
        mp + 3
    } else {
        mp - 9
    };
    ClockReading {
        year: yoe + era * 400 + if month <= 2 {
            1int
        } else {
            0int
        },
        month,
        day: doy - (153 * mp + 2) / 5 + 1,
        hour: sod / 3_600,
        minute: sod % 3_600 / 60,
        second: sod % 60,
    }
}

/// `text` is the format `f` written for the second `secs` since the epoch moved by a time-zone
/// offset of less than a day either way (chrono's `FixedOffset` bound).
pub open spec fn written_for_second(f: Seq<char>, secs: int, text: Seq<char>) -> bool {
    exists|o: int| -86_400 < o < 86_400 && text == #[trigger] simple_render(f, civil_reading(secs + o))
}

/// chrono's `DateTime::from_timestamp(secs, nanos)`, moved to the local time zone and written
/// in `fmt`: `None` exactly when `from_timestamp` gives none (seconds outside chrono's range of
/// dates). Otherwise the text is the format written for that second moved by the machine's
/// offset from UTC, which chrono keeps under a day either way; with `nanos` below a second
/// there is no leap second. Which offset applies depends on the time zone.
#[verifier::external_body]
fn local_time_at(secs: i64, nanos: u32, fmt: &str) -> (r: Option<String>)
    requires
        simple_time_format(fmt@),
        nanos < 1_000_000_000,
    ensures
        r is Some <==> chrono_places(secs as int),
        r matches Some(t) ==> written_for_second(fmt@, secs as int, t@),
{
    match chrono::DateTime::from_timestamp(secs, nanos) {
        Some(t) => Some(t.with_timezone(&chrono::Local).format(fmt).to_string()),
        None => None,
    }
}

/// Nanoseconds since the epoch as whole seconds (rounded down) and the nanoseconds past them,
/// when the seconds fit an `i64`.
pub fn split_nanos(n: i128) -> (r: Option<(i64, u32)>)
    ensures
        match r {
            Some((s, ns)) => s as int == n as int / 1_000_000_000 && ns as int == n as int % 1_000_000_000,
            None => n as int / 1_000_000_000 < i64::MIN || n as int / 1_000_000_000 > i64::MAX,
        },
{
    let (secs, rest): (i128, i128) = if n >= 0 {
        (n / 1_000_000_000, n % 1_000_000_000)
    } else {
        let p: i128 = -(n + 1);
        let q: i128 = p / 1_000_000_000;
        let m: i128 = p % 1_000_000_000;
        proof {
            assert(p == q * 1_000_000_000 + m && 0 <= m < 1_000_000_000) by (nonlinear_arith)
                requires
                    p >= 0,
                    q == p / 1_000_000_000,
                    m == p % 1_000_000_000,
            ;
            let s = -q - 1;
            let t = 1_000_000_000 - 1 - m;
            assert(n == s * 1_000_000_000 + t && 0 <= t < 1_000_000_000);
            vstd::arithmetic::div_mod::lemma_fundamental_div_mod_converse(n as int, 1_000_000_000, s, t);
        }
        (-q - 1, 1_000_000_000 - 1 - m)
    };
    if secs < -9223372036854775808i128 || secs > 9223372036854775807i128 {
        None
    } else {
        Some((secs as i64, rest as u32))
    }
}

/// Whether a time stamp in nanoseconds names a whole second that fits an `i64`.
pub open spec fn seconds_fit(n: i128) -> bool {
    i64::MIN <= n as int / 1_000_000_000 <= i64::MAX
}

/// The whole seconds of a time stamp in nanoseconds, rounded down.
pub open spec fn stamp_secs(n: i128) -> int {
    n as int / 1_000_000_000
}

/// What the time column shows for the stamp `n` (nanoseconds since the epoch) in the format
/// `f`: the format written for that second in local time, or `-` when chrono cannot place it.
pub open spec fn time_column(n: i128, f: Seq<char>, text: Seq<char>) -> bool {
    if seconds_fit(n) && chrono_places(stamp_secs(n)) {
        written_for_second(f, stamp_secs(n), text)
    } else {
        text == "-"@
    }
}

/// A time stamp in nanoseconds written in `fmt` in local time, or `-` when chrono cannot
/// place it (always so when its seconds do not fit an `i64`).
pub fn local_time_or_dash(n: i128, fmt: &str) -> (r: String)
    requires
        simple_time_format(fmt@),
    ensures
        time_column(n, fmt@, r@),
{
    proof {
        reveal_strlit("-");
    }
    match split_nanos(n) {
        Some((secs, nanos)) => match local_time_at(secs, nanos, fmt) {
            Some(t) => t,
            None => "-".to_string(),
        },
        None => "-".to_string(),
    }
}

/// The built-in format for a new file's name.
pub open spec fn file_default_text() -> Seq<char> {
    "scratch-%Y%m%d-%H%M%S.md"@
}

/// The built-in format for a new directory's name.
pub open spec fn dir_default_text() -> Seq<char> {
    "scratch-%Y%m%d-%H%M%S"@
}

/// A time format that names new entries, with the built-in format of its kind to use at a
/// moment chrono cannot write it.
pub struct NameTemplate {
    text: String,
    fallback: String,
}

impl NameTemplate {
    #[verifier::type_invariant]
    spec fn fallback_writable(self) -> bool {
        simple_time_format(self.fallback@)
    }

    /// The format as text.
    pub closed spec fn text(self) -> Seq<char> {
        self.text@
    }

    /// The built-in format for files: `scratch-YYYYMMDD-HHMMSS.md`.
    pub fn file_default() -> (r: NameTemplate)
        ensures
            r.text() == file_default_text(),
    {
        proof {
            reveal_strlit("scratch-%Y%m%d-%H%M%S.md");
        }
        NameTemplate { text: "scratch-%Y%m%d-%H%M%S.md".to_string(), fallback: "scratch-%Y%m%d-%H%M%S.md".to_string() }
    }

    /// The built-in format for directories: `scratch-YYYYMMDD-HHMMSS`.
    pub fn dir_default() -> (r: NameTemplate)
        ensures
            r.text() == dir_default_text(),
    {
        proof {
            reveal_strlit("scratch-%Y%m%d-%H%M%S");
        }
        NameTemplate { text: "scratch-%Y%m%d-%H%M%S".to_string(), fallback: "scratch-%Y%m%d-%H%M%S".to_string() }
    }

    pub fn as_str(&self) -> (r: &str)
        ensures
            r@ == self.text(),
    {
        self.text.as_str()
    }

    /// The name the format gives now, in local time: for a format of year, month, day, hour,
    /// minute and second specifiers (such as the built-in ones), that format written for the
    /// current reading of the clock. Should chrono fail to write another format, the built-in
    /// format of its kind is written instead.
    pub fn render(&self) -> (r: String)
        ensures
            written_at_some_reading(self.text(), r@),
    {
        proof {
            use_type_invariant(self);
        }
        match local_time_text(self.text.as_str()) {
            Some(s) => s,
            None => match local_time_text(self.fallback.as_str()) {
                Some(s) => s,
                None => String::new(),
            },
        }
    }
}

/// The format a template setting leaves in use, and the warning to show: an unset setting
/// keeps `fallback`; one that chrono cannot read or could not write now (`sample` is `None`),
/// or whose name now (`sample`) fails the name check, keeps `fallback` with a warning;
/// otherwise the setting is used.
pub open spec fn template_choice(
    lang: Lang,
    key: Seq<char>,
    configured: Option<Seq<char>>,
    fallback: Seq<char>,
    parses: bool,
    sample: Option<Seq<char>>,
) -> (Seq<char>, Option<Seq<char>>) {
    match configured {
        None => (fallback, None),
        Some(t) => if !parses || sample is None {
            (fallback, Some(warn_template_format_text(lang, key, t)))
        } else if !valid_name(sample->0) {
            (fallback, Some(warn_template_name_text(lang, key, t, sample->0)))
        } else {
            (t, None)
        },
    }
}

pub open spec fn opt_text(o: Option<String>) -> Option<Seq<char>> {
    match o {
        Some(s) => Some(s@),
        None => None,
    }
}

/// Decides on a readable template setting once the name it gives now (`sample`) is known.
pub fn template_after_render(
    lang: Lang,
    key: &str,
    configured: NameTemplate,
    fallback: NameTemplate,
    sample: &str,
) -> (r: (NameTemplate, Option<String>))
    ensures
        (r.0.text(), opt_text(r.1)) == template_choice(lang, key@, Some(configured.text()), fallback.text(), true, Some(sample@)),
{
    if validate_name(sample).is_err() {
        let w = warn_template_name(lang, key, configured.as_str(), sample);
        (fallback, Some(w))
    } else {
        (configured, None)
    }
}

/// The template a setting named `key` leaves in use, with the warning to show at start-up: a
/// format chrono cannot read, or cannot write now, keeps `fallback` with a warning. The sample
/// name is written at the current time, so only its existence is stated where the setting is
/// readable.
pub fn choose_template(lang: Lang, key: &str, configured: Option<&str>, fallback: NameTemplate) -> (r: (
    NameTemplate,
    Option<String>,
))
    ensures
        match configured {
            None => r.0.text() == fallback.text() && r.1 is None,
            Some(t) => if strftime_parses(t@) {
                exists|sample: Option<Seq<char>>|
                    #![trigger written_now(t@, sample)]
                    written_now(t@, sample) && (r.0.text(), opt_text(r.1)) == template_choice(
                        lang,
                        key@,
                        Some(t@),
                        fallback.text(),
                        true,
                        sample,
                    )
            } else {
                (r.0.text(), opt_text(r.1)) == template_choice(lang, key@, Some(t@), fallback.text(), false, None)
            },
        },
{
    match configured {
        None => (fallback, None),
        Some(t) => {
            if !format_parses(t) {
                let w = warn_template_format(lang, key, t);
                assert((fallback.text(), opt_text(Some(w))) == template_choice(lang, key@, Some(t@), fallback.text(), false, None));
                (fallback, Some(w))
            } else {
                match local_time_text(t) {
                    None => {
                        let w = warn_template_format(lang, key, t);
                        let ghost sample: Option<Seq<char>> = None;
                        assert(written_now(t@, sample));
                        assert((fallback.text(), opt_text(Some(w))) == template_choice(lang, key@, Some(t@), fallback.text(), true, sample));
                        (fallback, Some(w))
                    },
                    Some(sample) => {
                        proof {
                            use_type_invariant(&fallback);
                        }
                        let template = NameTemplate { text: t.to_string(), fallback: fallback.fallback.clone() };
                        let ghost fb = fallback.text();
                        let r = template_after_render(lang, key, template, fallback, sample.as_str());
                        assert(written_now(t@, Some(sample@)));
                        assert((r.0.text(), opt_text(r.1)) == template_choice(lang, key@, Some(t@), fb, true, Some(sample@)));
                        r
                    },
                }
            }
        },
    }
}

} // verus!
