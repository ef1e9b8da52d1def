//! Asking the probing tool how long a video is.
//!
//! The tool answers in JSON; the duration stands in it as text, in seconds.
//! The library reads it as a decimal number: an optional sign, digits, and
//! optionally a point and more digits. Digits beyond the sixth after the
//! point are dropped.

use vstd::prelude::*;
use crate::json::{member, text_of, Json};
use crate::text::{
    all_digits,
    decimal,
    digit_value,
    digits_value,
    fraction_digits,
    is_digit,
    lemma_decimal_stands_for,
    lemma_digits_value_grows,
    push_text,
    seconds_text,
    texts,
    to_chars,
};

verus! {

/// Arguments that make the probing tool describe the container of
/// `video_path` in JSON.
pub open spec fn probe_args(video_path: Seq<char>) -> Seq<Seq<char>> {
    seq!["-v"@, "quiet"@, "-print_format"@, "json"@, "-show_format"@, video_path]
}

/// Builds [`probe_args`].
pub fn build_probe_args(video_path: &str) -> (args: Vec<String>)
    ensures
        texts(args@) == probe_args(video_path@),
{
    let mut args: Vec<String> = Vec::new();
    push_text(&mut args, String::from_str("-v"));
    push_text(&mut args, String::from_str("quiet"));
    push_text(&mut args, String::from_str("-print_format"));
    push_text(&mut args, String::from_str("json"));
    push_text(&mut args, String::from_str("-show_format"));
    push_text(&mut args, String::from_str(video_path));
    assert(texts(args@) =~= probe_args(video_path@));
    args
}

/// The value of the digits `frac` after the point, in units of which `unit`
/// is the weight of the first digit; a power of ten, so that digits whose
/// weight would be below one count for nothing.
pub open spec fn fraction_value(frac: Seq<char>, unit: int) -> int
    decreases frac.len(),
{
    if frac.len() == 0 || unit <= 0 {
        0
    } else {
        digit_value(frac[0]) * unit + fraction_value(frac.drop_first(), unit / 10)
    }
}

/// Number of characters of `s` before its first point.
pub open spec fn point_position(s: Seq<char>) -> int
    decreases s.len(),
{
    if s.len() == 0 || s[0] == '.' {
        0
    } else {
        1 + point_position(s.drop_first())
    }
}

/// `s` without the sign at its start, if it has one.
pub open spec fn unsigned_part(s: Seq<char>) -> Seq<char> {
    if s.len() > 0 && (s[0] == '-' || s[0] == '+') {
        s.drop_first()
    } else {
        s
    }
}

/// The digits of `s` before the point.
pub open spec fn whole_part(s: Seq<char>) -> Seq<char> {
    unsigned_part(s).take(point_position(unsigned_part(s)))
}

/// The digits of `s` after the point.
pub open spec fn fraction_part(s: Seq<char>) -> Seq<char> {
    let body = unsigned_part(s);
    if point_position(body) < body.len() {
        body.skip(point_position(body) + 1)
    } else {
        Seq::<char>::empty()
    }
}

/// Whether `s` is a decimal number: an optional sign, then digits with at
/// most one point among them, and one digit at least.
pub open spec fn is_decimal(s: Seq<char>) -> bool {
    all_digits(whole_part(s)) && all_digits(fraction_part(s)) && whole_part(s).len()
        + fraction_part(s).len() > 0
}

/// The time in microseconds that the decimal number `s` gives in seconds.
pub open spec fn decimal_micros(s: Seq<char>) -> int {
    let magnitude = digits_value(whole_part(s)) * 1_000_000 + fraction_value(
        fraction_part(s),
        100_000,
    );
    if s.len() > 0 && s[0] == '-' {
        -magnitude
    } else {
        magnitude
    }
}

/// What the text `s` gives as a time: the microseconds of a decimal number
/// of seconds, if it is one and the time can be held in an `i64`.
pub open spec fn parsed_seconds(s: Seq<char>) -> Option<int> {
    if is_decimal(s) && i64::MIN <= decimal_micros(s) <= i64::MAX {
        Some(decimal_micros(s))
    } else {
        None
    }
}

/// The digits after the point come to less than ten times the weight of the
/// first.
pub proof fn lemma_fraction_value_bound(frac: Seq<char>, unit: int)
    requires
        all_digits(frac),
        unit == 100_000 || unit == 10_000 || unit == 1_000 || unit == 100 || unit == 10 || unit
            == 1 || unit == 0,
    ensures
        0 <= fraction_value(frac, unit) < 10 * unit || (unit == 0 && fraction_value(frac, unit)
            == 0),
    decreases frac.len(),
{
    if frac.len() > 0 && unit > 0 {
        assert(is_digit(frac[0]));
        lemma_fraction_value_bound(frac.drop_first(), unit / 10);
    }
}

/// Whether `c` is a decimal digit.
fn is_decimal_digit(c: char) -> (digit: bool)
    ensures
        digit == is_digit(c),
{
    '0' <= c && c <= '9'
}

/// Reads a time in seconds: see [`parsed_seconds`].
pub fn parse_seconds(s: &str) -> (micros: Option<i64>)
    ensures
        match parsed_seconds(s@) {
            Some(v) => micros == Some(v as i64),
            None => micros is None,
        },
{
    let chars = to_chars(s);
    let n = chars.len();
    let negative = n > 0 && chars[0] == '-';
    let start: usize = if n > 0 && (chars[0] == '-' || chars[0] == '+') {
        1
    } else {
        0
    };
    let ghost body = unsigned_part(s@);
    assert(body =~= chars@.subrange(start as int, n as int));
    // The digits before the point.
    let mut whole: i128 = 0;
    let mut i: usize = start;
    proof {
        assert(body.skip(0) =~= body);
        lemma_point_position_bound(body);
    }
    while i < n && chars[i] != '.'
        invariant
            start <= i <= n,
            n == chars.len(),
            body == chars@.subrange(start as int, n as int),
            body == unsigned_part(s@),
            forall|k: int| start <= k < i ==> is_digit(#[trigger] chars@[k]) && chars@[k] != '.',
            whole == digits_value(chars@.subrange(start as int, i as int)),
            0 <= whole <= 9_300_000_000_000,
            0 <= point_position(body) <= body.len(),
            point_position(body) == (i - start) + point_position(body.skip(i - start)),
        decreases n - i,
    {
        let c = chars[i];
        proof {
            let rest = body.skip(i - start);
            assert(rest[0] == c);
            assert(rest.drop_first() =~= body.skip(i + 1 - start));
            let longer = chars@.subrange(start as int, i + 1);
            assert(longer.drop_last() =~= chars@.subrange(start as int, i as int));
            assert(longer.last() == c);
        }
        if !is_decimal_digit(c) {
            proof {
                lemma_point_position_bound(body.skip(i + 1 - start));
                let p = point_position(body);
                assert(p > i - start);
                assert(whole_part(s@)[i - start] == c);
                assert(!is_digit(whole_part(s@)[i - start]));
            }
            return None;
        }
        let digit: i128 = (c as u32 - 48) as i128;
        whole = whole * 10 + digit;
        if whole > 9_300_000_000_000 {
            proof {
                // Too many seconds for an `i64` of microseconds, whatever
                // follows: either it is no number, or it is too large.
                let seen = chars@.subrange(start as int, i + 1);
                lemma_point_position_bound(body.skip(i + 1 - start));
                let p = point_position(body);
                let w = whole_part(s@);
                assert(w.take(i + 1 - start) =~= seen);
                if is_decimal(s@) {
                    lemma_digits_value_grows(w, i + 1 - start);
                    lemma_fraction_value_bound(fraction_part(s@), 100_000);
                }
            }
            return None;
        }
        i = i + 1;
    }
    proof {
        let rest = body.skip(i - start);
        if i < n {
            assert(rest[0] == '.');
        }
        assert(point_position(body) == i - start);
        assert(whole_part(s@) =~= chars@.subrange(start as int, i as int));
    }
    // The digits after the point.
    let frac_start: usize = if i < n {
        i + 1
    } else {
        n
    };
    let ghost frac = fraction_part(s@);
    assert(frac =~= chars@.subrange(frac_start as int, n as int));
    let mut fraction: i128 = 0;
    let mut unit: i128 = 100_000;
    let mut j: usize = frac_start;
    assert(chars@.subrange(frac_start as int, n as int).skip(0) =~= frac);
    while j < n
        invariant
            frac_start <= j <= n,
            n == chars.len(),
            frac == chars@.subrange(frac_start as int, n as int),
            frac == fraction_part(s@),
            forall|k: int| frac_start <= k < j ==> is_digit(#[trigger] chars@[k]),
            unit == 100_000 || unit == 10_000 || unit == 1_000 || unit == 100 || unit == 10
                || unit == 1 || unit == 0,
            0 <= fraction,
            fraction + 10 * unit <= 1_000_000,
            fraction_value(frac, 100_000) == fraction + fraction_value(
                frac.skip(j - frac_start),
                unit as int,
            ),
        decreases n - j,
    {
        let c = chars[j];
        proof {
            let rest = frac.skip(j - frac_start);
            assert(rest[0] == c);
            assert(rest.drop_first() =~= frac.skip(j + 1 - frac_start));
        }
        if !is_decimal_digit(c) {
            assert(frac[j - frac_start] == c);
            assert(!is_digit(frac[j - frac_start]));
            return None;
        }
        let digit: i128 = (c as u32 - 48) as i128;
        assert(0 <= digit * unit <= 9 * unit) by (nonlinear_arith)
            requires
                0 <= digit <= 9,
                unit >= 0,
        ;
        fraction = fraction + digit * unit;
        unit = unit / 10;
        j = j + 1;
    }
    proof {
        assert(frac.skip(n - frac_start).len() == 0);
        assert(all_digits(whole_part(s@))) by {
            assert forall|k: int| 0 <= k < whole_part(s@).len() implies is_digit(
                #[trigger] whole_part(s@)[k],
            ) by {
                assert(whole_part(s@)[k] == chars@[start + k]);
            }
        }
        assert(all_digits(frac)) by {
            assert forall|k: int| 0 <= k < frac.len() implies is_digit(#[trigger] frac[k]) by {
                assert(frac[k] == chars@[frac_start + k]);
            }
        }
    }
    if (i - start) + (n - frac_start) == 0 {
        return None;
    }
    let magnitude: i128 = whole * 1_000_000 + fraction;
    let value: i128 = if negative {
        -magnitude
    } else {
        magnitude
    };
    if value < i64::MIN as i128 || value > i64::MAX as i128 {
        return None;
    }
    Some(value as i64)
}

/// No run has its first point behind its end.
pub proof fn lemma_point_position_bound(s: Seq<char>)
    ensures
        0 <= point_position(s) <= s.len(),
    decreases s.len(),
{
    if s.len() > 0 && s[0] != '.' {
        lemma_point_position_bound(s.drop_first());
    }
}

/// The message for a probe that exited with a failure.
pub open spec fn probe_failure_text(stderr: Seq<char>) -> Seq<char> {
    "FFprobe failed: "@ + stderr
}

/// The message for a duration that is no time.
pub open spec fn bad_duration_text(text: Seq<char>) -> Seq<char> {
    "Failed to parse duration '"@ + text + "': "@ + (if text.len() == 0 {
        "cannot parse float from empty string"@
    } else {
        "invalid float literal"@
    })
}

/// The text of the duration in what the probe printed: the member `duration`
/// of the member `format`, if it is a string.
pub open spec fn duration_text(json: Json) -> Option<Seq<char>> {
    match member(json, "format"@) {
        Some(format) => match member(format, "duration"@) {
            Some(duration) => text_of(duration),
            None => None,
        },
        None => None,
    }
}

/// The duration of a video in microseconds, from how the probe went: whether
/// it exited with success, what it wrote to its error stream, and what it
/// printed, as the host has parsed it or failed to parse it.
pub open spec fn probed_duration(
    success: bool,
    stderr: Seq<char>,
    printed: Result<Json, String>,
) -> Result<int, Seq<char>> {
    if !success {
        Err(probe_failure_text(stderr))
    } else {
        match printed {
            Err(e) => Err("Failed to parse ffprobe JSON output: "@ + e@),
            Ok(json) => match duration_text(json) {
                None => Err("Duration not found in ffprobe output"@),
                Some(text) => match parsed_seconds(text) {
                    Some(v) => Ok(v),
                    None => Err(bad_duration_text(text)),
                },
            },
        }
    }
}

/// Reads the duration of a video from the outcome of the probe: see
/// [`probed_duration`].
pub fn get_video_duration(success: bool, stderr: &str, printed: &Result<Json, String>) -> (r:
    Result<i64, String>)
    ensures
        match probed_duration(success, stderr@, *printed) {
            Ok(v) => r == Ok::<i64, String>(v as i64),
            Err(e) => r is Err && r->Err_0@ == e,
        },
{
    if !success {
        let mut message = String::from_str("FFprobe failed: ");
        message.append(stderr);
        return Err(message);
    }
    let json = match printed {
        Ok(json) => json,
        Err(e) => {
            let mut message = String::from_str("Failed to parse ffprobe JSON output: ");
            message.append(e.as_str());
            return Err(message);
        },
    };
    let found = match json.get("format") {
        Some(format) => match format.get("duration") {
            Some(duration) => duration.as_str(),
            None => None,
        },
        None => None,
    };
    let text = match found {
        Some(text) => text,
        None => {
            return Err(String::from_str("Duration not found in ffprobe output"));
        },
    };
    match parse_seconds(text) {
        Some(v) => Ok(v),
        None => {
            let mut message = String::from_str("Failed to parse duration '");
            message.append(text);
            message.append("': ");
            if text.is_empty() {
                message.append("cannot parse float from empty string");
            } else {
                message.append("invalid float literal");
            }
            Err(message)
        },
    }
}

/// The digits written after the point are digits, and they stand for the
/// fraction they were written for.
pub proof fn lemma_fraction_stands_for(frac: nat, unit: nat)
    requires
        unit == 100_000 || unit == 10_000 || unit == 1_000 || unit == 100 || unit == 10 || unit
            == 1 || unit == 0,
        frac < 10 * unit || frac == 0,
    ensures
        all_digits(fraction_digits(frac, unit)),
        fraction_value(fraction_digits(frac, unit), unit as int) == frac,
    decreases unit,
{
    if frac != 0 && unit != 0 {
        let rest = fraction_digits(frac % unit, unit / 10);
        let s = fraction_digits(frac, unit);
        lemma_fraction_stands_for(frac % unit, unit / 10);
        assert(s.drop_first() =~= rest);
        assert(frac / unit < 10);
        assert(is_digit(s[0]));
        assert(digit_value(s[0]) == frac / unit);
        assert forall|i: int| 0 <= i < s.len() implies is_digit(#[trigger] s[i]) by {
            if i > 0 {
                assert(s[i] == rest[i - 1]);
            }
        }
        assert((frac / unit) * unit + frac % unit == frac) by (nonlinear_arith)
            requires
                unit > 0,
        ;
    }
}

/// Where `head` holds no point, the first point of `head + tail` is the
/// first point of `tail`.
pub proof fn lemma_point_behind(head: Seq<char>, tail: Seq<char>)
    requires
        forall|i: int| 0 <= i < head.len() ==> #[trigger] head[i] != '.',
    ensures
        point_position(head + tail) == head.len() + point_position(tail),
    decreases head.len(),
{
    if head.len() == 0 {
        assert(head + tail =~= tail);
    } else {
        let rest = head.drop_first();
        assert forall|i: int| 0 <= i < rest.len() implies #[trigger] rest[i] != '.' by {
            assert(rest[i] == head[i + 1]);
        }
        lemma_point_behind(rest, tail);
        assert((head + tail).drop_first() =~= rest + tail);
        assert((head + tail)[0] == head[0]);
    }
}

/// A time that the library writes, it reads back as the same time: the text
/// of a time in seconds is a decimal number, and the microseconds it gives
/// are those it was written for.
pub proof fn lemma_seconds_read_back(micros: int)
    requires
        i64::MIN <= micros <= i64::MAX,
    ensures
        is_decimal(seconds_text(micros)),
        parsed_seconds(seconds_text(micros)) == Some(micros),
{
    let text = seconds_text(micros);
    let magnitude: nat = if micros < 0 {
        (-micros) as nat
    } else {
        micros as nat
    };
    let whole = decimal(magnitude / 1_000_000);
    let fraction = if magnitude % 1_000_000 == 0 {
        Seq::<char>::empty()
    } else {
        seq!['.'] + fraction_digits(magnitude % 1_000_000, 100_000)
    };
    lemma_decimal_stands_for(magnitude / 1_000_000);
    lemma_fraction_stands_for(magnitude % 1_000_000, 100_000);
    assert(is_digit(whole[0]));
    let body = whole + fraction;
    if micros < 0 {
        assert(text =~= seq!['-'] + body);
        assert(text[0] == '-');
        assert(unsigned_part(text) =~= body);
    } else {
        assert(text =~= body);
        assert(text[0] == whole[0]);
        assert(unsigned_part(text) =~= body);
    }
    assert forall|i: int| 0 <= i < whole.len() implies #[trigger] whole[i] != '.' by {
        assert(is_digit(whole[i]));
    }
    lemma_point_behind(whole, fraction);
    assert(body.take(whole.len() as int) =~= whole);
    if magnitude % 1_000_000 == 0 {
        assert(point_position(fraction) == 0);
        assert(fraction_part(text) =~= Seq::<char>::empty());
        assert(whole_part(text) =~= whole);
    } else {
        assert(fraction[0] == '.');
        assert(point_position(fraction) == 0);
        assert(whole_part(text) =~= whole);
        assert(fraction_part(text) =~= fraction_digits(magnitude % 1_000_000, 100_000));
    }
    assert((magnitude / 1_000_000) * 1_000_000 + magnitude % 1_000_000 == magnitude);
}

} // verus!
