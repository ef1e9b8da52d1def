//! The sprite of a clip: evenly spaced frames of its trimmed interval, side
//! by side in one image, for scrubbing on the timeline.

use vstd::prelude::*;
use vstd::arithmetic::div_mod::{
    lemma_div_multiples_vanish_fancy,
    lemma_fundamental_div_mod,
    lemma_mod_multiples_basic,
    lemma_mod_self_0,
};
use crate::text::{decimal, push_decimal, push_seconds, push_text, seconds_text, texts};
use crate::video_editor::concat::{Task, TaskView};

verus! {

/// Narrowest frame, in pixels, that can still be made out.
pub const MIN_FRAME_WIDTH: u32 = 50;

/// A frame rate as a fraction of whole numbers, in lowest terms.
#[derive(Debug, Clone, Copy, PartialEq, Eq, Structural)]
pub struct FrameRate {
    pub num: u64,
    pub den: u64,
}

/// How the frames of a sprite are laid out.
#[derive(Debug, Clone, Copy, PartialEq, Eq, Structural)]
pub struct SpriteLayout {
    /// Frames taken per second of the clip.
    pub fps: FrameRate,
    /// Number of frames in the strip.
    pub num_frames: u32,
    /// Width of each frame in pixels.
    pub frame_width: u32,
}

/// Most frames of the least width that fit into `width` pixels, and one at
/// least.
pub open spec fn max_frames(width: int) -> int {
    if width / 50 >= 1 {
        width / 50
    } else {
        1
    }
}

/// The frame rate for a sprite of `width` pixels over `duration`
/// microseconds, as numerator and denominator: the rate that spreads
/// [`max_frames`] frames evenly over the duration, but no more than ten
/// frames a second. However long the clip, the rate is never raised above
/// that: more frames than fit would be narrower than can be made out.
pub open spec fn sprite_rate(width: int, duration: int) -> (int, int) {
    let most = max_frames(width) * 1_000_000;
    if most > 10 * duration {
        (10, 1)
    } else {
        (most, duration)
    }
}

/// `a / b`, rounded up.
pub open spec fn ceil_div(a: int, b: int) -> int {
    (a + b - 1) / b
}

/// Number of frames of the sprite: the duration times the rate, rounded up,
/// and one at least. It is never more than [`max_frames`]: see
/// [`lemma_frames_stay_legible`].
pub open spec fn sprite_frames(width: int, duration: int) -> int {
    let rate = sprite_rate(width, duration);
    let frames = ceil_div(duration * rate.0, rate.1 * 1_000_000);
    if frames < 1 {
        1
    } else {
        frames
    }
}

/// Greatest common divisor, by Euclid's algorithm.
pub open spec fn gcd(a: nat, b: nat) -> nat
    decreases b,
{
    if b == 0 {
        a
    } else {
        gcd(b, a % b)
    }
}

/// The layout of a sprite of `width` pixels over `duration` microseconds.
pub open spec fn sprite_layout(width: int, duration: int) -> SpriteLayout {
    let rate = sprite_rate(width, duration);
    let g = gcd(rate.0 as nat, rate.1 as nat);
    SpriteLayout {
        fps: FrameRate { num: (rate.0 / g as int) as u64, den: (rate.1 / g as int) as u64 },
        num_frames: sprite_frames(width, duration) as u32,
        frame_width: (width / sprite_frames(width, duration)) as u32,
    }
}

/// A frame rate as the media tool reads it: a whole number, or numerator and
/// denominator with a slash between them.
pub open spec fn rate_text(rate: FrameRate) -> Seq<char> {
    if rate.den == 1 {
        decimal(rate.num as nat)
    } else {
        decimal(rate.num as nat) + "/"@ + decimal(rate.den as nat)
    }
}

/// The filter graph of a sprite: frames taken at the layout's rate, scaled
/// to `height`, then to the frame width, and tiled in one row.
pub open spec fn sprite_filter(layout: SpriteLayout, height: int) -> Seq<char> {
    "[0:v]fps="@ + rate_text(layout.fps) + ",scale=-1:"@ + decimal(height as nat) + ",scale="@
        + decimal(layout.frame_width as nat) + ":"@ + decimal(height as nat) + ",tile="@ + decimal(
        layout.num_frames as nat,
    ) + "x1[sprite]"@
}

/// Arguments that render the sprite of `[start, end)` of `input` into
/// `output`.
pub open spec fn sprite_args(
    input: Seq<char>,
    start: int,
    end: int,
    output: Seq<char>,
    width: int,
    height: int,
) -> Seq<Seq<char>> {
    seq![
        "-ss"@,
        seconds_text(start),
        "-i"@,
        input,
        "-t"@,
        seconds_text(end - start),
        "-filter_complex"@,
        sprite_filter(sprite_layout(width, end - start), height),
        "-map"@,
        "[sprite]"@,
        "-frames:v"@,
        "1"@,
        "-y"@,
        output,
    ]
}

/// `gcd(a, b)` divides both `a` and `b`, and is positive unless both are
/// zero.
pub proof fn lemma_gcd_divides(a: nat, b: nat)
    ensures
        gcd(a, b) > 0 ==> a % gcd(a, b) == 0 && b % gcd(a, b) == 0,
        a > 0 || b > 0 ==> gcd(a, b) > 0,
    decreases b,
{
    if b != 0 {
        lemma_gcd_divides(b, a % b);
        let g = gcd(a, b);
        if g > 0 {
            let r = a % b;
            let q = a / b;
            let kb = b / g;
            let kr = r / g;
            lemma_fundamental_div_mod(a as int, b as int);
            lemma_fundamental_div_mod(b as int, g as int);
            lemma_fundamental_div_mod(r as int, g as int);
            assert(a == (q * kb + kr) * g) by (nonlinear_arith)
                requires
                    a == b * q + r,
                    b == g * kb,
                    r == g * kr,
            ;
            lemma_mod_multiples_basic((q * kb + kr) as int, g as int);
        }
    } else if a > 0 {
        lemma_mod_self_0(a as int);
    }
}

/// Computes [`gcd`].
pub fn compute_gcd(a: u64, b: u64) -> (g: u64)
    ensures
        g == gcd(a as nat, b as nat),
{
    let mut x = a;
    let mut y = b;
    while y != 0
        invariant
            gcd(x as nat, y as nat) == gcd(a as nat, b as nat),
        decreases y,
    {
        let r = x % y;
        x = y;
        y = r;
    }
    x
}

/// Computes [`sprite_layout`] for the interval `[trim_start, trim_end)`.
pub fn compute_sprite_layout(width: u32, trim_start: i64, trim_end: i64) -> (layout: SpriteLayout)
    requires
        trim_end > trim_start,
    ensures
        layout == sprite_layout(width as int, trim_end - trim_start),
        1 <= layout.num_frames <= max_frames(width as int),
        layout.frame_width == width / layout.num_frames,
        width >= 50 ==> layout.frame_width >= 50,
        layout.fps.den >= 1,
{
    proof {
        lemma_frames_stay_legible(width as int, trim_end - trim_start);
    }
    let duration: u128 = (trim_end as i128 - trim_start as i128) as u128;
    let most_frames: u64 = if width / MIN_FRAME_WIDTH >= 1 {
        (width / MIN_FRAME_WIDTH) as u64
    } else {
        1
    };
    let most: u128 = most_frames as u128 * 1_000_000;
    let rate: (u64, u64) = if most > 10 * duration {
        (10, 1)
    } else {
        (most as u64, duration as u64)
    };
    assert(rate.0 as int == sprite_rate(width as int, trim_end - trim_start).0);
    assert(rate.1 as int == sprite_rate(width as int, trim_end - trim_start).1);
    let span: u128 = rate.1 as u128 * 1_000_000;
    assert(duration * rate.0 <= 0xffff_ffff_ffff_ffff_ffff_ffff_ffff) by (nonlinear_arith)
        requires
            duration < 0x1_0000_0000_0000_0000,
            rate.0 <= 100_000_000_000_000,
    ;
    let frames: u128 = (duration * rate.0 as u128 + span - 1) / span;
    assert(frames as int == ceil_div(duration as int * rate.0 as int, rate.1 as int * 1_000_000));
    let num_frames: u32 = if frames < 1 {
        1
    } else {
        frames as u32
    };
    assert(num_frames as int == sprite_frames(width as int, trim_end - trim_start));
    let g = compute_gcd(rate.0, rate.1);
    proof {
        lemma_gcd_divides(rate.0 as nat, rate.1 as nat);
        assert(rate.1 % g == 0);
        assert(rate.1 / g >= 1) by (nonlinear_arith)
            requires
                rate.1 >= 1,
                g >= 1,
                rate.1 % g == 0,
        ;
    }
    SpriteLayout {
        fps: FrameRate { num: rate.0 / g, den: rate.1 / g },
        num_frames,
        frame_width: width / num_frames,
    }
}

/// Appends the text of `rate`: see [`rate_text`].
fn push_rate(out: &mut String, rate: &FrameRate)
    ensures
        final(out)@ == old(out)@ + rate_text(*rate),
{
    push_decimal(out, rate.num as u128);
    if rate.den != 1 {
        out.append("/");
        push_decimal(out, rate.den as u128);
        assert(out@ =~= old(out)@ + rate_text(*rate));
    }
}

/// Builds [`sprite_filter`].
pub fn build_sprite_filter(layout: &SpriteLayout, height: u32) -> (filter: String)
    ensures
        filter@ == sprite_filter(*layout, height as int),
{
    let mut filter = String::from_str("[0:v]fps=");
    push_rate(&mut filter, &layout.fps);
    filter.append(",scale=-1:");
    push_decimal(&mut filter, height as u128);
    filter.append(",scale=");
    push_decimal(&mut filter, layout.frame_width as u128);
    filter.append(":");
    push_decimal(&mut filter, height as u128);
    filter.append(",tile=");
    push_decimal(&mut filter, layout.num_frames as u128);
    filter.append("x1[sprite]");
    assert(filter@ =~= sprite_filter(*layout, height as int));
    filter
}

/// The task that renders the sprite of `[trim_start, trim_end)` of
/// `video_path` into `output_path`, `width` pixels wide and `height` high.
/// An interval that is empty or runs backwards is refused.
pub fn generate_sprite_image(
    video_path: &str,
    trim_start: i64,
    trim_end: i64,
    output_path: &str,
    width: u32,
    height: u32,
) -> (r: Result<Task, String>)
    ensures
        trim_end <= trim_start ==> r is Err && r->Err_0@
            == "Invalid duration: trim_end must be greater than trim_start"@,
        trim_end > trim_start ==> r is Ok && r->Ok_0@ == (TaskView::Run {
            args: sprite_args(
                video_path@,
                trim_start as int,
                trim_end as int,
                output_path@,
                width as int,
                height as int,
            ),
            op: "generate sprite"@,
        }),
        trim_end > trim_start ==> 1 <= sprite_frames(width as int, trim_end - trim_start)
            <= max_frames(width as int),
        trim_end > trim_start && width >= 50 ==> width as int / sprite_frames(
            width as int,
            trim_end - trim_start,
        ) >= 50,
{
    if trim_end <= trim_start {
        return Err(String::from_str("Invalid duration: trim_end must be greater than trim_start"));
    }
    proof {
        lemma_frames_stay_legible(width as int, trim_end - trim_start);
    }
    let layout = compute_sprite_layout(width, trim_start, trim_end);
    let filter_complex = build_sprite_filter(&layout, height);
    let mut start_text = String::new();
    push_seconds(&mut start_text, trim_start as i128);
    let mut length_text = String::new();
    push_seconds(&mut length_text, trim_end as i128 - trim_start as i128);
    assert(start_text@ =~= seconds_text(trim_start as int));
    assert(length_text@ =~= seconds_text(trim_end - trim_start));
    let mut args: Vec<String> = Vec::new();
    push_text(&mut args, String::from_str("-ss"));
    push_text(&mut args, start_text);
    push_text(&mut args, String::from_str("-i"));
    push_text(&mut args, String::from_str(video_path));
    push_text(&mut args, String::from_str("-t"));
    push_text(&mut args, length_text);
    push_text(&mut args, String::from_str("-filter_complex"));
    push_text(&mut args, filter_complex);
    push_text(&mut args, String::from_str("-map"));
    push_text(&mut args, String::from_str("[sprite]"));
    push_text(&mut args, String::from_str("-frames:v"));
    push_text(&mut args, String::from_str("1"));
    push_text(&mut args, String::from_str("-y"));
    push_text(&mut args, String::from_str(output_path));
    assert(texts(args@) =~= sprite_args(
        video_path@,
        trim_start as int,
        trim_end as int,
        output_path@,
        width as int,
        height as int,
    ));
    Ok(Task::Run { args, op: String::from_str("generate sprite") })
}

/// However long the clip, a sprite has no more frames than fit at the least
/// width: where the sprite is at least that wide, no frame is narrower than
/// it. And where the rate is not held at ten frames a second, the sprite has
/// exactly [`max_frames`] frames.
pub proof fn lemma_frames_stay_legible(width: int, duration: int)
    requires
        0 <= width,
        duration > 0,
    ensures
        1 <= sprite_frames(width, duration) <= max_frames(width),
        width >= 50 ==> width / sprite_frames(width, duration) >= 50,
        max_frames(width) * 1_000_000 <= 10 * duration ==> sprite_frames(width, duration)
            == max_frames(width),
{
    let m = max_frames(width);
    let most = m * 1_000_000;
    let frames = sprite_frames(width, duration);
    if most > 10 * duration {
        assert(ceil_div(duration * 10, 1_000_000int) <= m);
    } else {
        let span = duration * 1_000_000;
        assert(duration * most == span * m) by (nonlinear_arith)
            requires
                most == m * 1_000_000,
                span == duration * 1_000_000,
        ;
        assert(span > 0);
        lemma_div_multiples_vanish_fancy(m, span - 1, span);
        assert(ceil_div(duration * most, span) == m);
    }
    assert(frames <= m);
    if width >= 50 {
        assert(width / frames >= 50) by (nonlinear_arith)
            requires
                frames >= 1,
                frames <= m,
                50 * m <= width,
        ;
    }
}

} // verus!
