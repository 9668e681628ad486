use vstd::prelude::*;
use crate::led_canvas::LedCanvasTrait;
use crate::pixel_grid::{paint, uniform, well_formed, PixelGrid};
use crate::led_color::LedColor;
use crate::led_font::{Glyph, LedFont};
use crate::line::on_line;
use crate::text::text_covers;

verus! {

/// A reading of the wall clock: a calendar date and a time of day.
#[derive(Debug, Clone, Copy, PartialEq, Eq, Structural)]
pub struct ClockReading {
    pub year: i32,
    pub month: u32,
    pub day: u32,
    pub hour: u32,
    pub minute: u32,
    pub second: u32,
}

/// The decimal digit for a value below ten.
pub open spec fn decimal_digit(d: int) -> char {
    if d == 0 {
        '0'
    } else if d == 1 {
        '1'
    } else if d == 2 {
        '2'
    } else if d == 3 {
        '3'
    } else if d == 4 {
        '4'
    } else if d == 5 {
        '5'
    } else if d == 6 {
        '6'
    } else if d == 7 {
        '7'
    } else if d == 8 {
        '8'
    } else {
        '9'
    }
}

/// Whether `hour` and `minute` are a time of day.
pub open spec fn is_time_of_day(hour: int, minute: int) -> bool {
    0 <= hour < 24 && 0 <= minute < 60
}

/// The text of a time of day: hour and minute, two digits each, with a
/// colon between them.
pub open spec fn time_text(hour: int, minute: int) -> Seq<char> {
    seq![
        decimal_digit(hour / 10),
        decimal_digit(hour % 10),
        ':',
        decimal_digit(minute / 10),
        decimal_digit(minute % 10),
    ]
}

/// The text that chrono writes for a calendar date under the format
/// `%a %b %e`: the abbreviated names of the weekday and of the month and
/// the day of the month. There is none where the calendar has no such date.
pub uninterp spec fn date_text(year: int, month: int, day: int) -> Option<Seq<char>>;

/// Formats a time of day with chrono: `NaiveTime::from_hms_opt` makes the
/// time, and `NaiveTime::format` with `%H:%M` writes it. The contract
/// claims that chrono takes hours below 24 and minutes below 60 and no
/// others, and that it writes both numbers with two digits.
#[verifier::external_body]
fn format_time(hour: u32, minute: u32) -> (text: Option<String>)
    ensures
        match text {
            Some(written) => is_time_of_day(hour as int, minute as int) && written@ == time_text(
                hour as int,
                minute as int,
            ),
            None => !is_time_of_day(hour as int, minute as int),
        },
{
    match chrono::NaiveTime::from_hms_opt(hour, minute, 0) {
        Some(time) => Some(time.format("%H:%M").to_string()),
        None => None,
    }
}

/// Formats a calendar date with chrono: `NaiveDate::from_ymd_opt` makes the
/// date, and `NaiveDate::format` with `%a %b %e` writes it. The contract
/// claims only that the text depends on the three numbers alone.
#[verifier::external_body]
fn format_date(year: i32, month: u32, day: u32) -> (text: Option<String>)
    ensures
        match text {
            Some(written) => date_text(year as int, month as int, day as int) == Some(written@),
            None => date_text(year as int, month as int, day as int) is None,
        },
{
    match chrono::NaiveDate::from_ymd_opt(year, month, day) {
        Some(date) => Some(date.format("%a %b %e").to_string()),
        None => None,
    }
}

/// The buffer of the clock face: on black, the time from `(18, 0)`, the
/// date from `(2, 18)`, and, unless the second is zero, a bar on row 14
/// from column 2 that is one cell longer per second.
pub open spec fn clock_face(
    len: nat,
    width: int,
    height: int,
    time: Seq<Glyph>,
    date: Seq<Glyph>,
    second: int,
    value: u32,
) -> Seq<u32> {
    let with_time = paint(
        uniform(len, 0),
        width,
        value,
        |x: int, y: int| text_covers(time, (18, 0), 0, false, width, height, x, y),
    );
    let with_date = paint(
        with_time,
        width,
        value,
        |x: int, y: int| text_covers(date, (2, 18), 0, false, width, height, x, y),
    );
    if second != 0 {
        paint(with_date, width, value, |x: int, y: int| on_line(2, 14, 2 + second, 14, x, y))
    } else {
        with_date
    }
}

/// Whether the clock face can be drawn with the given texts: the fonts
/// have their glyphs, the canvas has cells when there is text to wrap, and
/// the end of the seconds bar is a coordinate.
pub open spec fn can_draw_clock_face(
    width: int,
    height: int,
    font_lg: &LedFont,
    font_sm: &LedFont,
    time: Seq<char>,
    date: Seq<char>,
    second: int,
) -> bool {
    &&& font_lg.covers(time)
    &&& font_sm.covers(date)
    &&& time.len() + date.len() > 0 ==> width > 0 && height > 0
    &&& 2 + second <= i32::MAX
}

/// Draws the clock face with the given texts for time and date.
pub fn draw_clock_face<C: LedCanvasTrait>(
    canvas: &mut C,
    font_lg: &LedFont,
    font_sm: &LedFont,
    time: &str,
    date: &str,
    second: u32,
    color: &LedColor,
)
    requires
        can_draw_clock_face(
            old(canvas).width(),
            old(canvas).height(),
            font_lg,
            font_sm,
            time@,
            date@,
            second as int,
        ),
    ensures
        well_formed(*final(canvas)),
        final(canvas).width() == old(canvas).width(),
        final(canvas).height() == old(canvas).height(),
        final(canvas).cells() == clock_face(
            old(canvas).cells().len(),
            old(canvas).width(),
            old(canvas).height(),
            font_lg.text_glyphs(time@),
            font_sm.text_glyphs(date@),
            second as int,
            color.packed(),
        ),
{
    canvas.clear();
    canvas.draw_text(font_lg, time, 18, 0, color, 0, false);
    canvas.draw_text(font_sm, date, 2, 18, color, 0, false);
    if second != 0 {
        canvas.draw_line(2, 14, 2 + second as i32, 14, color);
    }
}

/// Draws the clock face for a reading of the clock, where it can be
/// drawn, and tells whether it was: the reading must hold a time of day
/// and a date of the calendar, and the texts for them must be drawable.
/// Where it was not drawn, the canvas is as it was.
pub fn draw_clock<C: LedCanvasTrait>(
    canvas: &mut C,
    font_lg: &LedFont,
    font_sm: &LedFont,
    now: &ClockReading,
    color: &LedColor,
) -> (drawn: bool)
    ensures
        well_formed(*final(canvas)),
        final(canvas).width() == old(canvas).width(),
        final(canvas).height() == old(canvas).height(),
        drawn <==> is_time_of_day(now.hour as int, now.minute as int) && date_text(
            now.year as int,
            now.month as int,
            now.day as int,
        ) is Some && can_draw_clock_face(
            old(canvas).width(),
            old(canvas).height(),
            font_lg,
            font_sm,
            time_text(now.hour as int, now.minute as int),
            date_text(now.year as int, now.month as int, now.day as int).unwrap(),
            now.second as int,
        ),
        drawn ==> final(canvas).cells() == clock_face(
            old(canvas).cells().len(),
            old(canvas).width(),
            old(canvas).height(),
            font_lg.text_glyphs(time_text(now.hour as int, now.minute as int)),
            font_sm.text_glyphs(
                date_text(now.year as int, now.month as int, now.day as int).unwrap(),
            ),
            now.second as int,
            color.packed(),
        ),
        !drawn ==> final(canvas).cells() == old(canvas).cells(),
{
    let (width, height) = canvas.canvas_size();
    let time = match format_time(now.hour, now.minute) {
        Some(time) => time,
        None => {
            return false;
        },
    };
    let date = match format_date(now.year, now.month, now.day) {
        Some(date) => date,
        None => {
            return false;
        },
    };
    if !font_lg.covers_text(time.as_str()) || !font_sm.covers_text(date.as_str()) {
        return false;
    }
    let no_text = time.as_str().unicode_len() == 0 && date.as_str().unicode_len() == 0;
    if !no_text && (width == 0 || height == 0) {
        return false;
    }
    if now.second > 0x7fff_fffd {
        return false;
    }
    draw_clock_face(canvas, font_lg, font_sm, time.as_str(), date.as_str(), now.second, color);
    true
}

} // verus!
