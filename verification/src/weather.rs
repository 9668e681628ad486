use vstd::prelude::*;
use vstd::arithmetic::div_mod::{
    lemma_fundamental_div_mod, lemma_fundamental_div_mod_converse, lemma_mod_pos_bound,
};
use crate::led_canvas::LedCanvasTrait;
use crate::pixel_grid::{
    cell_index, cell_x, cell_y, in_bounds, lemma_cell_coordinates, lemma_cell_index, paint, plot,
    well_formed, PixelGrid,
};
use crate::led_color::{unpack, LedColor};
use crate::led_font::{Glyph, LedFont};
use crate::text::{text_covers, wrap};

verus! {

/// The weather that a WMO weather code reports.
#[derive(Debug, Clone, Copy, PartialEq, Eq, Structural)]
pub enum WeatherCondition {
    Unknown,
    ClearSky,
    MainlyClear,
    PartlyCloudy,
    Overcast,
    Fog,
    RimeFog,
    DrizzleLight,
    DrizzleModerate,
    DrizzleDense,
    FreezingDrizzleLight,
    FreezingDrizzleDense,
    RainSlight,
    RainModerate,
    RainHeavy,
    FreezingRainLight,
    FreezingRainHeavy,
    SnowFallSlight,
    SnowFallModerate,
    SnowFallHeavy,
    SnowGrains,
    RainShowersSlight,
    RainShowersModerate,
    RainShowersViolent,
    SnowShowersSlight,
    SnowShowersHeavy,
    ThunderstormSlight,
    ThunderstormModerate,
    ThunderstormHeavy,
}

/// The condition of a WMO weather code; a code that the table does not
/// list is `Unknown`.
pub open spec fn condition_of_code(code: int) -> WeatherCondition {
    if code == 0 {
        WeatherCondition::ClearSky
    } else if code == 1 {
        WeatherCondition::MainlyClear
    } else if code == 2 {
        WeatherCondition::PartlyCloudy
    } else if code == 3 {
        WeatherCondition::Overcast
    } else if code == 45 {
        WeatherCondition::Fog
    } else if code == 48 {
        WeatherCondition::RimeFog
    } else if code == 51 {
        WeatherCondition::DrizzleLight
    } else if code == 53 {
        WeatherCondition::DrizzleModerate
    } else if code == 55 {
        WeatherCondition::DrizzleDense
    } else if code == 56 {
        WeatherCondition::FreezingDrizzleLight
    } else if code == 57 {
        WeatherCondition::FreezingDrizzleDense
    } else if code == 61 {
        WeatherCondition::RainSlight
    } else if code == 63 {
        WeatherCondition::RainModerate
    } else if code == 65 {
        WeatherCondition::RainHeavy
    } else if code == 66 {
        WeatherCondition::FreezingRainLight
    } else if code == 67 {
        WeatherCondition::FreezingRainHeavy
    } else if code == 71 {
        WeatherCondition::SnowFallSlight
    } else if code == 73 {
        WeatherCondition::SnowFallModerate
    } else if code == 75 {
        WeatherCondition::SnowFallHeavy
    } else if code == 77 {
        WeatherCondition::SnowGrains
    } else if code == 80 {
        WeatherCondition::RainShowersSlight
    } else if code == 81 {
        WeatherCondition::RainShowersModerate
    } else if code == 82 {
        WeatherCondition::RainShowersViolent
    } else if code == 85 {
        WeatherCondition::SnowShowersSlight
    } else if code == 86 {
        WeatherCondition::SnowShowersHeavy
    } else if code == 95 {
        WeatherCondition::ThunderstormSlight
    } else if code == 96 {
        WeatherCondition::ThunderstormModerate
    } else if code == 99 {
        WeatherCondition::ThunderstormHeavy
    } else {
        WeatherCondition::Unknown
    }
}

impl From<usize> for WeatherCondition {
    /// The condition of a WMO weather code.
    fn from(value: usize) -> (condition: Self) {
        match value {
            0 => WeatherCondition::ClearSky,
            1 => WeatherCondition::MainlyClear,
            2 => WeatherCondition::PartlyCloudy,
            3 => WeatherCondition::Overcast,
            45 => WeatherCondition::Fog,
            48 => WeatherCondition::RimeFog,
            51 => WeatherCondition::DrizzleLight,
            53 => WeatherCondition::DrizzleModerate,
            55 => WeatherCondition::DrizzleDense,
            56 => WeatherCondition::FreezingDrizzleLight,
            57 => WeatherCondition::FreezingDrizzleDense,
            61 => WeatherCondition::RainSlight,
            63 => WeatherCondition::RainModerate,
            65 => WeatherCondition::RainHeavy,
            66 => WeatherCondition::FreezingRainLight,
            67 => WeatherCondition::FreezingRainHeavy,
            71 => WeatherCondition::SnowFallSlight,
            73 => WeatherCondition::SnowFallModerate,
            75 => WeatherCondition::SnowFallHeavy,
            77 => WeatherCondition::SnowGrains,
            80 => WeatherCondition::RainShowersSlight,
            81 => WeatherCondition::RainShowersModerate,
            82 => WeatherCondition::RainShowersViolent,
            85 => WeatherCondition::SnowShowersSlight,
            86 => WeatherCondition::SnowShowersHeavy,
            95 => WeatherCondition::ThunderstormSlight,
            96 => WeatherCondition::ThunderstormModerate,
            99 => WeatherCondition::ThunderstormHeavy,
            _ => WeatherCondition::Unknown,
        }
    }
}

impl vstd::std_specs::convert::FromSpecImpl<usize> for WeatherCondition {
    open spec fn obeys_from_spec() -> bool {
        true
    }

    open spec fn from_spec(value: usize) -> Self {
        condition_of_code(value as int)
    }
}

/// A point of the compass towards which the wind indicator points.
#[derive(Debug, Clone, Copy, PartialEq, Eq, Structural)]
pub enum WindDirection {
    North,
    NorthEast,
    East,
    SouthEast,
    South,
    SouthWest,
    West,
    NorthWest,
    Unknown,
}

/// Where the indicator points for wind that comes from `angle` degrees:
/// the opposite bearing, to the nearest of the eight compass points. A
/// bearing below zero has no direction.
pub open spec fn wind_direction(angle: int) -> WindDirection {
    let bearing = wrap(angle + 180, 360);
    if 0 <= bearing <= 22 {
        WindDirection::North
    } else if 23 <= bearing <= 67 {
        WindDirection::NorthEast
    } else if 68 <= bearing <= 112 {
        WindDirection::East
    } else if 113 <= bearing <= 157 {
        WindDirection::SouthEast
    } else if 158 <= bearing <= 202 {
        WindDirection::South
    } else if 203 <= bearing <= 247 {
        WindDirection::SouthWest
    } else if 248 <= bearing <= 292 {
        WindDirection::West
    } else if 293 <= bearing <= 337 {
        WindDirection::NorthWest
    } else if 338 <= bearing <= 360 {
        WindDirection::North
    } else {
        WindDirection::Unknown
    }
}

/// Picks the compass point of the wind indicator for wind that comes from
/// `angle` degrees.
pub fn get_wind_direction_from_angle(angle: i32) -> (direction: WindDirection)
    ensures
        direction == wind_direction(angle as int),
{
    let bearing: i64 = (angle as i64 + 180) % 360;
    if 0 <= bearing && bearing <= 22 {
        WindDirection::North
    } else if 23 <= bearing && bearing <= 67 {
        WindDirection::NorthEast
    } else if 68 <= bearing && bearing <= 112 {
        WindDirection::East
    } else if 113 <= bearing && bearing <= 157 {
        WindDirection::SouthEast
    } else if 158 <= bearing && bearing <= 202 {
        WindDirection::South
    } else if 203 <= bearing && bearing <= 247 {
        WindDirection::SouthWest
    } else if 248 <= bearing && bearing <= 292 {
        WindDirection::West
    } else if 293 <= bearing && bearing <= 337 {
        WindDirection::NorthWest
    } else if 338 <= bearing && bearing <= 360 {
        WindDirection::North
    } else {
        WindDirection::Unknown
    }
}

/// Where pixel number `k` of a bitmap lands that is drawn from `(x, y)` in
/// rows of `width` pixels. A width below one gives a single row.
pub open spec fn bitmap_cell(x: int, y: int, width: int, k: int) -> (int, int) {
    if width >= 1 {
        (x + k % width, y + k / width)
    } else {
        (x + k, y)
    }
}

/// Which of the first `count` pixels of such a bitmap lands on `(px, py)`,
/// if one does.
pub open spec fn bitmap_source(x: int, y: int, width: int, count: int, px: int, py: int) -> Option<
    int,
> {
    let column = px - x;
    let row = py - y;
    if width >= 1 {
        if 0 <= column < width && 0 <= row && row * width + column < count {
            Some(row * width + column)
        } else {
            None
        }
    } else {
        if row == 0 && 0 <= column < count {
            Some(column)
        } else {
            None
        }
    }
}

/// `after` is `before` with the first `count` pixels of the bitmap written
/// to the on-canvas cells on which they land, each as the colour of its low
/// 24 bits.
pub open spec fn bitmap_drawn(
    before: Seq<u32>,
    after: Seq<u32>,
    canvas_width: int,
    canvas_height: int,
    x: int,
    y: int,
    width: int,
    pixels: Seq<u32>,
    count: int,
) -> bool {
    &&& after.len() == before.len()
    &&& forall|px: int, py: int|
        in_bounds(canvas_width, canvas_height, px, py) ==> #[trigger] after[cell_index(
            canvas_width,
            px,
            py,
        )] == match bitmap_source(x, y, width, count, px, py) {
            Some(k) => unpack(pixels[k] as int).packed(),
            None => before[cell_index(canvas_width, px, py)],
        }
}

/// The buffer `before` with a bitmap drawn on it from `(x, y)` in rows of
/// `width` pixels: each cell on which a pixel lands holds the colour of the
/// low 24 bits of that pixel.
pub open spec fn bitmap_paint(
    before: Seq<u32>,
    canvas_width: int,
    x: int,
    y: int,
    width: int,
    pixels: Seq<u32>,
) -> Seq<u32> {
    Seq::new(
        before.len(),
        |i: int|
            match bitmap_source(
                x,
                y,
                width,
                pixels.len() as int,
                cell_x(canvas_width, i),
                cell_y(canvas_width, i),
            ) {
                Some(k) => unpack(pixels[k] as int).packed(),
                None => before[i],
            },
    )
}

/// A buffer on which a bitmap was drawn pixel by pixel is the buffer with
/// the bitmap painted on it.
pub proof fn lemma_bitmap_drawn_gives_paint(
    before: Seq<u32>,
    after: Seq<u32>,
    canvas_width: int,
    canvas_height: int,
    x: int,
    y: int,
    width: int,
    pixels: Seq<u32>,
)
    requires
        0 <= canvas_width,
        0 <= canvas_height,
        before.len() == canvas_width * canvas_height,
        bitmap_drawn(
            before,
            after,
            canvas_width,
            canvas_height,
            x,
            y,
            width,
            pixels,
            pixels.len() as int,
        ),
    ensures
        after == bitmap_paint(before, canvas_width, x, y, width, pixels),
{
    let target = bitmap_paint(before, canvas_width, x, y, width, pixels);
    assert forall|i: int| 0 <= i < after.len() implies after[i] == target[i] by {
        lemma_cell_coordinates(canvas_width, canvas_height, i);
        assert(after[cell_index(canvas_width, cell_x(canvas_width, i), cell_y(canvas_width, i))]
            == after[i]);
    }
    assert(after =~= target);
}

/// The buffer with a bitmap painted on it holds, in each on-canvas cell on
/// which a pixel lands, the colour of that pixel, and what `before` held in
/// all others.
pub proof fn lemma_bitmap_paint_gives_drawn(
    before: Seq<u32>,
    canvas_width: int,
    canvas_height: int,
    x: int,
    y: int,
    width: int,
    pixels: Seq<u32>,
)
    requires
        before.len() == canvas_width * canvas_height,
    ensures
        bitmap_drawn(
            before,
            bitmap_paint(before, canvas_width, x, y, width, pixels),
            canvas_width,
            canvas_height,
            x,
            y,
            width,
            pixels,
            pixels.len() as int,
        ),
{
    let after = bitmap_paint(before, canvas_width, x, y, width, pixels);
    assert forall|px: int, py: int|
        in_bounds(canvas_width, canvas_height, px, py) implies #[trigger] after[cell_index(
        canvas_width,
        px,
        py,
    )] == match bitmap_source(x, y, width, pixels.len() as int, px, py) {
        Some(k) => unpack(pixels[k] as int).packed(),
        None => before[cell_index(canvas_width, px, py)],
    } by {
        lemma_cell_index(canvas_width, canvas_height, px, py);
    }
}

/// Pixel `k` is the one pixel of the bitmap that lands on its cell.
pub proof fn lemma_bitmap_source(x: int, y: int, width: int, count: int, k: int, px: int, py: int)
    requires
        0 <= k,
    ensures
        bitmap_source(x, y, width, count, px, py) == Some(k) <==> (k < count && bitmap_cell(
            x,
            y,
            width,
            k,
        ) == (px, py)),
{
    if width >= 1 {
        lemma_fundamental_div_mod(k, width);
        lemma_mod_pos_bound(k, width);
        assert(width * (k / width) == (k / width) * width) by (nonlinear_arith);
        assert(0 <= k / width) by (nonlinear_arith)
            requires
                0 <= k,
                width >= 1,
        ;
        let column = px - x;
        let row = py - y;
        if 0 <= column < width && 0 <= row && row * width + column == k {
            lemma_fundamental_div_mod_converse(k, width, row, column);
        }
    }
}

/// Draws a bitmap of packed colours from `(x, y)` in rows of `width`
/// pixels, each pixel through the bounds check of `set`.
pub fn draw_pixels<C: PixelGrid>(canvas: &mut C, x: i32, y: i32, width: i32, pixels: &[u32])
    ensures
        well_formed(*final(canvas)),
        final(canvas).width() == old(canvas).width(),
        final(canvas).height() == old(canvas).height(),
        final(canvas).cells() == bitmap_paint(
            old(canvas).cells(),
            old(canvas).width(),
            x as int,
            y as int,
            width as int,
            pixels@,
        ),
{
    let (canvas_width, canvas_height) = canvas.canvas_size();
    let max_x: i128 = x as i128 + width as i128;
    let mut column: i128 = x as i128;
    let mut row: i128 = y as i128;
    let mut k: usize = 0;
    proof {
        if width >= 1 {
            lemma_fundamental_div_mod_converse(0, width as int, 0, 0);
        }
    }
    while k < pixels.len()
        invariant
            well_formed(*canvas),
            well_formed(*old(canvas)),
            canvas.width() == old(canvas).width(),
            canvas.height() == old(canvas).height(),
            canvas_width == canvas.width(),
            canvas_height == canvas.height(),
            max_x == x + width,
            k <= pixels@.len(),
            (column as int, row as int) == bitmap_cell(x as int, y as int, width as int, k as int),
            x <= column <= x + k,
            y <= row <= y + k,
            width >= 1 ==> column < max_x,
            bitmap_drawn(
                old(canvas).cells(),
                canvas.cells(),
                canvas.width(),
                canvas.height(),
                x as int,
                y as int,
                width as int,
                pixels@,
                k as int,
            ),
        decreases pixels@.len() - k,
    {
        let color = LedColor::from_packed(pixels[k]);
        let ghost mid = canvas.cells();
        if 0 <= column && column < canvas_width as i128 && 0 <= row && row < canvas_height as i128 {
            canvas.set(column as i32, row as i32, &color);
        }
        proof {
            let w = canvas.width();
            let h = canvas.height();
            assert(canvas.cells() == plot(mid, w, h, column as int, row as int, color.packed()));
            if in_bounds(w, h, column as int, row as int) {
                lemma_cell_index(w, h, column as int, row as int);
            }
            assert forall|px: int, py: int|
                in_bounds(w, h, px, py) implies #[trigger] canvas.cells()[cell_index(w, px, py)]
                    == match bitmap_source(x as int, y as int, width as int, k + 1, px, py) {
                Some(m) => unpack(pixels@[m] as int).packed(),
                None => old(canvas).cells()[cell_index(w, px, py)],
            } by {
                lemma_cell_index(w, h, px, py);
                lemma_bitmap_source(x as int, y as int, width as int, k + 1, k as int, px, py);
                assert(mid[cell_index(w, px, py)] == match bitmap_source(
                    x as int,
                    y as int,
                    width as int,
                    k as int,
                    px,
                    py,
                ) {
                    Some(m) => unpack(pixels@[m] as int).packed(),
                    None => old(canvas).cells()[cell_index(w, px, py)],
                });
            }
            if width >= 1 {
                let wd = width as int;
                lemma_fundamental_div_mod(k as int, wd);
                lemma_mod_pos_bound(k as int, wd);
                assert(wd * (k as int / wd) == (k as int / wd) * wd) by (nonlinear_arith);
                if column + 1 == max_x {
                    assert((k as int / wd + 1) * wd == (k as int / wd) * wd + wd)
                        by (nonlinear_arith);
                    lemma_fundamental_div_mod_converse(k + 1, wd, k as int / wd + 1, 0);
                } else {
                    lemma_fundamental_div_mod_converse(
                        k + 1,
                        wd,
                        k as int / wd,
                        k as int % wd + 1,
                    );
                }
            }
        }
        column = column + 1;
        if column == max_x {
            column = column - width as i128;
            row = row + 1;
        }
        k = k + 1;
    }
    proof {
        lemma_bitmap_drawn_gives_paint(
            old(canvas).cells(),
            canvas.cells(),
            canvas.width(),
            canvas.height(),
            x as int,
            y as int,
            width as int,
            pixels@,
        );
    }
}

/// Width of a weather icon, in pixels.
pub const WEATHER_IMAGE_WIDTH: i32 = 15;

/// Width of a wind indicator, in pixels.
pub const WIND_IMAGE_WIDTH: i32 = 9;

/// The icons of the weather panel, as bitmaps of packed colours: one per
/// weather condition, fifteen pixels to the row, and one per direction of
/// the wind indicator, nine pixels to the row.
pub struct WeatherBitmaps {
    pub unknown: Vec<u32>,
    pub clear_sky: Vec<u32>,
    pub mainly_clear: Vec<u32>,
    pub partly_cloudy: Vec<u32>,
    pub overcast: Vec<u32>,
    pub fog: Vec<u32>,
    pub rime_fog: Vec<u32>,
    pub drizzle_light: Vec<u32>,
    pub drizzle_moderate: Vec<u32>,
    pub drizzle_dense: Vec<u32>,
    pub freezing_drizzle_light: Vec<u32>,
    pub freezing_drizzle_dense: Vec<u32>,
    pub rain_slight: Vec<u32>,
    pub rain_moderate: Vec<u32>,
    pub rain_heavy: Vec<u32>,
    pub freezing_rain_light: Vec<u32>,
    pub freezing_rain_heavy: Vec<u32>,
    pub snow_fall_slight: Vec<u32>,
    pub snow_fall_moderate: Vec<u32>,
    pub snow_fall_heavy: Vec<u32>,
    pub snow_grains: Vec<u32>,
    pub rain_showers_slight: Vec<u32>,
    pub rain_showers_moderate: Vec<u32>,
    pub rain_showers_violent: Vec<u32>,
    pub snow_showers_slight: Vec<u32>,
    pub snow_showers_heavy: Vec<u32>,
    pub thunderstorm_slight: Vec<u32>,
    pub thunderstorm_moderate: Vec<u32>,
    pub thunderstorm_heavy: Vec<u32>,
    pub wind_direction_n: Vec<u32>,
    pub wind_direction_ne: Vec<u32>,
    pub wind_direction_e: Vec<u32>,
    pub wind_direction_se: Vec<u32>,
    pub wind_direction_s: Vec<u32>,
    pub wind_direction_sw: Vec<u32>,
    pub wind_direction_w: Vec<u32>,
    pub wind_direction_nw: Vec<u32>,
    pub wind_directions_unknown: Vec<u32>,
}

impl WeatherBitmaps {
    /// The icon of a weather condition.
    pub open spec fn condition_icon(&self, condition: WeatherCondition) -> Seq<u32> {
        match condition {
            WeatherCondition::Unknown => self.unknown@,
            WeatherCondition::ClearSky => self.clear_sky@,
            WeatherCondition::MainlyClear => self.mainly_clear@,
            WeatherCondition::PartlyCloudy => self.partly_cloudy@,
            WeatherCondition::Overcast => self.overcast@,
            WeatherCondition::Fog => self.fog@,
            WeatherCondition::RimeFog => self.rime_fog@,
            WeatherCondition::DrizzleLight => self.drizzle_light@,
            WeatherCondition::DrizzleModerate => self.drizzle_moderate@,
            WeatherCondition::DrizzleDense => self.drizzle_dense@,
            WeatherCondition::FreezingDrizzleLight => self.freezing_drizzle_light@,
            WeatherCondition::FreezingDrizzleDense => self.freezing_drizzle_dense@,
            WeatherCondition::RainSlight => self.rain_slight@,
            WeatherCondition::RainModerate => self.rain_moderate@,
            WeatherCondition::RainHeavy => self.rain_heavy@,
            WeatherCondition::FreezingRainLight => self.freezing_rain_light@,
            WeatherCondition::FreezingRainHeavy => self.freezing_rain_heavy@,
            WeatherCondition::SnowFallSlight => self.snow_fall_slight@,
            WeatherCondition::SnowFallModerate => self.snow_fall_moderate@,
            WeatherCondition::SnowFallHeavy => self.snow_fall_heavy@,
            WeatherCondition::SnowGrains => self.snow_grains@,
            WeatherCondition::RainShowersSlight => self.rain_showers_slight@,
            WeatherCondition::RainShowersModerate => self.rain_showers_moderate@,
            WeatherCondition::RainShowersViolent => self.rain_showers_violent@,
            WeatherCondition::SnowShowersSlight => self.snow_showers_slight@,
            WeatherCondition::SnowShowersHeavy => self.snow_showers_heavy@,
            WeatherCondition::ThunderstormSlight => self.thunderstorm_slight@,
            WeatherCondition::ThunderstormModerate => self.thunderstorm_moderate@,
            WeatherCondition::ThunderstormHeavy => self.thunderstorm_heavy@,
        }
    }

    /// The indicator for a direction of the wind.
    pub open spec fn wind_icon(&self, direction: WindDirection) -> Seq<u32> {
        match direction {
            WindDirection::North => self.wind_direction_n@,
            WindDirection::NorthEast => self.wind_direction_ne@,
            WindDirection::East => self.wind_direction_e@,
            WindDirection::SouthEast => self.wind_direction_se@,
            WindDirection::South => self.wind_direction_s@,
            WindDirection::SouthWest => self.wind_direction_sw@,
            WindDirection::West => self.wind_direction_w@,
            WindDirection::NorthWest => self.wind_direction_nw@,
            WindDirection::Unknown => self.wind_directions_unknown@,
        }
    }
}

/// Picks the icon of a weather condition.
pub fn weather_code_bitmap(bitmaps: &WeatherBitmaps, condition: WeatherCondition) -> (bitmap: &Vec<
    u32,
>)
    ensures
        bitmap@ == bitmaps.condition_icon(condition),
{
    match condition {
        WeatherCondition::Unknown => &bitmaps.unknown,
        WeatherCondition::ClearSky => &bitmaps.clear_sky,
        WeatherCondition::MainlyClear => &bitmaps.mainly_clear,
        WeatherCondition::PartlyCloudy => &bitmaps.partly_cloudy,
        WeatherCondition::Overcast => &bitmaps.overcast,
        WeatherCondition::Fog => &bitmaps.fog,
        WeatherCondition::RimeFog => &bitmaps.rime_fog,
        WeatherCondition::DrizzleLight => &bitmaps.drizzle_light,
        WeatherCondition::DrizzleModerate => &bitmaps.drizzle_moderate,
        WeatherCondition::DrizzleDense => &bitmaps.drizzle_dense,
        WeatherCondition::FreezingDrizzleLight => &bitmaps.freezing_drizzle_light,
        WeatherCondition::FreezingDrizzleDense => &bitmaps.freezing_drizzle_dense,
        WeatherCondition::RainSlight => &bitmaps.rain_slight,
        WeatherCondition::RainModerate => &bitmaps.rain_moderate,
        WeatherCondition::RainHeavy => &bitmaps.rain_heavy,
        WeatherCondition::FreezingRainLight => &bitmaps.freezing_rain_light,
        WeatherCondition::FreezingRainHeavy => &bitmaps.freezing_rain_heavy,
        WeatherCondition::SnowFallSlight => &bitmaps.snow_fall_slight,
        WeatherCondition::SnowFallModerate => &bitmaps.snow_fall_moderate,
        WeatherCondition::SnowFallHeavy => &bitmaps.snow_fall_heavy,
        WeatherCondition::SnowGrains => &bitmaps.snow_grains,
        WeatherCondition::RainShowersSlight => &bitmaps.rain_showers_slight,
        WeatherCondition::RainShowersModerate => &bitmaps.rain_showers_moderate,
        WeatherCondition::RainShowersViolent => &bitmaps.rain_showers_violent,
        WeatherCondition::SnowShowersSlight => &bitmaps.snow_showers_slight,
        WeatherCondition::SnowShowersHeavy => &bitmaps.snow_showers_heavy,
        WeatherCondition::ThunderstormSlight => &bitmaps.thunderstorm_slight,
        WeatherCondition::ThunderstormModerate => &bitmaps.thunderstorm_moderate,
        WeatherCondition::ThunderstormHeavy => &bitmaps.thunderstorm_heavy,
    }
}

/// Picks the indicator for a direction of the wind.
pub fn wind_direction_bitmap(bitmaps: &WeatherBitmaps, direction: WindDirection) -> (bitmap: &Vec<
    u32,
>)
    ensures
        bitmap@ == bitmaps.wind_icon(direction),
{
    match direction {
        WindDirection::North => &bitmaps.wind_direction_n,
        WindDirection::NorthEast => &bitmaps.wind_direction_ne,
        WindDirection::East => &bitmaps.wind_direction_e,
        WindDirection::SouthEast => &bitmaps.wind_direction_se,
        WindDirection::South => &bitmaps.wind_direction_s,
        WindDirection::SouthWest => &bitmaps.wind_direction_sw,
        WindDirection::West => &bitmaps.wind_direction_w,
        WindDirection::NorthWest => &bitmaps.wind_direction_nw,
        WindDirection::Unknown => &bitmaps.wind_directions_unknown,
    }
}

/// Draws the icon of a weather condition with its first pixel at `(x, y)`.
pub fn draw_weather_image<C: PixelGrid>(
    canvas: &mut C,
    bitmaps: &WeatherBitmaps,
    x: i32,
    y: i32,
    weather_code: WeatherCondition,
)
    ensures
        well_formed(*final(canvas)),
        final(canvas).width() == old(canvas).width(),
        final(canvas).height() == old(canvas).height(),
        final(canvas).cells() == bitmap_paint(
            old(canvas).cells(),
            old(canvas).width(),
            x as int,
            y as int,
            WEATHER_IMAGE_WIDTH as int,
            bitmaps.condition_icon(weather_code),
        ),
{
    let bitmap = weather_code_bitmap(bitmaps, weather_code);
    draw_pixels(canvas, x, y, WEATHER_IMAGE_WIDTH, bitmap.as_slice());
}

/// Draws the indicator for wind that comes from `angle` degrees with its
/// first pixel at `(x, y)`.
pub fn draw_wind_direction<C: PixelGrid>(
    canvas: &mut C,
    bitmaps: &WeatherBitmaps,
    x: i32,
    y: i32,
    angle: i32,
)
    ensures
        well_formed(*final(canvas)),
        final(canvas).width() == old(canvas).width(),
        final(canvas).height() == old(canvas).height(),
        final(canvas).cells() == bitmap_paint(
            old(canvas).cells(),
            old(canvas).width(),
            x as int,
            y as int,
            WIND_IMAGE_WIDTH as int,
            bitmaps.wind_icon(wind_direction(angle as int)),
        ),
{
    let direction = get_wind_direction_from_angle(angle);
    let bitmap = wind_direction_bitmap(bitmaps, direction);
    draw_pixels(canvas, x, y, WIND_IMAGE_WIDTH, bitmap.as_slice());
}

/// What the weather panel shows: the temperature, the relative humidity and
/// the wind speed as texts with their units, the WMO weather code, and the
/// angle in degrees from which the wind comes.
pub struct WeatherReport {
    pub temperature: String,
    pub humidity: String,
    pub wind_speed: String,
    pub weather_code: usize,
    pub wind_direction: i32,
}

/// The buffer `before` with the weather panel drawn on it from `(x, y)`:
/// the temperature, ten rows below it the humidity, 49 columns to the right
/// the weather icon and 18 rows below that the wind indicator, and 20 rows
/// below the temperature the wind speed, in this order.
pub open spec fn weather_panel(
    before: Seq<u32>,
    width: int,
    height: int,
    temperature: Seq<Glyph>,
    humidity: Seq<Glyph>,
    wind_speed: Seq<Glyph>,
    weather_icon: Seq<u32>,
    wind_icon: Seq<u32>,
    x: int,
    y: int,
    value: u32,
) -> Seq<u32> {
    let with_temperature = paint(
        before,
        width,
        value,
        |px: int, py: int| text_covers(temperature, (x, y), 0, false, width, height, px, py),
    );
    let with_humidity = paint(
        with_temperature,
        width,
        value,
        |px: int, py: int| text_covers(humidity, (x, y + 10), 0, false, width, height, px, py),
    );
    let with_image = bitmap_paint(
        with_humidity,
        width,
        x + 49,
        y,
        WEATHER_IMAGE_WIDTH as int,
        weather_icon,
    );
    let with_wind = bitmap_paint(
        with_image,
        width,
        x + 49,
        y + 18,
        WIND_IMAGE_WIDTH as int,
        wind_icon,
    );
    paint(
        with_wind,
        width,
        value,
        |px: int, py: int| text_covers(wind_speed, (x, y + 20), 0, false, width, height, px, py),
    )
}

/// Whether the weather panel can be drawn: the font has the glyphs of the
/// three texts, the canvas has cells when there is text to wrap, and the
/// panel's corners are coordinates.
pub open spec fn can_draw_weather(
    width: int,
    height: int,
    font: &LedFont,
    weather: &WeatherReport,
    x: int,
    y: int,
) -> bool {
    &&& font.covers(weather.temperature@)
    &&& font.covers(weather.humidity@)
    &&& font.covers(weather.wind_speed@)
    &&& weather.temperature@.len() + weather.humidity@.len() + weather.wind_speed@.len() > 0
        ==> width > 0 && height > 0
    &&& x + 49 <= i32::MAX
    &&& y + 20 <= i32::MAX
}

/// Tells whether the weather panel can be drawn.
pub fn weather_fits<C: PixelGrid>(
    canvas: &C,
    font: &LedFont,
    weather: &WeatherReport,
    x: usize,
    y: usize,
) -> (fits: bool)
    ensures
        fits == can_draw_weather(
            canvas.width(),
            canvas.height(),
            font,
            weather,
            x as int,
            y as int,
        ),
{
    let (width, height) = canvas.canvas_size();
    let temperature = weather.temperature.as_str();
    let humidity = weather.humidity.as_str();
    let wind_speed = weather.wind_speed.as_str();
    if !font.covers_text(temperature) || !font.covers_text(humidity) || !font.covers_text(
        wind_speed,
    ) {
        return false;
    }
    let no_text = temperature.unicode_len() == 0 && humidity.unicode_len() == 0
        && wind_speed.unicode_len() == 0;
    if !no_text && (width == 0 || height == 0) {
        return false;
    }
    x <= 0x7fff_ffff - 49 && y <= 0x7fff_ffff - 20
}

/// Draws the weather panel from `(x, y)`.
pub fn draw_weather<C: LedCanvasTrait>(
    canvas: &mut C,
    font: &LedFont,
    bitmaps: &WeatherBitmaps,
    weather: &WeatherReport,
    x: usize,
    y: usize,
    color: &LedColor,
)
    requires
        can_draw_weather(
            old(canvas).width(),
            old(canvas).height(),
            font,
            weather,
            x as int,
            y as int,
        ),
    ensures
        well_formed(*final(canvas)),
        final(canvas).width() == old(canvas).width(),
        final(canvas).height() == old(canvas).height(),
        final(canvas).cells() == weather_panel(
            old(canvas).cells(),
            old(canvas).width(),
            old(canvas).height(),
            font.text_glyphs(weather.temperature@),
            font.text_glyphs(weather.humidity@),
            font.text_glyphs(weather.wind_speed@),
            bitmaps.condition_icon(condition_of_code(weather.weather_code as int)),
            bitmaps.wind_icon(wind_direction(weather.wind_direction as int)),
            x as int,
            y as int,
            color.packed(),
        ),
{
    let x: i32 = x as i32;
    let y: i32 = y as i32;
    canvas.draw_text(font, weather.temperature.as_str(), x, y, color, 0, false);
    canvas.draw_text(font, weather.humidity.as_str(), x, y + 10, color, 0, false);
    draw_weather_image(canvas, bitmaps, x + 49, y, WeatherCondition::from(weather.weather_code));
    draw_wind_direction(canvas, bitmaps, x + 49, y + 18, weather.wind_direction);
    canvas.draw_text(font, weather.wind_speed.as_str(), x, y + 20, color, 0, false);
}

} // verus!
