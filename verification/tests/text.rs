use led_panel::{Glyph, GlyphPixel, LedCanvas, LedCanvasTrait, LedColor, LedFont, PixelGrid};

const INK: u32 = 0x2EC866;

fn glyph(codepoint: char, rows: &[&str]) -> Glyph {
    let height = rows.len() as u32;
    let width = rows.iter().map(|row| row.len()).max().unwrap_or(0) as u32;
    let mut pixels = Vec::new();
    for (y, row) in rows.iter().enumerate() {
        for (x, mark) in row.chars().enumerate() {
            pixels.push(GlyphPixel { x: x as u32, y: y as u32, is_set: mark == '#' });
        }
    }
    Glyph { codepoint, width, height, pixels }
}

fn font() -> LedFont {
    LedFont::new(vec![
        glyph('I', &["#", "#", "#"]),
        glyph('L', &["#.", "#.", "##"]),
        glyph('T', &["###", ".#.", ".#."]),
        glyph('-', &["...", "###", "..."]),
        glyph(' ', &["..", "..", ".."]),
        glyph('é', &["##", "##"]),
    ])
}

fn lit(canvas: &LedCanvas) -> Vec<(i32, i32)> {
    let (width, height) = canvas.canvas_size();
    let mut cells = Vec::new();
    for y in 0..height {
        for x in 0..width {
            let value = canvas.pixels()[(y * width + x) as usize];
            if value != 0 {
                assert_eq!(value, INK);
                cells.push((x, y));
            }
        }
    }
    cells
}

fn text(width: u32, height: u32, text: &str, x: i32, y: i32, kerning: i32, vertical: bool) -> Vec<(i32, i32)> {
    let mut canvas = LedCanvas::new(height, width);
    canvas.draw_text(&font(), text, x, y, &LedColor::from_packed(INK), kerning, vertical);
    lit(&canvas)
}

#[test]
fn one_glyph_at_the_cursor() {
    assert_eq!(text(8, 8, "L", 2, 1, 0, false), vec![(2, 1), (2, 2), (2, 3), (3, 3)]);
    assert_eq!(text(8, 8, "T", 0, 0, 0, false), vec![(0, 0), (1, 0), (2, 0), (1, 1), (1, 2)]);
}

#[test]
fn empty_text_draws_nothing() {
    assert_eq!(text(8, 8, "", 2, 1, 0, false), vec![]);
    assert_eq!(text(0, 0, "", 2, 1, 0, false), vec![]);
}

#[test]
fn unlit_glyph_cells_leave_the_canvas_as_it_was() {
    let mut canvas = LedCanvas::new(4, 4);
    canvas.fill(&LedColor::from_packed(0x050505));
    canvas.draw_text(&font(), "-", 0, 0, &LedColor::from_packed(INK), 0, false);
    for y in 0..4 {
        for x in 0..4 {
            let expected = if y == 1 && x < 3 { INK } else { 0x050505 };
            assert_eq!(canvas.pixels()[y * 4 + x], expected);
        }
    }
}

#[test]
fn cursor_advances_by_glyph_width() {
    // I is one column wide, L two, T three.
    assert_eq!(
        text(16, 4, "ILT", 1, 0, 0, false),
        vec![(1, 0), (2, 0), (4, 0), (5, 0), (6, 0), (1, 1), (2, 1), (5, 1), (1, 2), (2, 2), (3, 2), (5, 2)]
    );
}

#[test]
fn kerning_offset_widens_the_advance() {
    assert_eq!(
        text(16, 4, "II", 0, 0, 2, false),
        vec![(0, 0), (3, 0), (0, 1), (3, 1), (0, 2), (3, 2)]
    );
    assert_eq!(
        text(16, 4, "III", 1, 0, 1, false),
        vec![(1, 0), (3, 0), (5, 0), (1, 1), (3, 1), (5, 1), (1, 2), (3, 2), (5, 2)]
    );
}

#[test]
fn negative_kerning_offset_counts_as_zero() {
    let at_zero = text(16, 4, "ILT", 1, 0, 0, false);
    assert_eq!(text(16, 4, "ILT", 1, 0, -1, false), at_zero);
    assert_eq!(text(16, 4, "ILT", 1, 0, -100, false), at_zero);
    assert_eq!(text(16, 4, "ILT", 1, 0, i32::MIN, false), at_zero);
}

#[test]
fn vertical_text_advances_by_glyph_height() {
    assert_eq!(
        text(4, 16, "IL", 1, 0, 0, true),
        vec![(1, 0), (1, 1), (1, 2), (1, 3), (1, 4), (1, 5), (2, 5)]
    );
    assert_eq!(
        text(4, 16, "II", 0, 1, 2, true),
        vec![(0, 1), (0, 2), (0, 3), (0, 6), (0, 7), (0, 8)]
    );
    assert_eq!(text(4, 16, "é-", 0, 0, 0, true), vec![(0, 0), (1, 0), (0, 1), (1, 1), (0, 3), (1, 3), (2, 3)]);
}

#[test]
fn column_landing_on_the_width_wraps_to_column_zero() {
    // L drawn at x = 7 on an 8-wide canvas: its right column would land at x == 8.
    assert_eq!(text(8, 8, "L", 7, 0, 0, false), vec![(7, 0), (7, 1), (0, 2), (7, 2)]);
    // T drawn at x = 6: columns 6, 7 and 8, of which the last wraps.
    assert_eq!(text(8, 8, "T", 6, 0, 0, false), vec![(0, 0), (6, 0), (7, 0), (7, 1), (7, 2)]);
}

#[test]
fn row_landing_on_the_height_wraps_to_row_zero() {
    assert_eq!(text(8, 8, "I", 3, 6, 0, false), vec![(3, 0), (3, 6), (3, 7)]);
    assert_eq!(text(8, 8, "L", 7, 7, 0, false), vec![(7, 0), (0, 1), (7, 1), (7, 7)]);
}

#[test]
fn start_beyond_the_canvas_wraps_too() {
    assert_eq!(text(8, 8, "I", 8, 8, 0, false), vec![(0, 0), (0, 1), (0, 2)]);
    assert_eq!(text(8, 8, "I", 19, 17, 0, false), vec![(3, 1), (3, 2), (3, 3)]);
}

#[test]
fn cells_at_negative_coordinates_are_dropped() {
    assert_eq!(text(8, 8, "T", -1, 0, 0, false), vec![(0, 0), (1, 0), (0, 1), (0, 2)]);
    assert_eq!(text(8, 8, "I", 2, -2, 0, false), vec![(2, 0)]);
    assert_eq!(text(8, 8, "I", -1, 0, 0, false), vec![]);
    assert_eq!(text(8, 8, "I", -9, -11, 0, false), vec![]);
}

#[test]
fn cursor_wraps_to_the_canvas_width() {
    // T is three wide: cursors 0, 3, 6, then (6 + 3) % 8 = 1.
    let cells = text(8, 3, "TTTI", 0, 0, 0, false);
    assert!(cells.contains(&(1, 1)) && cells.contains(&(1, 2)));
    assert_eq!(
        cells,
        vec![
            (0, 0), (1, 0), (2, 0), (3, 0), (4, 0), (5, 0), (6, 0), (7, 0),
            (1, 1), (4, 1), (7, 1),
            (1, 2), (4, 2), (7, 2)
        ]
    );
}

#[test]
fn cursor_that_lands_on_the_width_restarts_at_zero() {
    // L is two wide: cursors 4, 6, then (6 + 2) % 8 = 0.
    assert_eq!(
        text(8, 3, "LLI", 4, 0, 0, false),
        vec![(0, 0), (4, 0), (6, 0), (0, 1), (4, 1), (6, 1), (0, 2), (4, 2), (5, 2), (6, 2), (7, 2)]
    );
}

#[test]
fn vertical_cursor_wraps_to_the_canvas_height() {
    // I is three high: cursors 5, then (5 + 3) % 7 = 1.
    assert_eq!(
        text(4, 7, "II", 0, 5, 0, true),
        vec![(0, 0), (0, 1), (0, 2), (0, 3), (0, 5), (0, 6)]
    );
}

#[test]
fn negative_cursor_stays_negative_after_an_advance() {
    // From x = -9 a two-wide glyph brings the cursor to -7 % 8 = -7, then -5.
    // Only the right column of the first glyph is seen: -9 + 1 = -8, and -8 % 8 = 0.
    assert_eq!(text(8, 3, "LLL", -9, 0, 0, false), vec![(0, 2)]);
    assert_eq!(text(8, 3, "III", -9, 1, 1, false), vec![]);
    // From x = -3: cursors -3, -1, then 1.
    assert_eq!(
        text(8, 3, "LLL", -3, 0, 0, false),
        vec![(1, 0), (1, 1), (0, 2), (1, 2), (2, 2)]
    );
}

#[test]
fn blank_glyph_only_moves_the_cursor() {
    assert_eq!(text(8, 3, "I I", 0, 0, 0, false), vec![(0, 0), (3, 0), (0, 1), (3, 1), (0, 2), (3, 2)]);
}

#[test]
fn font_lookup_and_coverage() {
    let font = font();
    assert_eq!(font.glyph('L').map(|g| (g.width, g.height)), Some((2, 3)));
    assert_eq!(font.glyph('é').map(|g| g.codepoint), Some('é'));
    assert!(font.glyph('l').is_none());
    assert!(font.covers_text("LIT - é"));
    assert!(font.covers_text(""));
    assert!(!font.covers_text("LIT!"));
    assert!(!font.covers_text("xLIT"));
    assert!(!LedFont::new(Vec::new()).covers_text("I"));
    assert!(LedFont::new(Vec::new()).covers_text(""));
}

#[test]
fn first_glyph_of_a_character_counts() {
    let font = LedFont::new(vec![glyph('I', &["#"]), glyph('I', &["##", "##"]), glyph('L', &["#"])]);
    assert_eq!(font.glyph('I').map(|g| (g.width, g.height)), Some((1, 1)));
    let mut canvas = LedCanvas::new(4, 4);
    canvas.draw_text(&font, "I", 0, 0, &LedColor::from_packed(INK), 0, false);
    assert_eq!(lit(&canvas), vec![(0, 0)]);
}

#[test]
fn draw_glyph_wraps_like_text() {
    let mut canvas = LedCanvas::new(8, 8);
    canvas.draw_glyph(&glyph('L', &["#.", "#.", "##"]), 7, 6, &LedColor::from_packed(INK));
    assert_eq!(lit(&canvas), vec![(0, 0), (7, 0), (7, 6), (7, 7)]);
    let mut canvas = LedCanvas::new(8, 8);
    canvas.draw_glyph(&glyph('T', &["###", ".#.", ".#."]), -1, -1, &LedColor::from_packed(INK));
    assert_eq!(lit(&canvas), vec![(0, 0), (0, 1)]);
}

#[test]
fn glyph_cells_are_drawn_where_the_mask_says_not_where_the_extent_says() {
    let stray = Glyph {
        codepoint: 'x',
        width: 1,
        height: 1,
        pixels: vec![
            GlyphPixel { x: 5, y: 2, is_set: true },
            GlyphPixel { x: 0, y: 0, is_set: false },
            GlyphPixel { x: u32::MAX, y: u32::MAX, is_set: true },
        ],
    };
    let mut canvas = LedCanvas::new(8, 8);
    canvas.draw_glyph(&stray, 1, 1, &LedColor::from_packed(INK));
    // (u32::MAX + 1) % 8 == 0 on both axes.
    assert_eq!(lit(&canvas), vec![(0, 0), (6, 3)]);
}

#[test]
fn text_on_the_panel_canvas() {
    let mut canvas = led_panel::setup();
    canvas.draw_text(&font(), "LIT", 62, 0, &LedColor::from_packed(INK), 0, false);
    // L at 62..63, I at (62 + 2) % 64 = 0, T at 1..3.
    assert_eq!(
        lit(&canvas),
        vec![
            (0, 0), (1, 0), (2, 0), (3, 0), (62, 0),
            (0, 1), (2, 1), (62, 1),
            (0, 2), (2, 2), (62, 2), (63, 2)
        ]
    );
}
