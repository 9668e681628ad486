use led_panel::weather::draw_pixels;
use led_panel::{Glyph, GlyphPixel, LedCanvas, LedCanvasTrait, LedColor, LedFont, PixelGrid, WindowCanvas};

const INK: u32 = 0x2EC866;

fn font() -> LedFont {
    LedFont::new(vec![Glyph {
        codepoint: 'I',
        width: 1,
        height: 2,
        pixels: vec![GlyphPixel { x: 0, y: 0, is_set: true }, GlyphPixel { x: 0, y: 1, is_set: true }],
    }])
}

#[test]
fn window_canvas_starts_black_with_a_black_surface() {
    let canvas = WindowCanvas::new(4, 8);
    assert_eq!(canvas.canvas_size(), (8, 4));
    assert_eq!(canvas.buffer_len(), 32);
    assert_eq!(canvas.pixels(), &vec![0u32; 32]);
    assert_eq!(canvas.surface_pixels(), &vec![0u32; 32]);
}

#[test]
fn drawing_does_not_present() {
    let mut canvas = WindowCanvas::new(8, 8);
    let ink = LedColor::from_packed(INK);
    canvas.set(1, 1, &ink);
    assert_eq!(canvas.surface_pixels(), &vec![0u32; 64]);
    canvas.draw_line(0, 0, 7, 7, &ink);
    canvas.draw_circle(4, 4, 3, &ink);
    canvas.draw_text(&font(), "II", 0, 0, &ink, 1, false);
    canvas.draw_glyph(font().glyph('I').unwrap(), 5, 5, &ink);
    draw_pixels(&mut canvas, 0, 6, 2, &[1, 2, 3, 4]);
    assert_eq!(canvas.surface_pixels(), &vec![0u32; 64]);
    canvas.fill(&ink);
    assert_eq!(canvas.surface_pixels(), &vec![0u32; 64]);
    assert_eq!(canvas.pixels(), &vec![INK; 64]);
}

#[test]
fn present_copies_the_buffer_to_the_surface() {
    let mut canvas = WindowCanvas::new(4, 4);
    let ink = LedColor::from_packed(INK);
    canvas.draw_line(0, 1, 3, 1, &ink);
    let drawn = canvas.pixels().clone();
    canvas.present();
    assert_eq!(canvas.surface_pixels(), &drawn);
    assert_eq!(canvas.pixels(), &drawn);
    assert_eq!(drawn[4..8], [INK; 4]);
    canvas.clear();
    assert_eq!(canvas.surface_pixels(), &drawn);
    assert_eq!(canvas.pixels(), &vec![0u32; 16]);
    canvas.present();
    assert_eq!(canvas.surface_pixels(), &vec![0u32; 16]);
}

#[test]
fn both_backends_draw_the_same() {
    let ink = LedColor::from_packed(INK);
    let mut headless = LedCanvas::new(16, 16);
    let mut windowed = WindowCanvas::new(16, 16);
    headless.fill(&LedColor::from_packed(0x010101));
    windowed.fill(&LedColor::from_packed(0x010101));
    headless.set(3, 3, &ink);
    windowed.set(3, 3, &ink);
    headless.set(16, 3, &ink);
    windowed.set(16, 3, &ink);
    headless.draw_line(-2, 1, 20, 9, &ink);
    windowed.draw_line(-2, 1, 20, 9, &ink);
    headless.draw_circle(8, 8, 6, &ink);
    windowed.draw_circle(8, 8, 6, &ink);
    headless.draw_text(&font(), "III", 14, 15, &ink, 0, false);
    windowed.draw_text(&font(), "III", 14, 15, &ink, 0, false);
    draw_pixels(&mut headless, 1, 12, 3, &[1, 2, 3, 4, 5, 6]);
    draw_pixels(&mut windowed, 1, 12, 3, &[1, 2, 3, 4, 5, 6]);
    assert_eq!(headless.pixels(), windowed.pixels());
    headless.clear();
    windowed.clear();
    assert_eq!(headless.pixels(), windowed.pixels());
}
