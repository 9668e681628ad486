use led_panel::{LedCanvas, LedCanvasTrait, LedColor, PixelGrid};

const INK: u32 = 0x2EC866;

fn lit(canvas: &LedCanvas) -> Vec<(i32, i32)> {
    let (width, height) = canvas.canvas_size();
    let mut cells = Vec::new();
    for y in 0..height {
        for x in 0..width {
            let value = canvas.pixels()[(y * width + x) as usize];
            if value != 0 {
                assert_eq!(value, INK);
                cells.push((x, y));
            }
        }
    }
    cells
}

fn line(width: u32, height: u32, x0: i32, y0: i32, x1: i32, y1: i32) -> Vec<(i32, i32)> {
    let mut canvas = LedCanvas::new(height, width);
    canvas.draw_line(x0, y0, x1, y1, &LedColor::from_packed(INK));
    lit(&canvas)
}

fn sorted(mut cells: Vec<(i32, i32)>) -> Vec<(i32, i32)> {
    cells.sort_by_key(|&(x, y)| (y, x));
    cells
}

#[test]
fn horizontal_line_across_a_64_wide_canvas() {
    let mut canvas = LedCanvas::new(64, 64);
    canvas.draw_line(0, 0, 63, 0, &LedColor::from_packed(INK));
    let cells = lit(&canvas);
    assert_eq!(cells.len(), 64);
    let expected: Vec<(i32, i32)> = (0..64).map(|x| (x, 0)).collect();
    assert_eq!(cells, expected);
    for x in 0..64 {
        assert_eq!(canvas.pixels()[x], INK);
    }
    assert!(canvas.pixels()[64..].iter().all(|&p| p == 0));
}

#[test]
fn single_point_line_draws_one_pixel() {
    assert_eq!(line(8, 8, 3, 5, 3, 5), vec![(3, 5)]);
    assert_eq!(line(8, 8, 0, 0, 0, 0), vec![(0, 0)]);
    assert_eq!(line(8, 8, 9, 9, 9, 9), vec![]);
}

#[test]
fn vertical_line_both_ways() {
    let expected: Vec<(i32, i32)> = (1..=6).map(|y| (2, y)).collect();
    assert_eq!(line(8, 8, 2, 1, 2, 6), expected);
    assert_eq!(line(8, 8, 2, 6, 2, 1), expected);
}

#[test]
fn horizontal_line_drawn_backwards() {
    let expected: Vec<(i32, i32)> = (2..=7).map(|x| (x, 4)).collect();
    assert_eq!(line(8, 8, 7, 4, 2, 4), expected);
}

#[test]
fn diagonal_lines() {
    assert_eq!(line(8, 8, 0, 0, 4, 4), vec![(0, 0), (1, 1), (2, 2), (3, 3), (4, 4)]);
    assert_eq!(line(8, 8, 4, 4, 0, 0), vec![(0, 0), (1, 1), (2, 2), (3, 3), (4, 4)]);
    assert_eq!(
        sorted(line(8, 8, 0, 4, 4, 0)),
        sorted(vec![(0, 4), (1, 3), (2, 2), (3, 1), (4, 0)])
    );
}

#[test]
fn shallow_line_rounds_half_steps_up() {
    assert_eq!(
        sorted(line(8, 8, 0, 0, 5, 2)),
        sorted(vec![(0, 0), (1, 0), (2, 1), (3, 1), (4, 2), (5, 2)])
    );
    assert_eq!(
        sorted(line(8, 8, 0, 0, 4, 2)),
        sorted(vec![(0, 0), (1, 1), (2, 1), (3, 2), (4, 2)])
    );
    assert_eq!(
        sorted(line(8, 8, 0, 0, 7, 1)),
        sorted(vec![(0, 0), (1, 0), (2, 0), (3, 0), (4, 1), (5, 1), (6, 1), (7, 1)])
    );
}

#[test]
fn steep_line_rounds_half_steps_up() {
    assert_eq!(
        sorted(line(8, 8, 0, 0, 2, 5)),
        sorted(vec![(0, 0), (0, 1), (1, 2), (1, 3), (2, 4), (2, 5)])
    );
    assert_eq!(
        sorted(line(8, 8, 1, 0, 0, 7)),
        sorted(vec![(1, 0), (1, 1), (1, 2), (1, 3), (0, 4), (0, 5), (0, 6), (0, 7)])
    );
}

#[test]
fn reversed_shallow_line_rounds_from_its_own_start() {
    assert_eq!(
        sorted(line(8, 8, 5, 2, 0, 0)),
        sorted(vec![(5, 2), (4, 2), (3, 1), (2, 1), (1, 0), (0, 0)])
    );
    assert_eq!(
        sorted(line(8, 8, 4, 2, 0, 0)),
        sorted(vec![(4, 2), (3, 1), (2, 1), (1, 0), (0, 0)])
    );
}

#[test]
fn line_length_is_the_longer_span_plus_one() {
    for (x0, y0, x1, y1) in [(0, 0, 15, 3), (3, 15, 0, 0), (2, 9, 13, 1), (15, 15, 0, 14), (5, 0, 6, 15)] {
        let cells = line(16, 16, x0, y0, x1, y1);
        let longer = std::cmp::max((x1 - x0 as i32).abs(), (y1 - y0 as i32).abs());
        assert_eq!(cells.len() as i32, longer + 1);
        assert!(cells.contains(&(x0, y0)));
        assert!(cells.contains(&(x1, y1)));
    }
}

#[test]
fn line_is_clipped_pixel_by_pixel() {
    let expected: Vec<(i32, i32)> = (0..8).map(|x| (x, 3)).collect();
    assert_eq!(line(8, 8, -5, 3, 20, 3), expected);
    assert_eq!(line(8, 8, -3, -3, 2, 2), vec![(0, 0), (1, 1), (2, 2)]);
    assert_eq!(line(8, 8, 6, 6, 12, 12), vec![(6, 6), (7, 7)]);
    assert_eq!(line(8, 8, -10, -1, 20, -1), vec![]);
    assert_eq!(line(8, 8, 8, 0, 8, 7), vec![]);
}

#[test]
fn line_between_far_corners_of_the_coordinate_range() {
    assert_eq!(line(4, 4, i32::MAX - 2, 1, i32::MAX, 1), vec![]);
    assert_eq!(line(4, 4, i32::MIN, 2, i32::MIN + 3, 2), vec![]);
    assert_eq!(line(4, 4, -70000, 0, 70000, 0), vec![(0, 0), (1, 0), (2, 0), (3, 0)]);
    assert_eq!(
        line(4, 4, -100000, -100000, 100000, 100000),
        vec![(0, 0), (1, 1), (2, 2), (3, 3)]
    );
}

#[test]
fn line_leaves_other_cells_as_they_were() {
    let mut canvas = LedCanvas::new(4, 4);
    canvas.fill(&LedColor::from_packed(0x111111));
    canvas.draw_line(0, 1, 3, 1, &LedColor::from_packed(INK));
    for y in 0..4 {
        for x in 0..4 {
            let expected = if y == 1 { INK } else { 0x111111 };
            assert_eq!(canvas.pixels()[y * 4 + x], expected);
        }
    }
}
