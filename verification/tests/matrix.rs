use led_panel::led_matrix::{MATRIX_HEIGHT, MATRIX_WIDTH};
use led_panel::{setup, LedMatrix, LedMatrixOptions, LedRuntimeOptions, PixelGrid};

#[test]
fn matrix_options_defaults() {
    let options = LedMatrixOptions::new();
    assert_eq!(options.rows, 32);
    assert_eq!(options.cols, 32);
    assert_eq!(options.hardware_mapping, "regular");
}

#[test]
fn matrix_options_setters_are_independent() {
    let mut options = LedMatrixOptions::new();
    options.set_cols(64);
    assert_eq!((options.rows, options.cols), (32, 64));
    assert_eq!(options.hardware_mapping, "regular");
    options.set_rows(16);
    assert_eq!((options.rows, options.cols), (16, 64));
    options.set_hardware_mapping("adafruit-hat");
    assert_eq!(options.hardware_mapping, "adafruit-hat");
    assert_eq!((options.rows, options.cols), (16, 64));
    options.set_hardware_mapping("");
    assert_eq!(options.hardware_mapping, "");
    options.set_hardware_mapping("no such mapping");
    assert_eq!(options.hardware_mapping, "no such mapping");
}

#[test]
fn runtime_options_default_and_setter() {
    let mut options = LedRuntimeOptions::new();
    assert_eq!(options.gpio_slowdown, 1);
    options.set_gpio_slowdown(4);
    assert_eq!(options.gpio_slowdown, 4);
    options.set_gpio_slowdown(0);
    assert_eq!(options.gpio_slowdown, 0);
    options.set_gpio_slowdown(u32::MAX);
    assert_eq!(options.gpio_slowdown, u32::MAX);
}

#[test]
fn matrix_without_options_takes_defaults() {
    let matrix = LedMatrix::new(None, None).unwrap();
    assert_eq!(matrix.options.rows, 32);
    assert_eq!(matrix.options.cols, 32);
    assert_eq!(matrix.options.hardware_mapping, "regular");
    assert_eq!(matrix.runtime_options.gpio_slowdown, 1);
}

#[test]
fn matrix_keeps_given_options() {
    let mut options = LedMatrixOptions::new();
    options.set_rows(16);
    options.set_cols(48);
    options.set_hardware_mapping("adafruit-hat-pwm");
    let mut runtime = LedRuntimeOptions::new();
    runtime.set_gpio_slowdown(3);
    let matrix = LedMatrix::new(Some(options), Some(runtime)).unwrap();
    assert_eq!(matrix.options.rows, 16);
    assert_eq!(matrix.options.cols, 48);
    assert_eq!(matrix.options.hardware_mapping, "adafruit-hat-pwm");
    assert_eq!(matrix.runtime_options.gpio_slowdown, 3);
}

#[test]
fn matrix_takes_each_default_alone() {
    let mut options = LedMatrixOptions::new();
    options.set_rows(8);
    let matrix = LedMatrix::new(Some(options), None).unwrap();
    assert_eq!((matrix.options.rows, matrix.options.cols), (8, 32));
    assert_eq!(matrix.runtime_options.gpio_slowdown, 1);
    let mut runtime = LedRuntimeOptions::new();
    runtime.set_gpio_slowdown(2);
    let matrix = LedMatrix::new(None, Some(runtime)).unwrap();
    assert_eq!((matrix.options.rows, matrix.options.cols), (32, 32));
    assert_eq!(matrix.runtime_options.gpio_slowdown, 2);
}

#[test]
fn offscreen_canvas_has_the_configured_geometry() {
    let mut options = LedMatrixOptions::new();
    options.set_rows(16);
    options.set_cols(48);
    let matrix = LedMatrix::new(Some(options), None).unwrap();
    assert!(matrix.can_make_canvas());
    let canvas = matrix.offscreen_canvas();
    assert_eq!(canvas.canvas_size(), (48, 16));
    assert_eq!(canvas.buffer_len(), 48 * 16);
    assert!(canvas.pixels().iter().all(|&p| p == 0));
    let default_canvas = LedMatrix::new(None, None).unwrap().offscreen_canvas();
    assert_eq!(default_canvas.canvas_size(), (32, 32));
}

#[test]
fn can_make_canvas_tells_the_limits() {
    let mut options = LedMatrixOptions::new();
    options.set_rows(0);
    options.set_cols(0);
    assert!(LedMatrix::new(Some(options), None).unwrap().can_make_canvas());
    let mut options = LedMatrixOptions::new();
    options.set_rows(65535);
    options.set_cols(65537);
    assert!(LedMatrix::new(Some(options), None).unwrap().can_make_canvas());
    let mut options = LedMatrixOptions::new();
    options.set_rows(65536);
    options.set_cols(65536);
    assert!(!LedMatrix::new(Some(options), None).unwrap().can_make_canvas());
    let mut options = LedMatrixOptions::new();
    options.set_rows(1);
    options.set_cols(0x8000_0000);
    assert!(!LedMatrix::new(Some(options), None).unwrap().can_make_canvas());
    let mut options = LedMatrixOptions::new();
    options.set_rows(0x8000_0000);
    options.set_cols(1);
    assert!(!LedMatrix::new(Some(options), None).unwrap().can_make_canvas());
    let mut options = LedMatrixOptions::new();
    options.set_rows(0x7fff_ffff);
    options.set_cols(2);
    assert!(LedMatrix::new(Some(options), None).unwrap().can_make_canvas());
    let mut options = LedMatrixOptions::new();
    options.set_rows(0x7fff_ffff);
    options.set_cols(3);
    assert!(!LedMatrix::new(Some(options), None).unwrap().can_make_canvas());
}

#[test]
fn setup_makes_the_64_by_64_canvas() {
    assert_eq!((MATRIX_WIDTH, MATRIX_HEIGHT), (64, 64));
    let canvas = setup();
    assert_eq!(canvas.canvas_size(), (64, 64));
    assert_eq!(canvas.buffer_len(), 4096);
    assert!(canvas.pixels().iter().all(|&p| p == 0));
}

#[test]
fn window_canvas_has_the_configured_geometry() {
    let mut options = LedMatrixOptions::new();
    options.set_rows(16);
    options.set_cols(48);
    let canvas = LedMatrix::new(Some(options), None).unwrap().window_canvas();
    assert_eq!(canvas.canvas_size(), (48, 16));
    assert_eq!(canvas.buffer_len(), 48 * 16);
    assert_eq!(canvas.pixels(), &vec![0u32; 48 * 16]);
    assert_eq!(canvas.surface_pixels(), &vec![0u32; 48 * 16]);
}
