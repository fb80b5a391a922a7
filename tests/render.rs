use viuer::{render, render_image, Config, Image, TerminalSize};

const RESET: &[u8] = b"\x1b[0m";
const UPPER: &str = "\u{2580}";
const LOWER: &str = "\u{2584}";
const FULL: &str = "\u{2588}";

fn solid(width: u32, height: u32, rgba: [u8; 4]) -> Image {
    let mut data = Vec::new();
    for _ in 0..(width * height) {
        data.extend_from_slice(&rgba);
    }
    Image::from_raw(width, height, data).unwrap()
}

fn count_lines(out: &[u8]) -> usize {
    out.iter().filter(|b| **b == b'\n').count()
}

#[test]
fn two_rows_make_one_line_of_half_blocks() {
    let data = vec![
        10, 20, 30, 255, //
        1, 2, 3, 255,
    ];
    let img = Image::from_raw(1, 2, data).unwrap();
    let out = render_image(&img, false);
    let expected = format!("\x1b[38;2;10;20;30m\x1b[48;2;1;2;3m{}\x1b[0m\n", UPPER);
    assert_eq!(out, expected.into_bytes());
}

#[test]
fn odd_height_ends_with_full_blocks() {
    let img = solid(2, 3, [255, 128, 0, 255]);
    let out = render_image(&img, false);
    assert_eq!(count_lines(&out), 2);
    let text = String::from_utf8(out).unwrap();
    let last = text.lines().last().unwrap();
    let cell = format!("\x1b[38;2;255;128;0m{}", FULL);
    assert_eq!(last, format!("{}{}\x1b[0m", cell, cell));
}

#[test]
fn odd_height_line_count() {
    for h in [1u32, 5, 7, 9] {
        let out = render_image(&solid(3, h, [1, 1, 1, 255]), true);
        assert_eq!(count_lines(&out), ((h + 1) / 2) as usize);
    }
}

#[test]
fn every_line_ends_with_a_reset() {
    let out = render_image(&solid(4, 6, [9, 8, 7, 255]), false);
    let text = String::from_utf8(out).unwrap();
    assert_eq!(text.lines().count(), 3);
    for line in text.lines() {
        assert!(line.as_bytes().ends_with(RESET));
    }
}

#[test]
fn zero_sized_image_draws_nothing() {
    let img = Image::blank(0, 0);
    assert!(render_image(&img, false).is_empty());
    let config = Config::default();
    assert!(render(&img, &config, TerminalSize::fallback()).is_empty());
    let config = Config { width: Some(15), height: Some(9), resize: true, transparent: true };
    assert!(render(&img, &config, TerminalSize::fallback()).is_empty());
    let config = Config { width: None, height: None, resize: false, transparent: false };
    assert!(render(&Image::blank(0, 4), &config, TerminalSize::fallback()).is_empty());
    let config =
        Config { width: Some(u32::MAX), height: Some(u32::MAX), resize: true, transparent: false };
    assert!(render(&img, &config, TerminalSize::fallback()).is_empty());
}

#[test]
fn transparent_pixels_show_the_terminal_background() {
    let data = vec![
        0, 0, 0, 0, 50, 60, 70, 255, //
        40, 41, 42, 255, 0, 0, 0, 128,
    ];
    let img = Image::from_raw(2, 2, data).unwrap();
    let out = String::from_utf8(render_image(&img, true)).unwrap();
    let expected = format!(
        "\x1b[0m\x1b[38;2;40;41;42m{}\x1b[0m\x1b[38;2;50;60;70m{}\x1b[0m\n",
        LOWER, UPPER
    );
    assert_eq!(out, expected);

    let clear = solid(1, 2, [5, 5, 5, 0]);
    let out = String::from_utf8(render_image(&clear, true)).unwrap();
    assert_eq!(out, "\x1b[0m \x1b[0m\n");
}

#[test]
fn transparent_pixels_become_a_checkerboard() {
    let img = solid(2, 4, [0, 0, 0, 0]);
    let out = String::from_utf8(render_image(&img, false)).unwrap();
    let dark = "\x1b[38;2;102;102;102m\x1b[48;2;102;102;102m";
    let light = "\x1b[38;2;153;153;153m\x1b[48;2;153;153;153m";
    let expected = format!(
        "{d}{u}{l}{u}\x1b[0m\n{l}{u}{d}{u}\x1b[0m\n",
        d = dark,
        l = light,
        u = UPPER
    );
    assert_eq!(out, expected);
}

#[test]
fn render_fits_before_drawing() {
    let img = solid(1000, 800, [1, 2, 3, 255]);
    let config = Config { width: Some(15), height: Some(9), resize: true, transparent: false };
    let out = render(&img, &config, TerminalSize::fallback());
    assert_eq!(count_lines(&out), 9);
    let config = Config { width: Some(15), height: Some(9), resize: false, transparent: false };
    let out = render(&solid(3, 4, [1, 2, 3, 255]), &config, TerminalSize::fallback());
    assert_eq!(count_lines(&out), 2);
}

#[test]
fn default_config_fits_the_terminal() {
    let config = Config::default();
    assert_eq!(config.width, None);
    assert_eq!(config.height, None);
    assert!(config.resize);
    assert!(!config.transparent);
    let out = render(&Image::blank(1000, 800), &config, TerminalSize::fallback());
    assert_eq!(count_lines(&out), 23);
}

#[test]
fn raw_buffer_must_hold_every_pixel() {
    assert!(Image::from_raw(2, 2, vec![0; 15]).is_none());
    assert!(Image::from_raw(2, 2, vec![0; 17]).is_none());
    let img = Image::from_raw(2, 1, vec![1, 2, 3, 4, 5, 6, 7, 8]).unwrap();
    assert_eq!(img.pixel(1, 0), [5, 6, 7, 8]);
    assert!(!img.is_empty());
    assert!(Image::blank(0, 3).is_empty());
}

#[test]
fn fallback_terminal_size() {
    let t = TerminalSize::fallback();
    assert_eq!((t.columns, t.rows), (80, 24));
}
