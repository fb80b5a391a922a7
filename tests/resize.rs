use viuer::{resizable, resize, Image, TerminalSize};

fn get_large_test_image() -> Image {
    Image::blank(1000, 800)
}

fn get_small_test_image() -> Image {
    Image::blank(20, 10)
}

#[test]
fn test_resize_none() {
    let width = None;
    let height = None;
    let terminal = TerminalSize::fallback();

    let img = get_large_test_image();
    let new_img = resize(&img, width, height, terminal);
    assert_eq!(new_img.width(), 57);
    assert_eq!(new_img.height(), 46);

    let img = get_small_test_image();
    let new_img = resize(&img, width, height, terminal);
    assert_eq!(new_img.width(), 20);
    assert_eq!(new_img.height(), 10);
}

#[test]
fn test_resize_some_none() {
    let width = Some(100);
    let height = None;
    let terminal = TerminalSize::fallback();

    let img = get_large_test_image();
    let new_img = resize(&img, width, height, terminal);
    assert_eq!(new_img.width(), 100);
    assert_eq!(new_img.height(), 80);

    let img = get_small_test_image();
    let new_img = resize(&img, width, height, terminal);
    assert_eq!(new_img.width(), 20);
    assert_eq!(new_img.height(), 10);
}

#[test]
fn test_resize_none_some() {
    let width = None;
    let mut height = Some(90);
    let terminal = TerminalSize::fallback();

    let img = get_large_test_image();
    let new_img = resize(&img, width, height, terminal);
    assert_eq!(new_img.width(), 225);
    assert_eq!(new_img.height(), 180);

    height = Some(4);
    let img = get_small_test_image();
    let new_img = resize(&img, width, height, terminal);
    assert_eq!(new_img.width(), 16);
    assert_eq!(new_img.height(), 8);
}

#[test]
fn test_resize_some_some() {
    let width = Some(15);
    let height = Some(9);
    let terminal = TerminalSize::fallback();

    let img = get_large_test_image();
    let new_img = resize(&img, width, height, terminal);
    assert_eq!(new_img.width(), 15);
    assert_eq!(new_img.height(), 18);

    let img = get_small_test_image();
    let new_img = resize(&img, width, height, terminal);
    assert_eq!(new_img.width(), 15);
    assert_eq!(new_img.height(), 18);
}

#[test]
fn fit_into_a_small_terminal_keeps_within_its_rows() {
    let terminal = TerminalSize { columns: 60, rows: 47 };
    let new_img = resize(&get_large_test_image(), None, None, terminal);
    assert!(new_img.width() <= 60);
    assert!(new_img.height() <= 92);
    assert_eq!(new_img.width(), 60);
    assert_eq!(new_img.height(), 48);
    assert_eq!(new_img.data.len(), 60 * 48 * 4);
}

#[test]
fn fit_into_terminal_limited_by_height() {
    let terminal = TerminalSize { columns: 200, rows: 11 };
    let new_img = resize(&get_large_test_image(), None, None, terminal);
    assert_eq!(new_img.height(), 20);
    assert_eq!(new_img.width(), 25);
}

#[test]
fn exact_resize_upscales() {
    let terminal = TerminalSize::fallback();
    let new_img = resize(&Image::blank(3, 2), Some(30), Some(20), terminal);
    assert_eq!(new_img.width(), 30);
    assert_eq!(new_img.height(), 40);
    assert_eq!(new_img.data.len(), 30 * 40 * 4);
}

#[test]
fn width_bound_larger_than_image_keeps_image() {
    let mut img = Image::blank(4, 2);
    for (i, b) in img.data.iter_mut().enumerate() {
        *b = (i * 7 % 256) as u8;
    }
    let new_img = resize(&img, Some(10), None, TerminalSize::fallback());
    assert_eq!(new_img.width(), 4);
    assert_eq!(new_img.height(), 2);
    assert_eq!(new_img.data, img.data);
    let new_img = resize(&img, None, Some(1), TerminalSize::fallback());
    assert_eq!(new_img.data, img.data);
    let new_img = resize(&img, None, None, TerminalSize::fallback());
    assert_eq!(new_img.data, img.data);
}

#[test]
fn height_bound_larger_than_image_keeps_image() {
    let new_img = resize(&Image::blank(7, 5), None, Some(3), TerminalSize::fallback());
    assert_eq!(new_img.width(), 7);
    assert_eq!(new_img.height(), 5);
}

#[test]
fn resizing_an_image_that_meets_the_target_keeps_its_size() {
    let terminal = TerminalSize::fallback();
    let img = Image::blank(15, 18);
    let new_img = resize(&img, Some(15), Some(9), terminal);
    assert_eq!((new_img.width(), new_img.height()), (15, 18));
    let new_img = resize(&img, Some(15), None, terminal);
    assert_eq!((new_img.width(), new_img.height()), (15, 18));
    let new_img = resize(&img, None, Some(9), terminal);
    assert_eq!((new_img.width(), new_img.height()), (15, 18));
    let img = Image::blank(80, 46);
    let new_img = resize(&img, None, None, terminal);
    assert_eq!((new_img.width(), new_img.height()), (80, 46));
}

#[test]
fn resizing_twice_changes_nothing_more() {
    let terminal = TerminalSize::fallback();
    let once = resize(&get_large_test_image(), Some(100), None, terminal);
    let twice = resize(&once, Some(100), None, terminal);
    assert_eq!((twice.width(), twice.height()), (once.width(), once.height()));
}

#[test]
fn empty_image_is_left_as_it_is() {
    let terminal = TerminalSize::fallback();
    let img = Image::blank(0, 0);
    let new_img = resize(&img, Some(15), Some(9), terminal);
    assert_eq!((new_img.width(), new_img.height()), (0, 0));
    let new_img = resize(&img, None, None, terminal);
    assert_eq!((new_img.width(), new_img.height()), (0, 0));
}

#[test]
fn shrinking_averages_pixels() {
    let data = vec![
        200, 0, 0, 255, 200, 0, 0, 255, //
        200, 0, 0, 255, 200, 0, 0, 255,
    ];
    let img = Image::from_raw(2, 2, data).unwrap();
    let new_img = resize(&img, Some(1), Some(0), TerminalSize::fallback());
    assert_eq!((new_img.width(), new_img.height()), (1, 0));
    let new_img = resize(&img, Some(1), None, TerminalSize::fallback());
    assert_eq!((new_img.width(), new_img.height()), (1, 1));
    assert_eq!(new_img.pixel(0, 0), [200, 0, 0, 255]);
}

#[test]
fn image_without_pixels_still_takes_the_bounds() {
    let terminal = TerminalSize::fallback();
    let new_img = resize(&Image::blank(50, 0), Some(10), None, terminal);
    assert_eq!((new_img.width(), new_img.height()), (10, 0));
    let new_img = resize(&Image::blank(0, 50), None, Some(4), terminal);
    assert_eq!((new_img.width(), new_img.height()), (0, 8));
    let new_img = resize(&Image::blank(200, 0), None, None, terminal);
    assert_eq!((new_img.width(), new_img.height()), (80, 0));
    let new_img = resize(&Image::blank(0, 200), None, None, terminal);
    assert_eq!((new_img.width(), new_img.height()), (0, 46));
    assert!(new_img.data.is_empty());
}

#[test]
fn requests_the_scaler_cannot_sum_are_refused() {
    let terminal = TerminalSize::fallback();
    let img = Image::from_raw(5000, 4000, vec![255u8; 5000 * 4000 * 4]).unwrap();
    assert!(!resizable(&img, Some(1), None, terminal));
    assert!(resizable(&img, Some(1), Some(1), terminal));
    assert!(resizable(&img, Some(100), None, terminal));
    assert!(resizable(&img, None, None, terminal));
    assert!(resizable(&img, Some(6000), None, terminal));
    assert!(!resizable(&get_large_test_image(), Some(1), Some(u32::MAX), terminal));
    assert!(resizable(&Image::blank(0, 0), Some(u32::MAX), Some(u32::MAX), terminal));
}
