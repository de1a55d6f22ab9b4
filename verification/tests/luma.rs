use wasm_motion::frame::{paint_black, paint_grey};
use wasm_motion::luma::{luma, luma_difference};

#[test]
fn luma_of_pure_channels() {
    assert_eq!(luma(0, 0, 0), 0);
    assert_eq!(luma(255, 255, 255), 255);
    assert_eq!(luma(255, 0, 0), 76);
    assert_eq!(luma(0, 255, 0), 149);
    assert_eq!(luma(0, 0, 255), 28);
}

#[test]
fn luma_rounds_down() {
    // 77 + 150 + 29 = 256, so a grey colour keeps its value
    assert_eq!(luma(200, 200, 200), 200);
    assert_eq!(luma(1, 1, 1), 1);
    // (3 * 77) / 256 = 0
    assert_eq!(luma(3, 0, 0), 0);
    // (4 * 77) / 256 = 1
    assert_eq!(luma(4, 0, 0), 1);
    // (10 * 77 + 20 * 150 + 30 * 29) / 256 = 4640 / 256 = 18
    assert_eq!(luma(10, 20, 30), 18);
}

#[test]
fn luma_ignores_alpha_and_takes_the_gap() {
    let before: Vec<u8> = vec![0, 0, 0, 255, 200, 200, 200, 0];
    let now: Vec<u8> = vec![200, 200, 200, 7, 0, 0, 0, 99];
    assert_eq!(luma_difference(&now, &before, 0), 200);
    assert_eq!(luma_difference(&now, &before, 1), 200);
    assert_eq!(luma_difference(&before, &now, 0), 200);
    assert_eq!(luma_difference(&now, &now, 0), 0);
    assert_eq!(luma_difference(&now, &now, 1), 0);
}

#[test]
fn luma_difference_of_mixed_colours() {
    let before: Vec<u8> = vec![10, 20, 30, 255];
    let now: Vec<u8> = vec![255, 0, 0, 255];
    // 76 against 18
    assert_eq!(luma_difference(&now, &before, 0), 58);
    assert_eq!(luma_difference(&before, &now, 0), 58);
}

#[test]
fn paint_black_sets_alpha_only() {
    let mut frame: Vec<u8> = vec![9; 8];
    paint_black(&mut frame);
    assert_eq!(frame, vec![0, 0, 0, 255, 0, 0, 0, 255]);
}

#[test]
fn paint_black_on_a_ragged_frame() {
    let mut frame: Vec<u8> = vec![7; 6];
    paint_black(&mut frame);
    assert_eq!(frame, vec![0, 0, 0, 255, 0, 0]);
    let mut none: Vec<u8> = Vec::new();
    paint_black(&mut none);
    assert!(none.is_empty());
}

#[test]
fn paint_grey_touches_one_pixel() {
    let mut frame: Vec<u8> = vec![1, 2, 3, 4, 5, 6, 7, 8, 9, 10, 11, 12];
    paint_grey(&mut frame, 1, 77);
    assert_eq!(frame, vec![1, 2, 3, 4, 77, 77, 77, 255, 9, 10, 11, 12]);
}
