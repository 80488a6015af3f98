use nes_runtime::pointer::{resolve_axis, resolve_pointer, WindowSize};
use nes_runtime::{HEIGHT, WIDTH};

const SAME: WindowSize = WindowSize { width: 256, height: 240 };
const DOUBLE: WindowSize = WindowSize { width: 512, height: 480 };

#[test]
fn pointer_in_the_middle_of_a_window_of_screen_size() {
    assert_eq!(resolve_pointer(128, 120, SAME), (128, 120));
}

#[test]
fn pointer_at_the_origin_resolves_to_the_first_pixel() {
    // The lower bound of the clamp is 0 and the upper one the last pixel: a
    // pointer at the origin stays at the origin.
    assert_eq!(resolve_pointer(0, 0, SAME), (0, 0));
}

#[test]
fn pointer_right_of_the_window_resolves_to_the_last_column() {
    assert_eq!(resolve_pointer(300, 10, SAME), (255, 10));
}

#[test]
fn pointer_below_the_window_resolves_to_the_last_row() {
    assert_eq!(resolve_pointer(10, 240, SAME), (10, 239));
    assert_eq!(resolve_pointer(10, i64::MAX, SAME), (10, 239));
}

#[test]
fn pointer_left_of_or_above_the_window_resolves_to_zero() {
    assert_eq!(resolve_pointer(-1, -1, SAME), (0, 0));
    assert_eq!(resolve_pointer(i64::MIN, 17, SAME), (0, 17));
    assert_eq!(resolve_pointer(17, i64::MIN, SAME), (17, 0));
}

#[test]
fn pointer_in_a_window_of_twice_the_size() {
    assert_eq!(resolve_pointer(256, 240, DOUBLE), (128, 120));
    assert_eq!(resolve_pointer(511, 479, DOUBLE), (255, 239));
    assert_eq!(resolve_pointer(1, 1, DOUBLE), (0, 0));
    assert_eq!(resolve_pointer(3, 5, DOUBLE), (1, 2));
    assert_eq!(resolve_pointer(512, 480, DOUBLE), (255, 239));
}

#[test]
fn pointer_in_a_window_smaller_than_the_screen() {
    let half = WindowSize { width: 128, height: 120 };
    assert_eq!(resolve_pointer(1, 1, half), (2, 2));
    assert_eq!(resolve_pointer(127, 119, half), (254, 238));
    let odd = WindowSize { width: 100, height: 7 };
    assert_eq!(resolve_pointer(33, 3, odd), (84, 102));
}

#[test]
fn pointer_in_a_window_without_extent() {
    let none = WindowSize { width: 0, height: 0 };
    assert_eq!(resolve_pointer(5, 0, none), (255, 0));
    assert_eq!(resolve_pointer(0, 5, none), (0, 239));
    assert_eq!(resolve_pointer(-5, -5, none), (0, 0));
}

#[test]
fn every_resolved_pixel_is_on_the_screen() {
    let windows = [SAME, DOUBLE, WindowSize { width: 1, height: u32::MAX }];
    let positions = [i64::MIN, -1, 0, 1, 255, 256, 1000, i64::MAX];
    for window in windows {
        for x in positions {
            for y in positions {
                let (px, py) = resolve_pointer(x, y, window);
                assert!(px < WIDTH);
                assert!(py < HEIGHT);
            }
        }
    }
}

#[test]
fn resolve_axis_scales_and_rounds_down() {
    assert_eq!(resolve_axis(2, 3, 256), 170);
    assert_eq!(resolve_axis(1, 3, 2), 0);
    assert_eq!(resolve_axis(2, 3, 2), 1);
    assert_eq!(resolve_axis(3, 3, 2), 1);
    assert_eq!(resolve_axis(i64::MAX, u32::MAX, u32::MAX), u32::MAX - 1);
    assert_eq!(resolve_axis(7, 1, 1), 0);
}
