use platformer_core::camera::LevelBox;
use platformer_core::camera::camera_fit_inside_current_level;
use platformer_core::camera::update_level_selection;

fn level(x: i64, y: i64, width: i64, height: i64) -> LevelBox {
    LevelBox { x, y, width, height }
}

#[test]
fn the_first_containing_level_wins() {
    let levels = vec![
        level(0, 0, 100, 100),
        level(50, 0, 100, 100),
        level(200, 0, 100, 100),
    ];
    // Inside both of the first two: the first match is selected.
    assert_eq!(update_level_selection(&levels, 60, 50), Some(0));
    assert_eq!(update_level_selection(&levels, 120, 50), Some(1));
    assert_eq!(update_level_selection(&levels, 250, 50), Some(2));
}

#[test]
fn containment_is_strict_and_may_fail() {
    let levels = vec![level(0, 0, 100, 100)];
    // On the boundary counts as outside.
    assert_eq!(update_level_selection(&levels, 0, 50), None);
    assert_eq!(update_level_selection(&levels, 100, 50), None);
    assert_eq!(update_level_selection(&levels, 50, 0), None);
    assert_eq!(update_level_selection(&levels, -10, 50), None);
    assert_eq!(update_level_selection(&levels, 50, 50), Some(0));
}

#[test]
fn wide_level_scrolls_horizontally_within_bounds() {
    let lvl = level(0, 0, 1000, 100);
    // 160x90 window: the level is wider than the window's aspect ratio.
    // Viewport height: 100 rounded to the nearest multiple of 9 is 99;
    // width: 99 * 160 / 90 = 176.
    let cam = camera_fit_inside_current_level(300, 50, &lvl, 160, 90);
    assert_eq!(cam.height, 99);
    assert_eq!(cam.width, 176);
    assert_eq!(cam.y, 0);
    // Player centered: 300 - 176 / 2 = 212.
    assert_eq!(cam.x, 212);
}

#[test]
fn scroll_offset_is_clamped_for_any_player_position() {
    let lvl = level(0, 0, 1000, 100);
    for px in [-100000, -500, 0, 88, 500, 999, 5000, 100000] {
        let cam = camera_fit_inside_current_level(px, 50, &lvl, 160, 90);
        assert!(0 <= cam.x && cam.x <= 1000 - cam.width);
    }
    // Far left pins to the level's left edge; far right to width - viewport.
    let cam = camera_fit_inside_current_level(-100000, 50, &lvl, 160, 90);
    assert_eq!(cam.x, 0);
    let cam = camera_fit_inside_current_level(100000, 50, &lvl, 160, 90);
    assert_eq!(cam.x, 1000 - cam.width);
}

#[test]
fn tall_level_scrolls_vertically_within_bounds() {
    let lvl = level(0, 0, 100, 1000);
    // Viewport width: 100 rounded to the nearest multiple of 16 is 96;
    // height: 96 * 90 / 160 = 54.
    let cam = camera_fit_inside_current_level(50, 300, &lvl, 160, 90);
    assert_eq!(cam.width, 96);
    assert_eq!(cam.height, 54);
    assert_eq!(cam.x, 0);
    // Player centered: 300 - 54 / 2 = 273.
    assert_eq!(cam.y, 273);
    for py in [-100000, 0, 500, 100000] {
        let cam = camera_fit_inside_current_level(50, py, &lvl, 160, 90);
        assert!(0 <= cam.y && cam.y <= 1000 - cam.height);
    }
}

#[test]
fn level_offset_moves_the_camera_with_the_level() {
    let lvl = level(4000, -2000, 1000, 100);
    let cam = camera_fit_inside_current_level(4000 - 70, 0, &lvl, 160, 90);
    // The scroll offset clamps to zero and the camera sits at the level
    // origin.
    assert_eq!(cam.x, 4000);
    assert_eq!(cam.y, -2000);
}
