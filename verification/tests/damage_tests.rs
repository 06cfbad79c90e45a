use pocketjs_kobo::damage::{Rect, changed_bounds};

#[test]
fn identical_frames_have_no_damage() {
    let frame = vec![7u8; 12];
    assert_eq!(changed_bounds(&frame, &frame, 4, 3), None);
    assert_eq!(changed_bounds(&[], &[], 0, 5), None);
}

#[test]
fn the_damage_is_the_tightest_box_around_every_change() {
    let previous = vec![0u8; 5 * 4];
    let mut current = previous.clone();
    current[5 + 3] = 9;
    current[2 * 5 + 1] = 9;
    assert_eq!(
        changed_bounds(&previous, &current, 5, 4),
        Some(Rect { x: 1, y: 1, w: 3, h: 2 })
    );
    current[3 * 5 + 4] = 1;
    assert_eq!(
        changed_bounds(&previous, &current, 5, 4),
        Some(Rect { x: 1, y: 1, w: 4, h: 3 })
    );
}

#[test]
fn a_single_changed_pixel_is_a_one_by_one_box() {
    let previous = vec![0u8; 6];
    let mut current = previous.clone();
    current[5] = 255;
    assert_eq!(
        changed_bounds(&previous, &current, 3, 2),
        Some(Rect { x: 2, y: 1, w: 1, h: 1 })
    );
}
