use iyes_bevy_extras::cursor::WorldCursor;

#[test]
fn a_new_position_moves_the_cursor() {
    let mut cursor = WorldCursor { pos: (0.0f32, 0.0f32), pos_prev: (0.0f32, 0.0f32) };
    assert!(cursor.track((1.5, 2.0)));
    assert_eq!(cursor.pos, (1.5, 2.0));
    assert_eq!(cursor.pos_prev, (0.0, 0.0));
}

#[test]
fn the_same_position_once_more_settles_the_previous_one() {
    let mut cursor = WorldCursor { pos: (1.0f32, 1.0f32), pos_prev: (0.0f32, 0.0f32) };
    assert!(cursor.track((1.0, 1.0)));
    assert_eq!(cursor.pos, (1.0, 1.0));
    assert_eq!(cursor.pos_prev, (1.0, 1.0));
}

#[test]
fn a_cursor_at_rest_does_not_change() {
    let mut cursor = WorldCursor { pos: (3.0f32, 4.0f32), pos_prev: (3.0f32, 4.0f32) };
    assert!(!cursor.track((3.0, 4.0)));
    assert_eq!(cursor.pos, (3.0, 4.0));
    assert_eq!(cursor.pos_prev, (3.0, 4.0));
}

#[test]
fn positions_that_never_compare_equal_always_move() {
    let mut cursor = WorldCursor { pos: f32::NAN, pos_prev: f32::NAN };
    assert!(cursor.track(f32::NAN));
    assert!(cursor.pos.is_nan());
    assert!(cursor.pos_prev.is_nan());
}

#[test]
fn whole_number_positions_work_too() {
    let mut cursor = WorldCursor { pos: 1i64, pos_prev: 1i64 };
    assert!(!cursor.track(1));
    assert!(cursor.track(2));
    assert_eq!((cursor.pos, cursor.pos_prev), (2, 1));
    assert!(cursor.track(2));
    assert_eq!((cursor.pos, cursor.pos_prev), (2, 2));
    assert!(!cursor.track(2));
}
