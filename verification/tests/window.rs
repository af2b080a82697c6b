use dropzone::error::ZoneError;
use dropzone::ratio::Ratio;
use dropzone::window::{dpi_scale, window_size, Point, PointerPosition, WindowDrag};

fn at_dpi(resolution: u16) -> Ratio {
    dpi_scale(Ratio::whole(resolution)).unwrap()
}

fn pointer(x: f64, y: f64) -> PointerPosition {
    PointerPosition { x: (x * 65536.0).round() as i64, y: (y * 65536.0).round() as i64 }
}

#[test]
fn the_scale_is_the_resolution_over_ninety_six() {
    assert_eq!(at_dpi(96), Ratio { numer: 96, denom: 96 });
    assert_eq!(at_dpi(120), Ratio { numer: 120, denom: 96 });
    assert_eq!(at_dpi(0), Ratio { numer: 0, denom: 96 });
    assert_eq!(
        dpi_scale(Ratio { numer: 1545, denom: 16 }),
        Ok(Ratio { numer: 1545, denom: 1536 })
    );
    assert_eq!(
        dpi_scale(Ratio { numer: 7, denom: 682 }),
        Ok(Ratio { numer: 7, denom: 65472 })
    );
}

#[test]
fn a_resolution_must_be_a_number_that_can_be_carried() {
    assert_eq!(dpi_scale(Ratio { numer: 96, denom: 0 }), Err(ZoneError::InvalidArgument));
    assert_eq!(dpi_scale(Ratio { numer: 7, denom: 683 }), Err(ZoneError::InvalidArgument));
    assert_eq!(dpi_scale(Ratio { numer: 7, denom: u16::MAX }), Err(ZoneError::InvalidArgument));
}

#[test]
fn the_window_grows_with_the_scale() {
    assert_eq!(window_size(at_dpi(96)), Ok((80, 80)));
    assert_eq!(window_size(at_dpi(120)), Ok((100, 100)));
    assert_eq!(window_size(at_dpi(100)), Ok((84, 84)));
    assert_eq!(window_size(at_dpi(192)), Ok((160, 160)));
    assert_eq!(window_size(Ratio { numer: u16::MAX, denom: 1 }), Ok((5242800, 5242800)));
}

#[test]
fn a_window_needs_a_scale() {
    assert_eq!(window_size(Ratio { numer: 1, denom: 0 }), Err(ZoneError::InvalidArgument));
}

#[test]
fn the_window_follows_the_primary_button() {
    let mut drag = WindowDrag::new();
    assert_eq!(drag.grip, PointerPosition { x: 0, y: 0 });
    drag.press(1, pointer(12.0, 7.0));
    assert_eq!(drag.grip, PointerPosition { x: 12 * 65536, y: 7 * 65536 });
    assert_eq!(drag.motion(256, pointer(500.0, 300.0)), Some(Point { x: 488, y: 293 }));
    assert_eq!(drag.motion(256 | 16, pointer(5.0, 3.0)), Some(Point { x: -7, y: -4 }));
}

#[test]
fn a_drag_is_cut_to_whole_pixels_after_subtracting() {
    let mut drag = WindowDrag::new();
    drag.press(1, pointer(12.75, 7.25));
    // 500.5 - 12.75 = 487.75 and 300.0 - 7.25 = 292.75
    assert_eq!(drag.motion(256, pointer(500.5, 300.0)), Some(Point { x: 487, y: 292 }));
    // 5.5 - 12.75 = -7.25 and 7.0 - 7.25 = -0.25, cut towards zero
    assert_eq!(drag.motion(256, pointer(5.5, 7.0)), Some(Point { x: -7, y: 0 }));
    for (grip, root) in [(0.5, 3.25), (3.25, 0.5), (10.0, 10.999), (10.999, 10.0)] {
        let mut drag = WindowDrag::new();
        drag.press(1, pointer(grip, grip));
        let expected = (root - grip) as i32;
        assert_eq!(
            drag.motion(256, pointer(root, root)),
            Some(Point { x: expected, y: expected })
        );
    }
}

#[test]
fn other_buttons_do_not_take_hold() {
    let mut drag = WindowDrag::new();
    drag.press(1, pointer(12.0, 7.0));
    drag.press(2, pointer(1.0, 1.0));
    drag.press(3, pointer(2.0, 2.0));
    drag.press(0, pointer(3.0, 3.0));
    assert_eq!(drag.grip, pointer(12.0, 7.0));
}

#[test]
fn the_window_stays_while_the_button_is_up() {
    let mut drag = WindowDrag::new();
    drag.press(1, pointer(12.0, 7.0));
    assert_eq!(drag.motion(0, pointer(500.0, 300.0)), None);
    assert_eq!(drag.motion(512, pointer(500.0, 300.0)), None);
    assert_eq!(drag.motion(255, pointer(500.0, 300.0)), None);
}

#[test]
fn a_far_drag_stops_at_the_edge_of_the_coordinates() {
    let mut drag = WindowDrag::new();
    drag.press(1, PointerPosition { x: i64::MIN, y: i64::MAX });
    assert_eq!(
        drag.motion(256, PointerPosition { x: i64::MAX, y: i64::MIN }),
        Some(Point { x: i32::MAX, y: i32::MIN })
    );
}
