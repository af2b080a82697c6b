use dropzone::animation::{
    AnimationController, AnimationHandle, Direction, Frame, IconState, Place, TickOutcome,
    ANIMATION_STEPS,
};
use dropzone::error::ZoneError;
use dropzone::layout::{icon_ring, layout_angles};
use dropzone::ratio::Ratio;

fn ring_points(width: i32, height: i32, count: usize) -> Vec<(f64, f64)> {
    let ring = icon_ring(width, height);
    let unit = ring.unit as f64;
    let (cx, cy, r) = (
        ring.center_x as f64 / unit,
        ring.center_y as f64 / unit,
        ring.radius as f64 / unit,
    );
    let mut points = Vec::new();
    for angle in layout_angles(count as u32).unwrap() {
        let radians = (angle.numer as f64 / angle.denom as f64).to_radians();
        points.push((radians.cos() * r + cx, radians.sin() * r + cy));
    }
    points
}

fn frame_for(width: i32, height: i32, scale: Ratio, count: usize) -> Frame {
    let mut anchors = Vec::new();
    for (x, y) in ring_points(width, height, count) {
        anchors.push(Place { x: (x * 6.0) as i64, y: (y * 6.0) as i64 });
    }
    Frame { window_width: width, window_height: height, scale, anchors }
}

fn plain_frame(count: usize) -> Frame {
    frame_for(80, 80, Ratio { numer: 1, denom: 1 }, count)
}

fn corner_of(centre: f64, size: i32) -> i32 {
    (centre - size as f64 / 2.0) as i32
}

fn centred(point: (f64, f64), size: i32, visible: bool) -> IconState {
    IconState { x: corner_of(point.0, size), y: corner_of(point.1, size), size, visible }
}

#[test]
fn a_controller_needs_icons() {
    assert_eq!(AnimationController::new(0, 80).err(), Some(ZoneError::InvalidArgument));
    assert_eq!(AnimationController::new(6, -1).err(), Some(ZoneError::InvalidArgument));
}

#[test]
fn a_controller_starts_at_rest() {
    let controller = AnimationController::new(6, 80).unwrap();
    assert_eq!(controller.main_icon(), IconState { x: 0, y: 0, size: 80, visible: true });
    assert_eq!(controller.icons().len(), 6);
    for icon in controller.icons() {
        assert_eq!(*icon, IconState { x: 0, y: 0, size: 0, visible: false });
    }
    assert!(!controller.drag_in());
    assert_eq!(controller.run(), None);
    assert!(!controller.is_current(AnimationHandle { generation: 0 }));
}

#[test]
fn a_run_in_ends_on_target_after_ten_ticks() {
    let mut controller = AnimationController::new(6, 80).unwrap();
    let handle = controller.start_animation(Direction::In);
    let frame = plain_frame(6);
    for tick in 0..ANIMATION_STEPS {
        assert_eq!(controller.run().unwrap().step_counter, ANIMATION_STEPS - tick);
        let outcome = controller.tick(handle, &frame);
        if tick < ANIMATION_STEPS - 1 {
            assert_eq!(outcome, Ok(TickOutcome::Continue));
        } else {
            assert_eq!(outcome, Ok(TickOutcome::Complete));
        }
    }
    assert_eq!(controller.run(), None);
    assert_eq!(controller.main_icon().size, 0);
    for icon in controller.icons() {
        assert_eq!(icon.size, 80 / 3);
        assert!(icon.visible);
    }
}

#[test]
fn a_run_out_ends_on_target_and_hides_the_icons() {
    let mut controller = AnimationController::new(6, 80).unwrap();
    let frame = plain_frame(6);
    let growing = controller.start_animation(Direction::In);
    for _ in 0..ANIMATION_STEPS {
        controller.tick(growing, &frame).unwrap();
    }
    let handle = controller.start_animation(Direction::Out);
    for tick in 0..ANIMATION_STEPS {
        let outcome = controller.tick(handle, &frame).unwrap();
        let last = tick == ANIMATION_STEPS - 1;
        assert_eq!(outcome == TickOutcome::Complete, last);
        for icon in controller.icons() {
            assert_eq!(icon.visible, !last);
        }
    }
    assert_eq!(controller.main_icon().size, 80);
    assert_eq!(controller.main_icon().x, 0);
    assert_eq!(controller.main_icon().y, 0);
    for icon in controller.icons() {
        assert_eq!(icon.size, 0);
    }
}

#[test]
fn the_main_glyph_overshoots_and_settles() {
    let mut controller = AnimationController::new(1, 0).unwrap();
    let handle = controller.start_animation(Direction::Out);
    let frame = plain_frame(1);
    // aims at 130 while more than three ticks are left, then at 80:
    // 91 - 11/3 = 88, 88 - 8/2 = 84, 84 - 4/1 = 80
    let expected = [13, 26, 39, 52, 65, 78, 91, 88, 84, 80];
    for size in expected {
        controller.tick(handle, &frame).unwrap();
        assert_eq!(controller.main_icon().size, size);
        assert_eq!(controller.main_icon().x, 40 - size / 2);
        assert_eq!(controller.main_icon().y, 40 - size / 2);
    }
}

#[test]
fn the_icons_overshoot_and_settle() {
    let mut controller = AnimationController::new(2, 90).unwrap();
    let handle = controller.start_animation(Direction::In);
    let frame = frame_for(90, 60, Ratio { numer: 3, denom: 2 }, 2);
    // aim at 30 + 30 while more than three ticks are left, then at 30
    let sizes = [6, 12, 18, 24, 30, 36, 42, 38, 34, 30];
    // the main glyph shrinks from 90 towards nothing
    let main = [81, 72, 63, 54, 45, 36, 27, 18, 9, 0];
    let points = ring_points(90, 60, 2);
    for (size, main_size) in sizes.iter().zip(main.iter()) {
        controller.tick(handle, &frame).unwrap();
        let icons = controller.icons();
        assert_eq!(icons[0], centred(points[0], *size, true));
        assert_eq!(icons[1], centred(points[1], *size, true));
        assert_eq!(
            controller.main_icon(),
            IconState {
                x: 45 - main_size / 2,
                y: 30 - main_size / 2,
                size: *main_size,
                visible: true,
            }
        );
    }
}

#[test]
fn shrinking_rounds_towards_zero() {
    let mut controller = AnimationController::new(1, 5).unwrap();
    let handle = controller.start_animation(Direction::In);
    let frame = frame_for(0, 0, Ratio { numer: 0, denom: 1 }, 1);
    // -5/10, -5/9, -5/8, -5/7, -5/6 round to zero, then -5/5, -4/4, -3/3, -2/2, -1/1
    let expected = [5, 5, 5, 5, 5, 4, 3, 2, 1, 0];
    for size in expected {
        controller.tick(handle, &frame).unwrap();
        assert_eq!(controller.main_icon().size, size);
    }
}

#[test]
fn a_tick_follows_the_window_as_it_is_now() {
    let mut controller = AnimationController::new(1, 80).unwrap();
    let handle = controller.start_animation(Direction::In);
    for _ in 0..9 {
        controller.tick(handle, &plain_frame(1)).unwrap();
    }
    let resized = frame_for(300, 200, Ratio { numer: 1, denom: 1 }, 1);
    assert_eq!(controller.tick(handle, &resized), Ok(TickOutcome::Complete));
    // the ring of the larger window is centred on (150, 100) and 100 pixels in radius
    assert_eq!(controller.icons()[0], IconState { x: 200, y: 50, size: 100, visible: true });
    assert_eq!(controller.main_icon(), IconState { x: 150, y: 100, size: 0, visible: true });
}

#[test]
fn a_cancelled_run_moves_nothing_more() {
    let mut controller = AnimationController::new(6, 80).unwrap();
    let handle = controller.start_animation(Direction::In);
    let frame = plain_frame(6);
    for _ in 0..4 {
        assert_eq!(controller.tick(handle, &frame), Ok(TickOutcome::Continue));
    }
    assert_eq!(controller.run().unwrap().step_counter, 6);
    controller.cancel(handle);
    assert_eq!(controller.run(), None);
    assert!(!controller.is_current(handle));
    let main = controller.main_icon();
    let icons = controller.icons().clone();
    for _ in 0..3 {
        assert_eq!(controller.tick(handle, &frame), Ok(TickOutcome::Complete));
        assert_eq!(controller.main_icon(), main);
        assert_eq!(controller.icons(), &icons);
    }
}

#[test]
fn a_replaced_run_moves_nothing_more() {
    let mut controller = AnimationController::new(3, 80).unwrap();
    let frame = plain_frame(3);
    let first = controller.start_animation(Direction::In);
    controller.tick(first, &frame).unwrap();
    let second = controller.start_animation(Direction::Out);
    assert!(first != second);
    assert!(!controller.is_current(first));
    assert!(controller.is_current(second));
    let main = controller.main_icon();
    let icons = controller.icons().clone();
    assert_eq!(controller.tick(first, &frame), Ok(TickOutcome::Complete));
    assert_eq!(controller.main_icon(), main);
    assert_eq!(controller.icons(), &icons);
    assert_eq!(controller.run().unwrap().step_counter, ANIMATION_STEPS);
    controller.cancel(first);
    assert!(controller.is_current(second));
    assert_eq!(controller.tick(second, &frame), Ok(TickOutcome::Continue));
    assert_eq!(controller.run().unwrap().step_counter, ANIMATION_STEPS - 1);
}

#[test]
fn a_finished_run_is_over() {
    let mut controller = AnimationController::new(2, 80).unwrap();
    let frame = plain_frame(2);
    let handle = controller.start_animation(Direction::In);
    for _ in 0..ANIMATION_STEPS {
        controller.tick(handle, &frame).unwrap();
    }
    let icons = controller.icons().clone();
    assert_eq!(controller.tick(handle, &frame), Ok(TickOutcome::Complete));
    assert_eq!(controller.icons(), &icons);
    assert!(!controller.is_current(handle));
}

#[test]
fn a_frame_that_does_not_fit_is_refused() {
    let mut controller = AnimationController::new(2, 80).unwrap();
    let handle = controller.start_animation(Direction::In);
    let one = Ratio { numer: 1, denom: 1 };
    let mut outside = plain_frame(2);
    outside.anchors[1].x -= 3;
    let mut inside = plain_frame(2);
    inside.anchors[0].x -= 3;
    let mut aside = plain_frame(2);
    aside.anchors[0].y += 30;
    let mut stale = frame_for(120, 80, one, 2);
    stale.anchors = plain_frame(2).anchors;
    let bad = [
        plain_frame(1),
        plain_frame(3),
        frame_for(-1, 80, one, 2),
        frame_for(80, -1, one, 2),
        frame_for(80, 80, Ratio { numer: 1, denom: 0 }, 2),
        frame_for(i32::MAX - 49, 80, one, 2),
        frame_for(i32::MAX, 80, Ratio { numer: 1, denom: 50 }, 2),
        outside,
        inside,
        aside,
        stale,
    ];
    for frame in bad.iter() {
        assert!(!frame.fits(2));
        assert_eq!(controller.tick(handle, frame), Err(ZoneError::InvalidArgument));
        assert_eq!(controller.run().unwrap().step_counter, ANIMATION_STEPS);
        assert_eq!(controller.main_icon().size, 80);
        assert_eq!(controller.icons()[0].size, 0);
    }
    assert!(frame_for(i32::MAX - 50, 80, one, 2).fits(2));
    assert!(frame_for(i32::MAX, 80, Ratio { numer: 1, denom: 51 }, 2).fits(2));
    let mut near = plain_frame(2);
    near.anchors[0].x += 2;
    near.anchors[1].y -= 2;
    assert!(near.fits(2));
    assert_eq!(controller.tick(handle, &near), Ok(TickOutcome::Continue));
}

#[test]
fn an_anchor_lies_on_the_ring_of_its_window() {
    let one = Ratio { numer: 1, denom: 1 };
    for (width, height, count) in [(80, 80, 6), (90, 60, 7), (1, 1, 3), (0, 0, 2), (1000, 10, 12)] {
        assert!(frame_for(width, height, one, count).fits(count));
    }
    // the ring of an 80 by 80 window: 480 units wide, around (240, 240), 160 in radius
    let mut frame = plain_frame(1);
    for (x, y, fits) in [
        (400, 240, true),
        (402, 240, true),
        (403, 240, false),
        (398, 240, true),
        (397, 240, false),
        (240, 400, true),
        (80, 240, true),
        (240, 80, true),
        (240, 240, false),
        (336, 368, true),
    ] {
        frame.anchors[0] = Place { x, y };
        assert_eq!(frame.fits(1), fits);
    }
}

#[test]
fn an_icon_is_centred_on_its_place_to_the_half_pixel() {
    let mut controller = AnimationController::new(6, 90).unwrap();
    let handle = controller.start_animation(Direction::In);
    let frame = frame_for(90, 90, Ratio { numer: 1, denom: 1 }, 6);
    assert_eq!(frame.anchors[0], Place { x: 450, y: 270 });
    controller.tick(handle, &frame).unwrap();
    // the first place is (75, 45) and the icon 5 wide: 72.5 and 42.5 are cut to 72 and 42
    assert_eq!(controller.icons()[0], IconState { x: 72, y: 42, size: 5, visible: true });
    let points = ring_points(90, 90, 6);
    for (icon, point) in controller.icons().iter().zip(points.iter()) {
        assert_eq!(*icon, centred(*point, 5, true));
    }
}

#[test]
fn an_icon_beyond_the_window_edge_is_rounded_towards_it() {
    let mut controller = AnimationController::new(2, 30).unwrap();
    let frame = frame_for(30, 4, Ratio { numer: 1, denom: 1 }, 2);
    assert_eq!(frame.anchors[0], Place { x: 150, y: 12 });
    let handle = controller.start_animation(Direction::In);
    // 21 - 11/3 = 18, 18 - 8/2 = 14, 14 - 4/1 = 10
    let sizes = [3, 6, 9, 12, 15, 18, 21, 18, 14, 10];
    for size in sizes {
        controller.tick(handle, &frame).unwrap();
        // the first place is (25, 2): the top edge is 2 - size / 2, cut towards zero
        let icon = controller.icons()[0];
        assert_eq!(icon.size, size);
        assert_eq!(icon.x, corner_of(25.0, size));
        assert_eq!(icon.y, corner_of(2.0, size));
    }
    assert_eq!(controller.icons()[0].y, -3);
}

#[test]
fn the_largest_window_does_not_overflow() {
    let mut controller = AnimationController::new(3, i32::MAX).unwrap();
    let one = Ratio { numer: 1, denom: 1 };
    let frame = frame_for(i32::MAX - 50, i32::MAX, one, 3);
    assert!(frame.fits(3));
    let out = controller.start_animation(Direction::Out);
    for _ in 0..ANIMATION_STEPS {
        controller.tick(out, &frame).unwrap();
    }
    assert_eq!(controller.main_icon().size, i32::MAX - 50);
    let back = controller.start_animation(Direction::In);
    for _ in 0..ANIMATION_STEPS {
        controller.tick(back, &frame).unwrap();
    }
    let size = (i32::MAX - 50) / 3;
    let points = ring_points(i32::MAX - 50, i32::MAX, 3);
    for (icon, point) in controller.icons().iter().zip(points.iter()) {
        assert_eq!(*icon, centred(*point, size, true));
    }
}

#[test]
fn a_drag_starts_a_run_in_only_once() {
    let mut controller = AnimationController::new(6, 80).unwrap();
    let handle = controller.drag_enter().unwrap();
    assert!(controller.drag_in());
    assert!(controller.is_current(handle));
    assert_eq!(controller.run().unwrap().direction, Direction::In);
    assert_eq!(controller.run().unwrap().step_counter, ANIMATION_STEPS);
    controller.tick(handle, &plain_frame(6)).unwrap();
    assert_eq!(controller.drag_enter(), None);
    assert!(controller.is_current(handle));
    assert_eq!(controller.run().unwrap().step_counter, ANIMATION_STEPS - 1);
}

#[test]
fn leaving_the_zone_starts_a_run_out() {
    let mut controller = AnimationController::new(6, 80).unwrap();
    assert_eq!(controller.drag_leave(true), None);
    assert_eq!(controller.run(), None);
    let entered = controller.drag_enter().unwrap();
    assert_eq!(controller.drag_leave(false), None);
    assert!(controller.is_current(entered));
    let left = controller.drag_leave(true).unwrap();
    assert!(!controller.drag_in());
    assert!(controller.is_current(left));
    assert!(!controller.is_current(entered));
    assert_eq!(controller.run().unwrap().direction, Direction::Out);
    assert_eq!(controller.drag_leave(true), None);
}

#[test]
fn a_drop_starts_a_run_out() {
    let mut controller = AnimationController::new(6, 80).unwrap();
    let entered = controller.drag_enter().unwrap();
    let dropped = controller.drop_received();
    assert!(!controller.drag_in());
    assert!(controller.is_current(dropped));
    assert!(!controller.is_current(entered));
    assert_eq!(controller.run().unwrap().direction, Direction::Out);
    let again = controller.drop_received();
    assert!(controller.is_current(again));
    assert!(!controller.is_current(dropped));
}

#[test]
fn starting_a_run_moves_no_icon() {
    let mut controller = AnimationController::new(2, 80).unwrap();
    let frame = plain_frame(2);
    let first = controller.start_animation(Direction::In);
    controller.tick(first, &frame).unwrap();
    let main = controller.main_icon();
    let icons = controller.icons().clone();
    controller.start_animation(Direction::Out);
    assert_eq!(controller.main_icon(), main);
    assert_eq!(controller.icons(), &icons);
}
