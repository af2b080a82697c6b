use dropzone::error::ZoneError;
use dropzone::layout::{icon_ring, layout_angles, Angle, Ring};

#[test]
fn zero_icons_are_refused() {
    assert_eq!(layout_angles(0), Err(ZoneError::InvalidArgument));
}

#[test]
fn six_icons_sit_sixty_degrees_apart() {
    let angles = layout_angles(6).unwrap();
    assert_eq!(angles.len(), 6);
    for (i, angle) in angles.iter().enumerate() {
        assert_eq!(*angle, Angle { numer: 360 * i as u64, denom: 6 });
    }
}

#[test]
fn one_icon_sits_on_the_x_axis() {
    assert_eq!(layout_angles(1), Ok(vec![Angle { numer: 0, denom: 1 }]));
}

#[test]
fn seven_icons_are_spaced_exactly() {
    let angles = layout_angles(7).unwrap();
    assert_eq!(angles.len(), 7);
    assert_eq!(angles[0].numer, 0);
    for pair in angles.windows(2) {
        assert_eq!(pair[0].denom, 7);
        assert_eq!(pair[1].denom, 7);
        assert_eq!(pair[1].numer - pair[0].numer, 360);
    }
    assert!(angles[6].numer < 360 * 7);
}

#[test]
fn points_on_the_ring_are_a_radius_from_its_centre() {
    let ring = icon_ring(90, 60);
    let cx = ring.center_x as f64 / ring.unit as f64;
    let cy = ring.center_y as f64 / ring.unit as f64;
    let r = ring.radius as f64 / ring.unit as f64;
    let angles = layout_angles(5).unwrap();
    let mut previous: Option<f64> = None;
    for angle in angles.iter() {
        let degrees = angle.numer as f64 / angle.denom as f64;
        let x = degrees.to_radians().cos() * r + cx;
        let y = degrees.to_radians().sin() * r + cy;
        let distance = ((x - cx) * (x - cx) + (y - cy) * (y - cy)).sqrt();
        assert!((distance - r).abs() < 1e-9);
        if let Some(before) = previous {
            assert!((degrees - before - 72.0).abs() < 1e-9);
        }
        previous = Some(degrees);
    }
}

#[test]
fn the_ring_lies_around_the_middle_of_the_window() {
    assert_eq!(
        icon_ring(80, 60),
        Ring { unit: 6, center_x: 240, center_y: 180, radius: 160 }
    );
    assert_eq!(
        icon_ring(i32::MAX, i32::MIN),
        Ring {
            unit: 6,
            center_x: 3 * i32::MAX as i64,
            center_y: 3 * i32::MIN as i64,
            radius: 2 * i32::MAX as i64,
        }
    );
}
