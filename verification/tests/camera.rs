use pointview::camera::{Camera, CameraError, OrbitCamera};
use pointview::geometry::Vec4i;
use pointview::trig::{cos_fp, sin_fp};

#[test]
fn default_camera_state() {
    let c = OrbitCamera::default(1_333_333);
    assert_eq!(c.aspect_micro(), 1_333_333);
    assert_eq!(c.target_micro(), (0, 0, 0));
    assert_eq!(c.range_micro(), 10_000_000);
    assert_eq!(c.azimuth_micro(), 45_000_000);
    assert_eq!(c.elevation_micro(), 45_000_000);
}

#[test]
fn quarter_turn_sines_are_exact() {
    assert_eq!(sin_fp(0), 0);
    assert_eq!(sin_fp(90_000_000), 1_000_000);
    assert_eq!(sin_fp(180_000_000), 0);
    assert_eq!(sin_fp(270_000_000), -1_000_000);
    assert_eq!(cos_fp(0), 1_000_000);
    assert_eq!(cos_fp(180_000_000), -1_000_000);
}

#[test]
fn orbit_wraps_azimuth() {
    let mut c = OrbitCamera::default(1_000_000);
    c.move_on_orbit(100, 0);
    // 45,000,000 - 100 * 572,958 = -12,295,800, wrapped into a full turn.
    assert_eq!(c.azimuth_micro(), 347_704_200);
    assert_eq!(c.elevation_micro(), 45_000_000);
}

#[test]
fn elevation_saturates_at_both_bounds() {
    let mut c = OrbitCamera::default(1_000_000);
    c.move_on_orbit(0, 1_000);
    assert_eq!(c.elevation_micro(), 90_000_000);
    c.move_on_orbit(0, -10_000);
    assert_eq!(c.elevation_micro(), -270_000_000);
    // Saturation, not wrapping: pushing further changes nothing.
    c.move_on_orbit(0, -10_000);
    assert_eq!(c.elevation_micro(), -270_000_000);
}

#[test]
fn longitudinal_zoom_shrinks_range() {
    let mut c = OrbitCamera::default(1_000_000);
    c.move_longitudinally(3);
    // 10,000,000 scaled by 3/4 three times, truncating.
    assert_eq!(c.range_micro(), 4_218_750);
    assert!(c.range_micro() > 0);
}

#[test]
fn longitudinal_roundtrip_restores_range() {
    let mut c = OrbitCamera::default(1_000_000);
    c.move_longitudinally(5);
    c.move_longitudinally(-5);
    assert_eq!(c.range_micro(), 10_000_000);
    c.move_longitudinally(-7);
    c.move_longitudinally(7);
    assert_eq!(c.range_micro(), 10_000_000);
}

#[test]
fn set_range_validates() {
    let mut c = OrbitCamera::default(1_000_000);
    assert_eq!(c.set_range(0), Err(CameraError::NonPositiveRange));
    assert_eq!(c.set_range(-5), Err(CameraError::NonPositiveRange));
    assert_eq!(c.range_micro(), 10_000_000);
    assert_eq!(c.set_range(1_000_000_000_001), Err(CameraError::RangeTooLarge));
    assert_eq!(c.range_micro(), 10_000_000);
    assert_eq!(c.set_range(2_000_000), Ok(()));
    assert_eq!(c.range_micro(), 2_000_000);
}

#[test]
fn angle_setters_wrap_and_clamp() {
    let mut c = OrbitCamera::default(1_000_000);
    c.set_azimuth(725_000_000);
    assert_eq!(c.azimuth_micro(), 5_000_000);
    c.set_azimuth(-10_000_000);
    assert_eq!(c.azimuth_micro(), 350_000_000);
    c.set_elevation(100_000_000);
    assert_eq!(c.elevation_micro(), 90_000_000);
    c.set_elevation(-300_000_000);
    assert_eq!(c.elevation_micro(), -270_000_000);
}

#[test]
fn pan_translates_target_in_azimuth_frame() {
    let mut c = OrbitCamera::default(1_000_000);
    c.set_azimuth(0);
    // One pixel (a million micro-pixels) straight along the first drag
    // axis at azimuth zero: cos = 1, sin = 0, so the second world axis
    // moves by -dx/10.
    c.move_focus(1_000_000, 0);
    assert_eq!(c.target_micro(), (0, -100_000, 0));
    c.move_focus(0, 1_000_000);
    assert_eq!(c.target_micro(), (-100_000, -100_000, 0));
}

#[test]
fn uniform_is_pure_function_of_state() {
    let mut c = OrbitCamera::default(1_333_333);
    c.move_on_orbit(37, -12);
    c.move_longitudinally(2);
    let a = c.generate_uniform();
    let b = c.generate_uniform();
    assert_eq!(a, b);
}

#[test]
fn uniform_eye_on_first_axis() {
    let mut c = OrbitCamera::default(1_000_000);
    c.set_azimuth(0);
    c.set_elevation(0);
    assert_eq!(c.set_range(2_000_000), Ok(()));
    let u = c.generate_uniform();
    assert_eq!(u.camera_pos, Vec4i { x: 2_000_000, y: 0, z: 0, w: 1_000_000 });
}

#[test]
fn uniform_eye_tracks_target() {
    let mut c = OrbitCamera::default(1_000_000);
    c.set_azimuth(0);
    c.set_elevation(0);
    assert_eq!(c.set_range(2_000_000), Ok(()));
    c.set_target(10_000_000, -3_000_000, 500_000);
    let u = c.generate_uniform();
    assert_eq!(u.camera_pos, Vec4i { x: 12_000_000, y: -3_000_000, z: 500_000, w: 1_000_000 });
}
