use mathvis::animation::{commit_frames, Color, ScreenLike, Show2D, Vector2D};
use mathvis::error::MathError;
use mathvis::matrix::Matrix;
use mathvis::screen::{interpolate, AnimError, Quality, Ratio, Screen2D};

fn value(r: Ratio) -> f64 {
    r.num as f64 / r.den as f64
}

const WHITE: Color = Color { r: 255, g: 255, b: 255 };

#[test]
fn test_center() {
    let screen = Screen2D::new((-10, 10), (-10, 15), String::new(), 30, 1920, 1080).unwrap();
    let (x, y) = screen.get_center_pixels();
    assert!(value(x) == 960.0 && value(y) == 648.0);
}

#[test]
fn test_lerp() {
    let screen = Screen2D::new((-10, 10), (-10, 10), String::new(), 30, 1920, 1080).unwrap();
    let quality = Quality::HIGH;
    let (x, y) = interpolate(quality, &screen, (0i32, 0i32));
    assert!(value(x) == 960.0 && value(y) == 540.0);
}

#[test]
fn interpolate_origin_is_center() {
    let screen = Screen2D::new((-3, 7), (-2, 9), String::new(), 24, 1280, 720).unwrap();
    let (cx, cy) = screen.get_center_pixels();
    let (x, y) = interpolate(Quality::MEDIUM, &screen, (0i64, 0i64));
    assert_eq!(x.num * cx.den, cx.num * x.den);
    assert_eq!(y.num * cy.den, cy.num * y.den);
}

#[test]
fn interpolate_scales_and_inverts_y() {
    let screen = Screen2D::new((-10, 10), (-10, 10), String::new(), 30, 1920, 1080).unwrap();
    let (x, y) = interpolate(Quality::HIGH, &screen, (10i32, 10i32));
    assert_eq!(value(x), 960.0 + 912.0);
    assert_eq!(value(y), 540.0 - 513.0);
}

#[test]
fn invalid_ranges_are_rejected() {
    assert!(Screen2D::new((10, 5), (-10, 10), String::new(), 30, 1920, 1080).is_none());
    assert!(Screen2D::new((-1, 1), (3, 3), String::new(), 30, 1920, 1080).is_none());
    let mut s = Screen2D::new((-1, 1), (-1, 1), String::new(), 30, 1920, 1080).unwrap();
    assert_eq!(s.change_dimensions((2, 1), (0, 1)).unwrap_err(), AnimError::InvalidConfiguration);
    assert_eq!(s.x_axis(), (-1, 1));
    assert!(s.change_dimensions((-5, 5), (-6, 6)).is_ok());
    assert_eq!((s.x_axis(), s.y_axis()), ((-5, 5), (-6, 6)));
}

#[test]
fn frame_counter_only_moves_forward() {
    let mut s = Screen2D::new((-1, 1), (-1, 1), String::from("out"), 30, 1920, 1080).unwrap();
    assert!(s.change_current_frame(5).is_ok());
    assert_eq!(s.current_frame(), 5);
    assert_eq!(s.change_current_frame(5).unwrap_err(), AnimError::InvalidConfiguration);
    assert_eq!(s.change_current_frame(2).unwrap_err(), AnimError::InvalidConfiguration);
    assert_eq!(s.current_frame(), 5);
}

#[test]
fn quality_resolutions() {
    assert_eq!(Quality::new(854, 480), Some(Quality::LOW));
    assert_eq!(Quality::new(1280, 720), Some(Quality::MEDIUM));
    assert_eq!(Quality::new(1920, 1080), Some(Quality::HIGH));
    assert_eq!(Quality::new(3840, 2160), Some(Quality::ULTRA));
    assert_eq!(Quality::new(1920, 1081), None);
    assert_eq!(Quality::ULTRA.resolution(), (3840, 2160));
    let (w, h) = Quality::LOW.usable();
    assert_eq!((value(w), value(h)), (811.3, 456.0));
}

#[test]
fn attach_out_of_bounds_leaves_unattached() {
    let s = Screen2D::new((-3, 3), (-3, 3), String::new(), 30, 1920, 1080).unwrap();
    let mut v = Vector2D::new(4i32, 0i32, WHITE);
    assert_eq!(v.add_context(&s).unwrap_err(), AnimError::OutOfBounds);
    assert!(!v.has_context());
    assert_eq!(v.shaft().unwrap_err(), AnimError::MissingContext);
    let mut w = Vector2D::new(3i32, -3i32, WHITE);
    assert!(w.add_context(&s).is_ok());
    assert!(w.has_context());
}

#[test]
fn batch_numbers_frames_and_commits() {
    let mut s = Screen2D::new((-3, 3), (-3, 3), String::new(), 30, 1920, 1080).unwrap();
    let mut v = Vector2D::new(0i64, 1i64, WHITE);
    assert_eq!(v.plan_frames(&s, 1000).unwrap_err(), AnimError::MissingContext);
    v.add_context(&s).unwrap();
    let batch = v.plan_frames(&s, 1000).unwrap();
    assert_eq!((batch.start, batch.count), (0, 30));
    let names: Vec<u32> = (0..batch.count).map(|i| batch.frame_index(i)).collect();
    assert_eq!(names, (0..30).collect::<Vec<u32>>());
    assert!(commit_frames(&mut s, &batch, 30, false).is_ok());
    assert_eq!(s.current_frame(), 30);
    let next = v.plan_frames(&s, 500).unwrap();
    assert_eq!((next.start, next.count), (30, 15));
    assert_eq!(next.frame_index(14), 44);
    assert_eq!(
        commit_frames(&mut s, &next, 14, false).unwrap_err(),
        AnimError::FrameGenerationFailure { completed: 14, total: 15 }
    );
    assert_eq!(s.current_frame(), 30);
    assert_eq!(
        commit_frames(&mut s, &next, 15, true).unwrap_err(),
        AnimError::FrameGenerationFailure { completed: 15, total: 15 }
    );
    assert_eq!(s.current_frame(), 30);
}

#[test]
fn frame_count_rounds() {
    let s = Screen2D::new((-3, 3), (-3, 3), String::new(), 30, 1920, 1080).unwrap();
    let mut v = Vector2D::new(0i32, 0i32, WHITE);
    v.add_context(&s).unwrap();
    assert_eq!(v.plan_frames(&s, 1250).unwrap().count, 38);
    assert_eq!(v.plan_frames(&s, 1216).unwrap().count, 36);
}

#[test]
fn lerp_positions_and_frame_objects() {
    let s = Screen2D::new((-10, 10), (-10, 10), String::new(), 5, 1920, 1080).unwrap();
    let mut v = Vector2D::new(0i32, 8i32, WHITE);
    v.add_context(&s).unwrap();
    let batch = v.plan_frames(&s, 1000).unwrap();
    assert_eq!(batch.count, 5);
    assert_eq!(batch.sample_fraction(2), (2, 4));
    assert_eq!(v.lerp_position(&batch, 0, (8, 0)).unwrap(), (0, 8));
    assert_eq!(v.lerp_position(&batch, 1, (8, 0)).unwrap(), (2, 6));
    assert_eq!(v.lerp_position(&batch, 4, (8, 0)).unwrap(), (8, 0));
    let f = v.frame_object(2, 6).unwrap();
    assert_eq!((f.x(), f.y()), (2, 6));
    assert!(f.has_context());
    assert_eq!(v.frame_object(11, 0).unwrap_err(), AnimError::OutOfBounds);
}

#[test]
fn matrix_on_vector2d() {
    let v = Vector2D::new(1i32, 2i32, WHITE);
    let m = Matrix::new(vec![vec![0, -1], vec![1, 0]]).unwrap();
    let r = v.apply(m).unwrap();
    assert_eq!((r.x(), r.y()), (-2, 1));
    let big: Matrix<i32> = Matrix::identity(3).unwrap();
    assert_eq!(v.apply(big).unwrap_err(), AnimError::Math(MathError::InvalidShape));
    let w = Vector2D::new(3i32, 4i32, WHITE);
    assert_eq!(v.dot(&w), 11);
}

#[test]
fn shaft_runs_from_center_to_point() {
    let s = Screen2D::new((-10, 10), (-10, 10), String::new(), 30, 1920, 1080).unwrap();
    let mut v = Vector2D::new(10i32, 0i32, WHITE);
    v.add_context(&s).unwrap();
    let ((fx, fy), (tx, ty)) = v.shaft().unwrap();
    assert_eq!((value(fx), value(fy)), (960.0, 540.0));
    assert_eq!((value(tx), value(ty)), (960.0 + 912.0, 540.0));
}

#[test]
fn rotate_then_scale_of_rotation_fails() {
    let v = Vector2D::new(0i32, 1i32, WHITE);
    let m = Matrix::new(vec![vec![0, -1], vec![1, 0]]).unwrap();
    assert_eq!(
        v.rotate_then_scale_targets(m).unwrap_err(),
        AnimError::Math(MathError::DegenerateValue)
    );
}

#[test]
fn vector2d_add_and_scale() {
    let s = Screen2D::new((-5, 5), (-5, 5), String::new(), 30, 1920, 1080).unwrap();
    let mut a = Vector2D::new(1i32, 2i32, WHITE);
    a.add_context(&s).unwrap();
    let b = Vector2D::new(3i32, -4i32, Color { r: 1, g: 2, b: 3 });
    let c = a.add(b).unwrap();
    assert_eq!((c.x(), c.y()), (4, -2));
    assert!(c.has_context());
    assert_eq!(c.color(), WHITE);
    let d = c.scale(3_000_000_000i64).unwrap();
    assert_eq!((d.x(), d.y()), (12_000_000_000, -6_000_000_000));
    let big = Vector2D::new(i32::MAX, 0i32, WHITE);
    let one = Vector2D::new(1i32, 0i32, WHITE);
    assert_eq!(big.add(one).unwrap_err(), AnimError::Math(MathError::Overflow));
    let mut e = Vector2D::new(0i32, 0i32, WHITE);
    let other = Screen2D::new((-6, 6), (-5, 5), String::new(), 30, 1920, 1080).unwrap();
    e.add_context(&other).unwrap();
    let mut f = Vector2D::new(0i32, 0i32, WHITE);
    f.add_context(&s).unwrap();
    assert_eq!(e.add(f).unwrap_err(), AnimError::InvalidConfiguration);
    let g = Vector2D::new(2i32, 0i32, WHITE);
    assert_eq!(g.scale(i32::MAX).unwrap_err(), MathError::Overflow);
}

#[test]
fn axis_markers_skip_origin_and_bounds() {
    let s = Screen2D::new((-3, 3), (-2, 4), String::new(), 30, 1920, 1080).unwrap();
    assert_eq!(
        s.axis_markers(),
        vec![(-2, 0), (-1, 0), (1, 0), (2, 0), (0, -1), (0, 1), (0, 2), (0, 3)]
    );
    let t = Screen2D::new((1, 5), (-2, 2), String::new(), 30, 1920, 1080).unwrap();
    assert_eq!(t.axis_markers(), vec![(2, 0), (3, 0), (4, 0)]);
}

#[test]
fn screen_like_contains_shown_objects() {
    let s = Screen2D::new((-2, 2), (-1, 1), String::new(), 30, 1920, 1080).unwrap();
    let inside = Vector2D::new(2i32, -1i32, WHITE);
    let outside = Vector2D::new(0i32, 2i32, WHITE);
    assert!(ScreenLike::<i32>::can_contain(&s, &inside));
    assert!(!ScreenLike::<i32>::can_contain(&s, &outside));
    assert_eq!(ScreenLike::<i32>::y_axis(&s), (-1, 1));
    assert_eq!((Show2D::x(&inside), Show2D::y(&inside)), (2, -1));
}

#[test]
fn commit_after_counter_moved_is_rejected() {
    let mut s = Screen2D::new((-3, 3), (-3, 3), String::new(), 10, 1920, 1080).unwrap();
    let mut v = Vector2D::new(0i32, 0i32, WHITE);
    v.add_context(&s).unwrap();
    let batch = v.plan_frames(&s, 1000).unwrap();
    s.change_current_frame(3).unwrap();
    assert_eq!(commit_frames(&mut s, &batch, 10, false).unwrap_err(), AnimError::InvalidConfiguration);
    assert_eq!(s.current_frame(), 3);
    let empty = v.plan_frames(&s, 0).unwrap();
    assert_eq!((empty.start, empty.count), (3, 0));
    assert!(commit_frames(&mut s, &empty, 0, false).is_ok());
    assert_eq!(s.current_frame(), 3);
}
