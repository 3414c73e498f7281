use minkowski_sampling::{
    closest_points, project_origin, AnnotatedSimplex, Cuboid, CuboidDistance, ExactDistance,
    ExactProjection, Simplex, Vect, NORMAL_SCALE,
};

fn empty() -> AnnotatedSimplex {
    AnnotatedSimplex { pts: Vec::new() }
}

fn square(h: i64) -> Cuboid {
    Cuboid::new(Vect::new(h, h))
}

fn length(v: Vect) -> f64 {
    ((v.x as f64).powi(2) + (v.y as f64).powi(2)).sqrt()
}

#[test]
fn boxes_overlapping_along_x() {
    let g = square(1000);
    let r = closest_points(
        &Vect::new(1000, 1000),
        &g,
        &Vect::new(2000, 1000),
        &g,
        &mut empty(),
        10,
        &CuboidDistance,
    );
    let (center, p2, normal) = r.unwrap();
    assert_eq!(center, Vect::new(1500, 1000));
    assert_eq!(p2, Vect::new(500, 1000));
    assert_eq!(normal, Vect::new(NORMAL_SCALE, 0));
    let depth = length(Vect::new(p2.x - center.x, p2.y - center.y));
    assert!((depth - 1000.0).abs() <= 10.0);
}

#[test]
fn boxes_overlapping_along_y_by_known_depth() {
    let g = square(500);
    let r = closest_points(
        &Vect::new(0, 0),
        &g,
        &Vect::new(0, 700),
        &g,
        &mut empty(),
        10,
        &CuboidDistance,
    );
    let (center, p2, normal) = r.unwrap();
    assert_eq!(normal, Vect::new(0, NORMAL_SCALE));
    let depth = length(Vect::new(p2.x - center.x, p2.y - center.y));
    assert!((depth - 300.0).abs() <= 10.0);
}

#[test]
fn separated_boxes_give_no_result() {
    let g = square(1000);
    let r = closest_points(
        &Vect::new(1000, 1000),
        &g,
        &Vect::new(5000, 1000),
        &g,
        &mut empty(),
        10,
        &CuboidDistance,
    );
    assert_eq!(r, None);
}

#[test]
fn separated_boxes_leave_simplex_unchanged() {
    let g = square(100);
    let pt = minkowski_sampling::AnnotatedPoint {
        orig1: Vect::new(200, 200),
        orig2: Vect::new(400, 0),
        point: Vect::new(-200, 200),
    };
    let mut s = AnnotatedSimplex { pts: vec![pt] };
    let r = closest_points(&Vect::new(100, 100), &g, &Vect::new(500, 100), &g, &mut s, 1, &CuboidDistance);
    assert_eq!(r, None);
    assert_eq!(s.pts, vec![pt]);
}

#[test]
fn touching_boxes_still_give_a_contact() {
    let g = square(1000);
    let r = closest_points(
        &Vect::new(1000, 1000),
        &g,
        &Vect::new(3000, 1000),
        &g,
        &mut empty(),
        10,
        &CuboidDistance,
    );
    let (_, _, normal) = r.unwrap();
    assert_eq!(normal, Vect::new(NORMAL_SCALE, 0));
}

#[test]
fn repeated_calls_give_identical_results() {
    let g = square(1000);
    let h = Cuboid::new(Vect::new(700, 300));
    let run = || {
        closest_points(
            &Vect::new(100, -200),
            &g,
            &Vect::new(900, 400),
            &h,
            &mut empty(),
            10,
            &CuboidDistance,
        )
    };
    let a = run();
    let b = run();
    assert!(a.is_some());
    assert_eq!(a, b);
}

#[test]
fn swapping_shapes_negates_normal() {
    let g = square(1000);
    let m1 = Vect::new(1000, 1000);
    let m2 = Vect::new(2000, 1000);
    let (c12, p12, n12) = closest_points(&m1, &g, &m2, &g, &mut empty(), 10, &CuboidDistance).unwrap();
    let (c21, p21, n21) = closest_points(&m2, &g, &m1, &g, &mut empty(), 10, &CuboidDistance).unwrap();
    assert_eq!(c12, c21);
    assert_eq!(n12, Vect::new(-n21.x, -n21.y));
    let d12 = length(Vect::new(p12.x - c12.x, p12.y - c12.y));
    let d21 = length(Vect::new(p21.x - c21.x, p21.y - c21.y));
    assert!((d12 - d21).abs() <= 1.0);
    assert_eq!(p21, Vect::new(2500, 1000));
}

#[test]
fn larger_margin_keeps_normal_sign() {
    let g = square(1000);
    let m1 = Vect::new(1000, 1000);
    let m2 = Vect::new(2000, 1000);
    for margin in [1, 10, 100, 1000] {
        let (_, _, n) = closest_points(&m1, &g, &m2, &g, &mut empty(), margin, &CuboidDistance).unwrap();
        assert!(n.x > 0);
        assert_eq!(n.y, 0);
    }
}

#[test]
fn simplex_points_move_with_the_second_shape() {
    let g = square(1000);
    let a = Vect::new(2000, 2000);
    let b = Vect::new(1000, 0);
    let pt = minkowski_sampling::AnnotatedPoint { orig1: a, orig2: b, point: Vect::new(1000, 2000) };
    let mut s = AnnotatedSimplex { pts: vec![pt] };
    let r = closest_points(
        &Vect::new(1000, 1000),
        &g,
        &Vect::new(2000, 1000),
        &g,
        &mut s,
        10,
        &CuboidDistance,
    );
    assert!(r.is_some());
    assert_eq!(s.pts[0].orig2, Vect::new(2010, 0));
    assert_eq!(s.pts[0].point, Vect::new(-10, 2000));
}

#[test]
fn origin_projected_on_nearest_side() {
    let g = Cuboid::new(Vect::new(1000, 500));
    let mut s = Simplex { pts: vec![Vect::new(3, 4)] };
    let r = project_origin(&Vect::new(0, 100), &g, &mut s, 10, &CuboidDistance);
    assert_eq!(r, Some(Vect::new(0, -400)));
    assert_eq!(s.pts[0], Vect::new(3, 414));
}

#[test]
fn origin_outside_shape_gives_no_result() {
    let g = square(100);
    let mut s = Simplex { pts: vec![Vect::new(3, 4)] };
    let r = project_origin(&Vect::new(500, 0), &g, &mut s, 10, &CuboidDistance);
    assert_eq!(r, None);
    assert_eq!(s.pts, vec![Vect::new(3, 4)]);
}

#[test]
fn box_distance_on_separated_boxes() {
    let g = square(100);
    let r = CuboidDistance.closest_points(
        &Vect::new(100, 100),
        &g,
        &Vect::new(401, 150),
        &g,
        &mut empty(),
    );
    assert_eq!(r, Some((Vect::new(200, 125), Vect::new(301, 125))));
    let overlap = CuboidDistance.closest_points(
        &Vect::new(100, 100),
        &g,
        &Vect::new(150, 150),
        &g,
        &mut empty(),
    );
    assert_eq!(overlap, None);
}

#[test]
fn box_projection_of_origin() {
    let g = Cuboid::new(Vect::new(10, 20));
    let mut s = Simplex { pts: Vec::new() };
    assert_eq!(CuboidDistance.project_origin(&Vect::new(30, -5), &g, &mut s), Some(Vect::new(20, 0)));
    assert_eq!(CuboidDistance.project_origin(&Vect::new(-30, 40), &g, &mut s), Some(Vect::new(-20, 20)));
    assert_eq!(CuboidDistance.project_origin(&Vect::new(5, 5), &g, &mut s), None);
}
