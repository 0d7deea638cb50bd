use rsvg_internals::bbox::BBox;
use rsvg_internals::matrix::Matrix;
use rsvg_internals::ratio::Ratio;

#[test]
fn ratio_arithmetic_is_exact() {
    let a = Ratio::new(1, 3);
    let b = Ratio::new(1, 6);
    let sum = a.checked_add(b).unwrap();
    assert!(sum.same_value(Ratio::new(1, 2)));
    assert_eq!(sum.num, 9);
    assert_eq!(sum.den, 18);

    let prod = a.checked_mul(b).unwrap();
    assert!(prod.same_value(Ratio::new(1, 18)));

    assert!(Ratio::new(1, 3).le(Ratio::new(1, 2)));
    assert!(!Ratio::new(1, 2).le(Ratio::new(1, 3)));
    assert!(Ratio::new(-5, 1).le(Ratio::new(0, 7)));
}

#[test]
fn ratio_arithmetic_reports_overflow() {
    let big = Ratio::new(i64::MAX, 1);
    assert!(big.checked_mul(Ratio::new(2, 1)).is_none());
    assert!(big.checked_add(big).is_none());
    // The same magnitudes compare fine.
    assert!(big.le(big));
    assert!(big.same_value(big));
}

#[test]
fn matrix_multiply_composes_left_then_right() {
    // Scale by 2, then translate by (10, 20).
    let scale = Matrix {
        xx: Ratio::new(2, 1),
        yx: Ratio::new(0, 1),
        xy: Ratio::new(0, 1),
        yy: Ratio::new(2, 1),
        x0: Ratio::new(0, 1),
        y0: Ratio::new(0, 1),
    };
    let translate = Matrix {
        xx: Ratio::new(1, 1),
        yx: Ratio::new(0, 1),
        xy: Ratio::new(0, 1),
        yy: Ratio::new(1, 1),
        x0: Ratio::new(10, 1),
        y0: Ratio::new(20, 1),
    };
    let m = Matrix::multiply(&scale, &translate).unwrap();
    let (x, y) = m.transform_point(Ratio::from_int(1), Ratio::from_int(1)).unwrap();
    assert!(x.same_value(Ratio::from_int(12)));
    assert!(y.same_value(Ratio::from_int(22)));

    // The other order scales the translation too.
    let m = Matrix::multiply(&translate, &scale).unwrap();
    let (x, y) = m.transform_point(Ratio::from_int(1), Ratio::from_int(1)).unwrap();
    assert!(x.same_value(Ratio::from_int(22)));
    assert!(y.same_value(Ratio::from_int(42)));
}

#[test]
fn matrix_identity_is_neutral() {
    let m = Matrix {
        xx: Ratio::new(3, 2),
        yx: Ratio::new(1, 4),
        xy: Ratio::new(-1, 3),
        yy: Ratio::new(5, 7),
        x0: Ratio::new(9, 5),
        y0: Ratio::new(-2, 9),
    };
    let composed = Matrix::multiply(&m, &Matrix::identity()).unwrap();
    assert!(composed.xx.same_value(m.xx));
    assert!(composed.yx.same_value(m.yx));
    assert!(composed.xy.same_value(m.xy));
    assert!(composed.yy.same_value(m.yy));
    assert!(composed.x0.same_value(m.x0));
    assert!(composed.y0.same_value(m.y0));
}

#[test]
fn bbox_union_grows_outwards() {
    let mut acc = BBox::new();
    assert!(!acc.active);

    let first = BBox::from_rect(
        Ratio::from_int(0),
        Ratio::from_int(0),
        Ratio::from_int(10),
        Ratio::from_int(5),
    );
    acc.insert(&first);
    assert!(acc.active);
    assert_eq!(acc, first);

    let second = BBox::from_rect(
        Ratio::from_int(-3),
        Ratio::from_int(2),
        Ratio::from_int(4),
        Ratio::from_int(9),
    );
    acc.insert(&second);
    assert!(acc.x0.same_value(Ratio::from_int(-3)));
    assert!(acc.y0.same_value(Ratio::from_int(0)));
    assert!(acc.x1.same_value(Ratio::from_int(10)));
    assert!(acc.y1.same_value(Ratio::from_int(9)));

    // An inactive box contributes nothing.
    let before = acc;
    acc.insert(&BBox::new());
    assert_eq!(acc, before);
}

#[test]
fn context_accumulates_extents() {
    let mut ctx = rsvg_internals::drawing_ctx::DrawingCtx::new(
        Ratio::from_int(96),
        Ratio::from_int(96),
        Ratio::from_int(100),
        Ratio::from_int(100),
    );
    assert!(!ctx.bbox.active);
    let child = BBox::from_rect(
        Ratio::from_int(1),
        Ratio::from_int(2),
        Ratio::from_int(3),
        Ratio::from_int(4),
    );
    ctx.insert_bbox(&child);
    assert_eq!(ctx.bbox, child);
}
