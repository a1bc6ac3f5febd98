use vidya_physics::{Degree, IVec2, IVec3, Orientation};

const ALL: [Degree; 4] = [Degree::Zero, Degree::Ninty, Degree::OneEighty, Degree::TwoSeventy];

#[test]
fn voxel_rotate() {
    let degree = Degree::Zero;
    assert_eq!(IVec2::new(1, 0), degree.rotate(IVec2::new(1, 0)));
    assert_eq!(IVec2::new(0, 2), degree.rotate(IVec2::new(0, 2)));

    let degree = Degree::Ninty;
    assert_eq!(IVec2::new(0, 1), degree.rotate(IVec2::new(1, 0)));
    assert_eq!(IVec2::new(-2, 0), degree.rotate(IVec2::new(0, 2)));

    let degree = Degree::OneEighty;
    assert_eq!(IVec2::new(-3, 0), degree.rotate(IVec2::new(3, 0)));
    assert_eq!(IVec2::new(0, 4), degree.rotate(IVec2::new(0, -4)));

    let degree = Degree::TwoSeventy;
    assert_eq!(IVec2::new(0, -5), degree.rotate(IVec2::new(5, 0)));
    assert_eq!(IVec2::new(-6, 0), degree.rotate(IVec2::new(0, -6)));
}

#[test]
fn voxel_add_sub() {
    assert_eq!(Degree::Ninty, Degree::Ninty + Degree::Zero);
    assert_eq!(Degree::Ninty, Degree::Ninty - Degree::Zero);
    assert_eq!(Degree::OneEighty, Degree::Ninty + Degree::Ninty);
    assert_eq!(Degree::TwoSeventy, Degree::OneEighty + Degree::Ninty);
    assert_eq!(Degree::Ninty, Degree::TwoSeventy + Degree::OneEighty);
    assert_eq!(Degree::Ninty, Degree::TwoSeventy - Degree::OneEighty);
}

#[test]
fn rotate() {
    let orientation = Orientation::new(Degree::Zero, Degree::Ninty, Degree::Ninty);
    assert_eq!(IVec3::new(0, 1, 0), orientation * IVec3::new(1, 0, 0));

    let orientation = Orientation::new(Degree::Zero, Degree::Zero, Degree::Ninty);
    assert_eq!(IVec3::new(-1, 0, 0), orientation * IVec3::new(0, 1, 0));
}

#[test]
fn degree_identity_and_associativity_hold_for_every_value() {
    for d1 in ALL {
        assert_eq!(d1, d1 + Degree::Zero);
        assert_eq!(d1, Degree::Zero + d1);
        for d2 in ALL {
            for d3 in ALL {
                assert_eq!((d1 + d2) + d3, d1 + (d2 + d3));
            }
        }
    }
}

#[test]
fn two_quarter_turns_make_a_half_turn() {
    let v = IVec2::new(1, 0);
    let once = Degree::Ninty.rotate(v);
    assert_eq!(IVec2::new(0, 1), once);
    let twice = Degree::Ninty.rotate(once);
    assert_eq!(IVec2::new(-1, 0), twice);
    assert_eq!(Degree::OneEighty.rotate(v), twice);

    let w = IVec2::new(7, -3);
    for d1 in ALL {
        for d2 in ALL {
            assert_eq!((d1 + d2).rotate(w), d1.rotate(d2.rotate(w)));
        }
    }
}

#[test]
fn subtraction_wraps_below_zero() {
    assert_eq!(Degree::TwoSeventy, Degree::Zero - Degree::Ninty);
    assert_eq!(Degree::Ninty, Degree::Zero - Degree::TwoSeventy);
    assert_eq!(Degree::OneEighty, Degree::Ninty - Degree::TwoSeventy);
}

#[test]
fn negation_is_the_additive_inverse() {
    assert_eq!(Degree::Zero, -Degree::Zero);
    assert_eq!(Degree::TwoSeventy, -Degree::Ninty);
    assert_eq!(Degree::OneEighty, -Degree::OneEighty);
    assert_eq!(Degree::Ninty, -Degree::TwoSeventy);
    for d in ALL {
        assert_eq!(Degree::Zero, d + (-d));
    }
}

#[test]
fn axis_rotations_turn_the_right_plane() {
    let v = IVec3::new(1, 2, 3);
    assert_eq!(IVec3::new(1, -3, 2), Degree::Ninty.rotate_x(v));
    assert_eq!(IVec3::new(3, 2, -1), Degree::Ninty.rotate_y(v));
    assert_eq!(IVec3::new(-2, 1, 3), Degree::Ninty.rotate_z(v));
    assert_eq!(v, Degree::Zero.rotate_y(v));
}

#[test]
fn orientation_applies_z_then_y_then_x() {
    let o = Orientation::new(Degree::Ninty, Degree::Zero, Degree::Ninty);
    // z: (1, 0, 0) -> (0, 1, 0); x: (0, 1, 0) -> (0, 0, 1)
    assert_eq!(IVec3::new(0, 0, 1), o.rotate_vec(IVec3::new(1, 0, 0)));
    assert_eq!(o.rotate_vec(IVec3::new(0, 1, 1)), o * IVec3::new(0, 1, 1));
}

#[test]
fn orientation_arithmetic_is_axis_wise() {
    let a = Orientation::new(Degree::Ninty, Degree::OneEighty, Degree::TwoSeventy);
    let b = Orientation::default()
        .with_x_rot(Degree::TwoSeventy)
        .with_y_rot(Degree::Ninty)
        .with_z_rot(Degree::TwoSeventy);
    assert_eq!(Orientation::new(Degree::Zero, Degree::TwoSeventy, Degree::OneEighty), a + b);
    assert_eq!(Orientation::new(Degree::OneEighty, Degree::Ninty, Degree::Zero), a - b);
    assert_eq!(a - b, a.relative_to(b));
    assert_eq!(Orientation::new(Degree::Zero, Degree::Zero, Degree::Zero), Orientation::default());
}
