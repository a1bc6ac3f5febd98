use vstd::prelude::*;

use crate::math::{IVec2, IVec3};

verus! {

/// A rotation about one axis by a whole number of quarter turns.
#[derive(Debug, Clone, Copy, PartialEq, Eq, Structural, Hash)]
pub enum Degree {
    Zero,
    Ninty,
    OneEighty,
    TwoSeventy,
}

/// Counter-clockwise rotation of a point of the plane by `d`.
pub open spec fn rotate2(d: Degree, v: (int, int)) -> (int, int) {
    match d {
        Degree::Zero => v,
        Degree::Ninty => (-v.1, v.0),
        Degree::OneEighty => (-v.0, -v.1),
        Degree::TwoSeventy => (v.1, -v.0),
    }
}

/// Rotation of a point of space about the x axis: the (y, z) plane turns by `d`.
pub open spec fn rotate_about_x(d: Degree, v: (int, int, int)) -> (int, int, int) {
    let r = rotate2(d, (v.1, v.2));
    (v.0, r.0, r.1)
}

/// Rotation about the y axis: the (x, z) plane turns by the inverse of `d`, so that
/// positive quarter turns follow the right-hand rule about y.
pub open spec fn rotate_about_y(d: Degree, v: (int, int, int)) -> (int, int, int) {
    let r = rotate2(d.inverse(), (v.0, v.2));
    (r.0, v.1, r.1)
}

/// Rotation about the z axis: the (x, y) plane turns by `d`.
pub open spec fn rotate_about_z(d: Degree, v: (int, int, int)) -> (int, int, int) {
    let r = rotate2(d, (v.0, v.1));
    (r.0, r.1, v.2)
}

impl Degree {
    /// Number of counter-clockwise quarter turns, in `0..4`.
    pub open spec fn turns(self) -> int {
        match self {
            Degree::Zero => 0,
            Degree::Ninty => 1,
            Degree::OneEighty => 2,
            Degree::TwoSeventy => 3,
        }
    }

    /// The rotation by `turns` quarter turns, taken modulo four.
    pub open spec fn from_turns(turns: int) -> Degree {
        let t = turns % 4;
        if t == 0 {
            Degree::Zero
        } else if t == 1 {
            Degree::Ninty
        } else if t == 2 {
            Degree::OneEighty
        } else {
            Degree::TwoSeventy
        }
    }

    /// Composition of two rotations about the same axis.
    pub open spec fn plus(self, rhs: Degree) -> Degree {
        Degree::from_turns(self.turns() + rhs.turns())
    }

    pub open spec fn minus(self, rhs: Degree) -> Degree {
        Degree::from_turns(self.turns() - rhs.turns())
    }

    /// The rotation that undoes this one.
    pub open spec fn inverse(self) -> Degree {
        Degree::from_turns(-self.turns())
    }

    /// Rotates `vec` counter-clockwise by this angle.
    pub fn rotate(self, vec: IVec2) -> (r: IVec2)
        requires
            vec.negatable(),
        ensures
            r@ == rotate2(self, vec@),
            r.negatable(),
    {
        match self {
            Degree::Zero => vec,
            Degree::Ninty => IVec2 { x: -vec.y, y: vec.x },
            Degree::OneEighty => IVec2 { x: -vec.x, y: -vec.y },
            Degree::TwoSeventy => IVec2 { x: vec.y, y: -vec.x },
        }
    }

    /// Rotates a vector about the x axis.
    pub fn rotate_x(self, vec: IVec3) -> (r: IVec3)
        requires
            vec.negatable(),
        ensures
            r@ == rotate_about_x(self, vec@),
            r.negatable(),
    {
        let rotated = self.rotate(IVec2 { x: vec.y, y: vec.z });
        IVec3 { x: vec.x, y: rotated.x, z: rotated.y }
    }

    /// Rotates a vector about the y axis.
    pub fn rotate_y(self, vec: IVec3) -> (r: IVec3)
        requires
            vec.negatable(),
        ensures
            r@ == rotate_about_y(self, vec@),
            r.negatable(),
    {
        let rotated = core::ops::Neg::neg(self).rotate(IVec2 { x: vec.x, y: vec.z });
        IVec3 { x: rotated.x, y: vec.y, z: rotated.y }
    }

    /// Rotates a vector about the z axis.
    pub fn rotate_z(self, vec: IVec3) -> (r: IVec3)
        requires
            vec.negatable(),
        ensures
            r@ == rotate_about_z(self, vec@),
            r.negatable(),
    {
        let rotated = self.rotate(IVec2 { x: vec.x, y: vec.y });
        IVec3 { x: rotated.x, y: rotated.y, z: vec.z }
    }

    fn to_num(self) -> (r: usize)
        ensures
            r as int == self.turns(),
    {
        match self {
            Degree::Zero => 0,
            Degree::Ninty => 1,
            Degree::OneEighty => 2,
            Degree::TwoSeventy => 3,
        }
    }

    fn from_num(num: usize) -> (r: Degree)
        ensures
            r == Degree::from_turns(num as int),
    {
        let num: usize = num % 4;
        if num == 0 {
            Degree::Zero
        } else if num == 1 {
            Degree::Ninty
        } else if num == 2 {
            Degree::OneEighty
        } else {
            Degree::TwoSeventy
        }
    }
}

impl Default for Degree {
    fn default() -> (r: Degree)
        ensures
            r == Degree::Zero,
    {
        Degree::Zero
    }
}

impl core::ops::Add for Degree {
    type Output = Degree;

    fn add(self, rhs: Degree) -> Degree {
        Degree::from_num(self.to_num() + rhs.to_num())
    }
}

impl vstd::std_specs::ops::AddSpecImpl for Degree {
    open spec fn obeys_add_spec() -> bool {
        true
    }

    open spec fn add_req(self, rhs: Degree) -> bool {
        true
    }

    open spec fn add_spec(self, rhs: Degree) -> Degree {
        self.plus(rhs)
    }
}

impl core::ops::Sub for Degree {
    type Output = Degree;

    fn sub(self, rhs: Degree) -> Degree {
        Degree::from_num(self.to_num() + 4 - rhs.to_num())
    }
}

impl vstd::std_specs::ops::SubSpecImpl for Degree {
    open spec fn obeys_sub_spec() -> bool {
        true
    }

    open spec fn sub_req(self, rhs: Degree) -> bool {
        true
    }

    open spec fn sub_spec(self, rhs: Degree) -> Degree {
        self.minus(rhs)
    }
}

impl core::ops::Neg for Degree {
    type Output = Degree;

    fn neg(self) -> Degree {
        match self {
            Degree::Zero => Degree::Zero,
            Degree::Ninty => Degree::TwoSeventy,
            Degree::OneEighty => Degree::OneEighty,
            Degree::TwoSeventy => Degree::Ninty,
        }
    }
}

impl vstd::std_specs::ops::NegSpecImpl for Degree {
    open spec fn obeys_neg_spec() -> bool {
        true
    }

    open spec fn neg_req(self) -> bool {
        true
    }

    open spec fn neg_spec(self) -> Degree {
        self.inverse()
    }
}

/// Three quarter-turn rotations, one about each axis. Applied to a vector, the z rotation
/// comes first, then the y rotation, then the x rotation.
#[derive(Debug, Clone, Copy, PartialEq, Eq, Structural, Hash)]
pub struct Orientation {
    /// Rotation about the x axis
    pub x_rot: Degree,
    /// Rotation about the y axis
    pub y_rot: Degree,
    /// Rotation about the z axis
    pub z_rot: Degree,
}

/// The orientation that leaves every vector in place.
pub open spec fn identity_orientation() -> Orientation {
    Orientation { x_rot: Degree::Zero, y_rot: Degree::Zero, z_rot: Degree::Zero }
}

impl Orientation {
    /// What this orientation does to a point of space: z first, then y, then x.
    pub open spec fn apply(self, v: (int, int, int)) -> (int, int, int) {
        rotate_about_x(self.x_rot, rotate_about_y(self.y_rot, rotate_about_z(self.z_rot, v)))
    }

    /// Axis-wise composition.
    pub open spec fn plus(self, rhs: Orientation) -> Orientation {
        Orientation {
            x_rot: self.x_rot.plus(rhs.x_rot),
            y_rot: self.y_rot.plus(rhs.y_rot),
            z_rot: self.z_rot.plus(rhs.z_rot),
        }
    }

    /// Axis-wise difference.
    pub open spec fn minus(self, rhs: Orientation) -> Orientation {
        Orientation {
            x_rot: self.x_rot.minus(rhs.x_rot),
            y_rot: self.y_rot.minus(rhs.y_rot),
            z_rot: self.z_rot.minus(rhs.z_rot),
        }
    }

    pub fn new(x_rot: Degree, y_rot: Degree, z_rot: Degree) -> (r: Orientation)
        ensures
            r == (Orientation { x_rot, y_rot, z_rot }),
    {
        Orientation { x_rot, y_rot, z_rot }
    }

    pub fn with_x_rot(self, x_rot: Degree) -> (r: Orientation)
        ensures
            r == (Orientation { x_rot, ..self }),
    {
        Orientation { x_rot, ..self }
    }

    pub fn with_y_rot(self, y_rot: Degree) -> (r: Orientation)
        ensures
            r == (Orientation { y_rot, ..self }),
    {
        Orientation { y_rot, ..self }
    }

    pub fn with_z_rot(self, z_rot: Degree) -> (r: Orientation)
        ensures
            r == (Orientation { z_rot, ..self }),
    {
        Orientation { z_rot, ..self }
    }

    /// This orientation expressed relative to `other`, axis by axis.
    pub fn relative_to(&self, other: Orientation) -> (r: Orientation)
        ensures
            r == self.minus(other),
    {
        Orientation {
            x_rot: self.x_rot - other.x_rot,
            y_rot: self.y_rot - other.y_rot,
            z_rot: self.z_rot - other.z_rot,
        }
    }

    /// Rotates `vec` about z, then y, then x.
    pub fn rotate_vec(&self, vec: IVec3) -> (r: IVec3)
        requires
            vec.negatable(),
        ensures
            r@ == self.apply(vec@),
            r.negatable(),
    {
        let mut result = vec;
        result = self.z_rot.rotate_z(result);
        result = self.y_rot.rotate_y(result);
        result = self.x_rot.rotate_x(result);
        result
    }
}

impl Default for Orientation {
    fn default() -> (r: Orientation)
        ensures
            r == identity_orientation(),
    {
        Orientation { x_rot: Degree::Zero, y_rot: Degree::Zero, z_rot: Degree::Zero }
    }
}

impl core::ops::Add for Orientation {
    type Output = Orientation;

    fn add(self, rhs: Orientation) -> Orientation {
        Orientation {
            x_rot: self.x_rot + rhs.x_rot,
            y_rot: self.y_rot + rhs.y_rot,
            z_rot: self.z_rot + rhs.z_rot,
        }
    }
}

impl vstd::std_specs::ops::AddSpecImpl for Orientation {
    open spec fn obeys_add_spec() -> bool {
        true
    }

    open spec fn add_req(self, rhs: Orientation) -> bool {
        true
    }

    open spec fn add_spec(self, rhs: Orientation) -> Orientation {
        self.plus(rhs)
    }
}

impl core::ops::Sub for Orientation {
    type Output = Orientation;

    fn sub(self, rhs: Orientation) -> Orientation {
        Orientation {
            x_rot: self.x_rot - rhs.x_rot,
            y_rot: self.y_rot - rhs.y_rot,
            z_rot: self.z_rot - rhs.z_rot,
        }
    }
}

impl vstd::std_specs::ops::SubSpecImpl for Orientation {
    open spec fn obeys_sub_spec() -> bool {
        true
    }

    open spec fn sub_req(self, rhs: Orientation) -> bool {
        true
    }

    open spec fn sub_spec(self, rhs: Orientation) -> Orientation {
        self.minus(rhs)
    }
}

impl core::ops::Mul<IVec3> for Orientation {
    type Output = IVec3;

    fn mul(self, rhs: IVec3) -> IVec3 {
        self.rotate_vec(rhs)
    }
}

impl vstd::std_specs::ops::MulSpecImpl<IVec3> for Orientation {
    open spec fn obeys_mul_spec() -> bool {
        true
    }

    open spec fn mul_req(self, rhs: IVec3) -> bool {
        rhs.negatable()
    }

    open spec fn mul_spec(self, rhs: IVec3) -> IVec3 {
        IVec3 {
            x: self.apply(rhs@).0 as i32,
            y: self.apply(rhs@).1 as i32,
            z: self.apply(rhs@).2 as i32,
        }
    }
}

/// Composing with no rotation changes nothing.
pub proof fn lemma_degree_identity(d: Degree)
    ensures
        d.plus(Degree::Zero) == d,
        Degree::Zero.plus(d) == d,
{
}

/// Composition of rotations about one axis is associative.
pub proof fn lemma_degree_associative(d1: Degree, d2: Degree, d3: Degree)
    ensures
        d1.plus(d2).plus(d3) == d1.plus(d2.plus(d3)),
{
}

/// Every rotation has an inverse, and subtracting is composing with the inverse.
pub proof fn lemma_degree_inverse(d1: Degree, d2: Degree)
    ensures
        d1.plus(d1.inverse()) == Degree::Zero,
        d1.minus(d2) == d1.plus(d2.inverse()),
{
}

/// Rotating by one angle and then by another is rotating by their sum; in particular
/// two quarter turns make a half turn.
pub proof fn lemma_rotation_composes(d1: Degree, d2: Degree, v: (int, int))
    ensures
        rotate2(d1, rotate2(d2, v)) == rotate2(d1.plus(d2), v),
        rotate2(Degree::Ninty, rotate2(Degree::Ninty, v)) == rotate2(Degree::OneEighty, v),
{
}

} // verus!
