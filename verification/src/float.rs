use vstd::prelude::*;
use crate::types::{BoxF, Point3F, F32};

verus! {

/// How a number stands to another in an order.
#[derive(Clone, Copy, Debug, PartialEq, Eq, Structural)]
pub enum Side {
    Less,
    Equal,
    Greater,
}

/// The bits of positive infinity.
pub const INFINITY_BITS: u32 = 0x7F80_0000;

/// The bits of negative infinity.
pub const NEG_INFINITY_BITS: u32 = 0xFF80_0000;

/// The bits of 1.0.
pub const ONE_BITS: u32 = 0x3F80_0000;

/// The bits of -1.0.
pub const MINUS_ONE_BITS: u32 = 0xBF80_0000;

/// The bits of 2.0.
pub const TWO_BITS: u32 = 0x4000_0000;

/// The bits of -2.0.
pub const MINUS_TWO_BITS: u32 = 0xC000_0000;

impl F32 {
    /// The bits without the sign.
    pub open spec fn magnitude(self) -> int {
        self.bits as int % 0x8000_0000
    }

    /// Whether the sign bit is set.
    pub open spec fn negative(self) -> bool {
        self.bits >= 0x8000_0000
    }

    /// Whether the bits are no number: the exponent is all ones and the
    /// fraction is not 0.
    pub open spec fn spec_is_nan(self) -> bool {
        self.magnitude() > INFINITY_BITS
    }

    /// The number with the other sign: the sign bit is turned over.
    pub open spec fn spec_neg(self) -> F32 {
        if self.negative() {
            F32 { bits: (self.bits - 0x8000_0000) as u32 }
        } else {
            F32 { bits: (self.bits + 0x8000_0000) as u32 }
        }
    }

    /// Whether the bits are a number that is not infinite: the exponent
    /// is not all ones.
    pub open spec fn spec_is_finite(self) -> bool {
        self.magnitude() < INFINITY_BITS
    }

    /// The place of a number among the numbers: the magnitude, counted
    /// down from 0 for the negative ones. Both zeros have the place 0.
    pub open spec fn key(self) -> int {
        if self.negative() {
            -self.magnitude()
        } else {
            self.magnitude()
        }
    }

    /// The place of the bits in the total order of IEEE 754, in which
    /// -0 comes before +0 and the bits that are no number stand at both
    /// ends.
    pub open spec fn total_key(self) -> int {
        if self.negative() {
            -1 - self.magnitude()
        } else {
            self.magnitude()
        }
    }

    /// `self < other` as numbers: false where either is no number.
    pub open spec fn spec_lt(self, other: F32) -> bool {
        !self.spec_is_nan() && !other.spec_is_nan() && self.key() < other.key()
    }

    /// `self <= other` as numbers: false where either is no number.
    pub open spec fn spec_le(self, other: F32) -> bool {
        !self.spec_is_nan() && !other.spec_is_nan() && self.key() <= other.key()
    }

    /// The lesser of two numbers. Where one is no number, the other;
    /// where neither is less, `self`.
    pub open spec fn spec_min(self, other: F32) -> F32 {
        if other.spec_is_nan() {
            self
        } else if self.spec_is_nan() {
            other
        } else if other.key() < self.key() {
            other
        } else {
            self
        }
    }

    /// The greater of two numbers. Where one is no number, the other;
    /// where neither is greater, `self`.
    pub open spec fn spec_max(self, other: F32) -> F32 {
        if other.spec_is_nan() {
            self
        } else if self.spec_is_nan() {
            other
        } else if other.key() > self.key() {
            other
        } else {
            self
        }
    }

    /// How `self` stands to `other` in the total order.
    pub open spec fn spec_total_order(self, other: F32) -> Side {
        if self.total_key() < other.total_key() {
            Side::Less
        } else if self.total_key() == other.total_key() {
            Side::Equal
        } else {
            Side::Greater
        }
    }

    fn exec_magnitude(self) -> (m: i64)
        ensures
            m == self.magnitude(),
    {
        (self.bits % 0x8000_0000) as i64
    }

    fn exec_key(self) -> (k: i64)
        ensures
            k == self.key(),
    {
        let m = self.exec_magnitude();
        if self.bits >= 0x8000_0000 {
            -m
        } else {
            m
        }
    }

    fn exec_total_key(self) -> (k: i64)
        ensures
            k == self.total_key(),
    {
        let m = self.exec_magnitude();
        if self.bits >= 0x8000_0000 {
            -1 - m
        } else {
            m
        }
    }

    #[verifier::when_used_as_spec(spec_is_nan)]
    pub fn is_nan(self) -> (b: bool)
        ensures
            b == self.spec_is_nan(),
    {
        self.exec_magnitude() > 0x7F80_0000
    }

    #[verifier::when_used_as_spec(spec_is_finite)]
    pub fn is_finite(self) -> (b: bool)
        ensures
            b == self.spec_is_finite(),
    {
        self.exec_magnitude() < 0x7F80_0000
    }

    /// The number with the other sign.
    #[verifier::when_used_as_spec(spec_neg)]
    pub fn neg(self) -> (r: F32)
        ensures
            r == self.spec_neg(),
    {
        if self.bits >= 0x8000_0000 {
            F32 { bits: self.bits - 0x8000_0000 }
        } else {
            F32 { bits: self.bits + 0x8000_0000 }
        }
    }

    /// Whether the number is 0, of either sign.
    pub fn is_zero(self) -> (b: bool)
        ensures
            b == (self.magnitude() == 0),
    {
        self.exec_magnitude() == 0
    }

    #[verifier::when_used_as_spec(spec_lt)]
    pub fn lt(self, other: F32) -> (b: bool)
        ensures
            b == self.spec_lt(other),
    {
        !self.is_nan() && !other.is_nan() && self.exec_key() < other.exec_key()
    }

    #[verifier::when_used_as_spec(spec_le)]
    pub fn le(self, other: F32) -> (b: bool)
        ensures
            b == self.spec_le(other),
    {
        !self.is_nan() && !other.is_nan() && self.exec_key() <= other.exec_key()
    }

    /// `self > other` as numbers.
    pub fn gt(self, other: F32) -> (b: bool)
        ensures
            b == other.spec_lt(self),
    {
        other.lt(self)
    }

    /// `self >= other` as numbers.
    pub fn ge(self, other: F32) -> (b: bool)
        ensures
            b == other.spec_le(self),
    {
        other.le(self)
    }

    #[verifier::when_used_as_spec(spec_min)]
    pub fn min(self, other: F32) -> (r: F32)
        ensures
            r == self.spec_min(other),
    {
        if other.is_nan() {
            self
        } else if self.is_nan() {
            other
        } else if other.exec_key() < self.exec_key() {
            other
        } else {
            self
        }
    }

    #[verifier::when_used_as_spec(spec_max)]
    pub fn max(self, other: F32) -> (r: F32)
        ensures
            r == self.spec_max(other),
    {
        if other.is_nan() {
            self
        } else if self.is_nan() {
            other
        } else if other.exec_key() > self.exec_key() {
            other
        } else {
            self
        }
    }

    #[verifier::when_used_as_spec(spec_total_order)]
    pub fn total_order(self, other: F32) -> (r: Side)
        ensures
            r == self.spec_total_order(other),
    {
        let a = self.exec_total_key();
        let b = other.exec_total_key();
        if a < b {
            Side::Less
        } else if a == b {
            Side::Equal
        } else {
            Side::Greater
        }
    }
}

/// The lesser of two numbers is one of them, and is not greater than
/// either where both are numbers.
pub proof fn lemma_min_is_least(a: F32, b: F32)
    ensures
        a.spec_min(b) == a || a.spec_min(b) == b,
        !a.spec_is_nan() && !b.spec_is_nan() ==> a.spec_min(b).spec_le(a) && a.spec_min(b).spec_le(
            b,
        ),
{
}

/// The greater of two numbers is one of them, and is not less than either
/// where both are numbers.
pub proof fn lemma_max_is_greatest(a: F32, b: F32)
    ensures
        a.spec_max(b) == a || a.spec_max(b) == b,
        !a.spec_is_nan() && !b.spec_is_nan() ==> a.spec_le(a.spec_max(b)) && b.spec_le(
            a.spec_max(b),
        ),
{
}

impl Point3F {
    /// Whether each coordinate is 0, of either sign.
    pub open spec fn spec_is_zero(self) -> bool {
        self.x.magnitude() == 0 && self.y.magnitude() == 0 && self.z.magnitude() == 0
    }

    #[verifier::when_used_as_spec(spec_is_zero)]
    pub fn is_zero(self) -> (b: bool)
        ensures
            b == self.spec_is_zero(),
    {
        self.x.is_zero() && self.y.is_zero() && self.z.is_zero()
    }

    /// Whether each coordinate is a number that is not infinite.
    pub open spec fn spec_is_finite(self) -> bool {
        self.x.spec_is_finite() && self.y.spec_is_finite() && self.z.spec_is_finite()
    }

    #[verifier::when_used_as_spec(spec_is_finite)]
    pub fn is_finite(self) -> (b: bool)
        ensures
            b == self.spec_is_finite(),
    {
        self.x.is_finite() && self.y.is_finite() && self.z.is_finite()
    }

    /// The point whose coordinates are the lesser ones of two points.
    pub open spec fn spec_min(self, other: Point3F) -> Point3F {
        Point3F {
            x: self.x.spec_min(other.x),
            y: self.y.spec_min(other.y),
            z: self.z.spec_min(other.z),
        }
    }

    /// The point whose coordinates are the greater ones of two points.
    pub open spec fn spec_max(self, other: Point3F) -> Point3F {
        Point3F {
            x: self.x.spec_max(other.x),
            y: self.y.spec_max(other.y),
            z: self.z.spec_max(other.z),
        }
    }

    #[verifier::when_used_as_spec(spec_min)]
    pub fn min(self, other: Point3F) -> (r: Point3F)
        ensures
            r == self.spec_min(other),
    {
        Point3F { x: self.x.min(other.x), y: self.y.min(other.y), z: self.z.min(other.z) }
    }

    #[verifier::when_used_as_spec(spec_max)]
    pub fn max(self, other: Point3F) -> (r: Point3F)
        ensures
            r == self.spec_max(other),
    {
        Point3F { x: self.x.max(other.x), y: self.y.max(other.y), z: self.z.max(other.z) }
    }
}

impl BoxF {
    /// The box that holds nothing: it reaches from positive infinity down
    /// to negative infinity.
    pub open spec fn spec_nothing() -> BoxF {
        BoxF {
            min: Point3F {
                x: F32 { bits: INFINITY_BITS },
                y: F32 { bits: INFINITY_BITS },
                z: F32 { bits: INFINITY_BITS },
            },
            max: Point3F {
                x: F32 { bits: NEG_INFINITY_BITS },
                y: F32 { bits: NEG_INFINITY_BITS },
                z: F32 { bits: NEG_INFINITY_BITS },
            },
        }
    }

    #[verifier::when_used_as_spec(spec_nothing)]
    pub fn nothing() -> (r: BoxF)
        ensures
            r == Self::spec_nothing(),
    {
        BoxF {
            min: Point3F {
                x: F32 { bits: INFINITY_BITS },
                y: F32 { bits: INFINITY_BITS },
                z: F32 { bits: INFINITY_BITS },
            },
            max: Point3F {
                x: F32 { bits: NEG_INFINITY_BITS },
                y: F32 { bits: NEG_INFINITY_BITS },
                z: F32 { bits: NEG_INFINITY_BITS },
            },
        }
    }

    /// The least box around two boxes.
    pub open spec fn spec_union(self, other: BoxF) -> BoxF {
        BoxF { min: self.min.spec_min(other.min), max: self.max.spec_max(other.max) }
    }

    /// The least box around a box and a point.
    pub open spec fn spec_union_point(self, point: Point3F) -> BoxF {
        BoxF { min: self.min.spec_min(point), max: self.max.spec_max(point) }
    }

    /// Whether the point lies in the box, its faces counted in.
    pub open spec fn spec_contains(self, point: Point3F) -> bool {
        &&& self.min.x.spec_le(point.x)
        &&& self.min.y.spec_le(point.y)
        &&& self.min.z.spec_le(point.z)
        &&& point.x.spec_le(self.max.x)
        &&& point.y.spec_le(self.max.y)
        &&& point.z.spec_le(self.max.z)
    }

    /// The least box around the points, taken one after the other.
    pub open spec fn spec_from_vertices(vertices: Seq<Point3F>) -> BoxF
        decreases vertices.len(),
    {
        if vertices.len() == 0 {
            Self::spec_nothing()
        } else {
            Self::spec_from_vertices(vertices.drop_last()).spec_union_point(vertices.last())
        }
    }

    pub fn union(&self, other: &BoxF) -> (r: BoxF)
        ensures
            r == self.spec_union(*other),
    {
        BoxF { min: self.min.min(other.min), max: self.max.max(other.max) }
    }

    pub fn union_point(&self, other: &Point3F) -> (r: BoxF)
        ensures
            r == self.spec_union_point(*other),
    {
        BoxF { min: self.min.min(*other), max: self.max.max(*other) }
    }

    pub fn contains(&self, point: &Point3F) -> (b: bool)
        ensures
            b == self.spec_contains(*point),
    {
        point.x.ge(self.min.x) && point.y.ge(self.min.y) && point.z.ge(self.min.z) && point.x.le(
            self.max.x,
        ) && point.y.le(self.max.y) && point.z.le(self.max.z)
    }

    pub fn from_vertices(vertices: &Vec<Point3F>) -> (r: BoxF)
        ensures
            r == Self::spec_from_vertices(vertices@),
    {
        let mut b = BoxF::nothing();
        let mut i: usize = 0;
        while i < vertices.len()
            invariant
                i <= vertices.len(),
                b == Self::spec_from_vertices(vertices@.take(i as int)),
            decreases vertices.len() - i,
        {
            assert(vertices@.take(i + 1).drop_last() =~= vertices@.take(i as int));
            b = b.union_point(&vertices[i]);
            i = i + 1;
        }
        assert(vertices@.take(i as int) =~= vertices@);
        b
    }

    /// Whether the boxes overlap when looked at from above: whether
    /// neither lies wholly to one side of the other in x or in y.
    pub open spec fn spec_overlaps_xy(self, other: BoxF) -> bool {
        !(other.max.x.spec_lt(self.min.x) || self.max.x.spec_lt(other.min.x) || other.max.y.spec_lt(
            self.min.y,
        ) || self.max.y.spec_lt(other.min.y))
    }

    pub fn overlaps_xy(&self, other: &BoxF) -> (b: bool)
        ensures
            b == self.spec_overlaps_xy(*other),
    {
        !(self.min.x.gt(other.max.x) || self.max.x.lt(other.min.x) || self.min.y.gt(other.max.y)
            || self.max.y.lt(other.min.y))
    }
}

/// A point in a box around points is in the box around more points: the
/// box around the points holds each of them that is a number in every
/// coordinate, where all of them are.
pub proof fn lemma_from_vertices_contains(vertices: Seq<Point3F>, i: int)
    requires
        0 <= i < vertices.len(),
        forall|j: int|
            0 <= j < vertices.len() ==> !(#[trigger] vertices[j]).x.spec_is_nan()
                && !vertices[j].y.spec_is_nan() && !vertices[j].z.spec_is_nan(),
    ensures
        BoxF::spec_from_vertices(vertices).spec_contains(vertices[i]),
        !BoxF::spec_from_vertices(vertices).min.x.spec_is_nan(),
        !BoxF::spec_from_vertices(vertices).min.y.spec_is_nan(),
        !BoxF::spec_from_vertices(vertices).min.z.spec_is_nan(),
        !BoxF::spec_from_vertices(vertices).max.x.spec_is_nan(),
        !BoxF::spec_from_vertices(vertices).max.y.spec_is_nan(),
        !BoxF::spec_from_vertices(vertices).max.z.spec_is_nan(),
    decreases vertices.len(),
{
    let front = vertices.drop_last();
    assert forall|j: int| 0 <= j < front.len() implies !(#[trigger] front[j]).x.spec_is_nan()
        && !front[j].y.spec_is_nan() && !front[j].z.spec_is_nan() by {
        assert(front[j] == vertices[j]);
    }
    if front.len() > 0 {
        lemma_from_vertices_contains(front, if i < front.len() {
            i
        } else {
            0
        });
    }
    assert(vertices[vertices.len() - 1] == vertices.last());
}

} // verus!
