use vstd::prelude::*;
use vstd::std_specs::ops::{AddSpec, MulSpec, SubSpec};
use vstd::std_specs::convert::FromSpec;

use crate::vec4::Vec4;

verus! {

/// A three-component column vector over any scalar type `T`.
#[derive(Clone, Copy, Debug, PartialEq)]
pub struct Vec3<T>(pub [T; 3]);

impl<T> View for Vec3<T> {
    type V = Seq<T>;

    open spec fn view(&self) -> Seq<T> {
        self.0@
    }
}

impl<T> Vec3<T> {
    pub fn new(a: T, b: T, c: T) -> (r: Self)
        ensures
            r@[0] == a,
            r@[1] == b,
            r@[2] == c,
    {
        Self([a, b, c])
    }
}

impl<T: Copy> Vec3<T> {
    pub fn x(&self) -> (r: T)
        ensures
            r == self@[0],
    {
        self.0[0]
    }

    pub fn y(&self) -> (r: T)
        ensures
            r == self@[1],
    {
        self.0[1]
    }

    pub fn z(&self) -> (r: T)
        ensures
            r == self@[2],
    {
        self.0[2]
    }
}

impl<T> Vec3<T> {
    pub fn x_mut(&mut self) -> (r: &mut T)
        ensures
            *r == old(self)@[0],
            final(self)@ == old(self)@.update(0, *final(r)),
    {
        &mut self.0[0]
    }

    pub fn y_mut(&mut self) -> (r: &mut T)
        ensures
            *r == old(self)@[1],
            final(self)@ == old(self)@.update(1, *final(r)),
    {
        &mut self.0[1]
    }

    pub fn z_mut(&mut self) -> (r: &mut T)
        ensures
            *r == old(self)@[2],
            final(self)@ == old(self)@.update(2, *final(r)),
    {
        &mut self.0[2]
    }
}

impl<T: From<u8> + Copy> Vec3<T> {
    /// Widens to four components, padding `w` with the scalar zero.
    pub fn into_vec4(self) -> (r: Vec4<T>)
        ensures
            r@[0] == self@[0],
            r@[1] == self@[1],
            r@[2] == self@[2],
            <T as FromSpec<u8>>::obeys_from_spec() ==> r@[3] == T::from_spec(0u8),
    {
        let zero: T = T::from(0u8);
        Vec4::new(self.x(), self.y(), self.z(), zero)
    }
}

impl<T: core::ops::Add<Output = T> + Copy> Vec3<T> {
    pub fn add(&self, other: Self) -> (r: Self)
        requires
            self@[0].add_req(other@[0]),
            self@[1].add_req(other@[1]),
            self@[2].add_req(other@[2]),
        ensures
            T::obeys_add_spec() ==> {
                &&& r@[0] == self@[0].add_spec(other@[0])
                &&& r@[1] == self@[1].add_spec(other@[1])
                &&& r@[2] == self@[2].add_spec(other@[2])
            },
    {
        Self::new(self.x() + other.x(), self.y() + other.y(), self.z() + other.z())
    }

    pub fn add_assign(&mut self, other: Self)
        requires
            old(self)@[0].add_req(other@[0]),
            old(self)@[1].add_req(other@[1]),
            old(self)@[2].add_req(other@[2]),
        ensures
            T::obeys_add_spec() ==> {
                &&& final(self)@[0] == old(self)@[0].add_spec(other@[0])
                &&& final(self)@[1] == old(self)@[1].add_spec(other@[1])
                &&& final(self)@[2] == old(self)@[2].add_spec(other@[2])
            },
    {
        *self = self.add(other);
    }
}

impl<T: core::ops::Sub<Output = T> + Copy> Vec3<T> {
    pub fn sub(&self, other: Self) -> (r: Self)
        requires
            self@[0].sub_req(other@[0]),
            self@[1].sub_req(other@[1]),
            self@[2].sub_req(other@[2]),
        ensures
            T::obeys_sub_spec() ==> {
                &&& r@[0] == self@[0].sub_spec(other@[0])
                &&& r@[1] == self@[1].sub_spec(other@[1])
                &&& r@[2] == self@[2].sub_spec(other@[2])
            },
    {
        Self::new(self.x() - other.x(), self.y() - other.y(), self.z() - other.z())
    }

    pub fn sub_assign(&mut self, other: Self)
        requires
            old(self)@[0].sub_req(other@[0]),
            old(self)@[1].sub_req(other@[1]),
            old(self)@[2].sub_req(other@[2]),
        ensures
            T::obeys_sub_spec() ==> {
                &&& final(self)@[0] == old(self)@[0].sub_spec(other@[0])
                &&& final(self)@[1] == old(self)@[1].sub_spec(other@[1])
                &&& final(self)@[2] == old(self)@[2].sub_spec(other@[2])
            },
    {
        *self = self.sub(other);
    }
}

/// Whether the three-term product sum `a0*b0 + a1*b1 + a2*b2` stays inside
/// the preconditions of the scalar operators, evaluated left to right.
pub open spec fn dot3_req<T: core::ops::Add<Output = T> + core::ops::Mul<Output = T>>(
    a0: T,
    a1: T,
    a2: T,
    b0: T,
    b1: T,
    b2: T,
) -> bool {
    &&& a0.mul_req(b0)
    &&& a1.mul_req(b1)
    &&& a2.mul_req(b2)
    &&& (a0.mul_spec(b0)).add_req(a1.mul_spec(b1))
    &&& ((a0.mul_spec(b0)).add_spec(a1.mul_spec(b1))).add_req(a2.mul_spec(b2))
}

/// The value of `a0*b0 + a1*b1 + a2*b2`, evaluated left to right.
pub open spec fn dot3_spec<T: core::ops::Add<Output = T> + core::ops::Mul<Output = T>>(
    a0: T,
    a1: T,
    a2: T,
    b0: T,
    b1: T,
    b2: T,
) -> T {
    ((a0.mul_spec(b0)).add_spec(a1.mul_spec(b1))).add_spec(a2.mul_spec(b2))
}

impl<T: core::ops::Mul<Output = T> + Copy> Vec3<T> {
    /// Scales each component by `s`.
    pub fn scaled(&self, s: T) -> (r: Self)
        requires
            self@[0].mul_req(s),
            self@[1].mul_req(s),
            self@[2].mul_req(s),
        ensures
            T::obeys_mul_spec() ==> {
                &&& r@[0] == self@[0].mul_spec(s)
                &&& r@[1] == self@[1].mul_spec(s)
                &&& r@[2] == self@[2].mul_spec(s)
            },
    {
        Self::new(self.x() * s, self.y() * s, self.z() * s)
    }
}

impl<T: core::ops::Add<Output = T> + core::ops::Mul<Output = T> + Copy> Vec3<T> {
    pub fn dot(&self, other: &Self) -> (r: T)
        requires
            T::obeys_add_spec(),
            T::obeys_mul_spec(),
            dot3_req(self@[0], self@[1], self@[2], other@[0], other@[1], other@[2]),
        ensures
            r == dot3_spec(self@[0], self@[1], self@[2], other@[0], other@[1], other@[2]),
    {
        self.x() * other.x() + self.y() * other.y() + self.z() * other.z()
    }
}

impl<T: core::ops::Sub<Output = T> + core::ops::Mul<Output = T> + Copy> Vec3<T> {
    pub fn cross(&self, other: &Self) -> (r: Self)
        requires
            T::obeys_sub_spec(),
            T::obeys_mul_spec(),
            self@[1].mul_req(other@[2]),
            self@[2].mul_req(other@[1]),
            self@[2].mul_req(other@[0]),
            self@[0].mul_req(other@[2]),
            self@[0].mul_req(other@[1]),
            self@[1].mul_req(other@[0]),
            (self@[1].mul_spec(other@[2])).sub_req(self@[2].mul_spec(other@[1])),
            (self@[2].mul_spec(other@[0])).sub_req(self@[0].mul_spec(other@[2])),
            (self@[0].mul_spec(other@[1])).sub_req(self@[1].mul_spec(other@[0])),
        ensures
            r@[0] == (self@[1].mul_spec(other@[2])).sub_spec(self@[2].mul_spec(other@[1])),
            r@[1] == (self@[2].mul_spec(other@[0])).sub_spec(self@[0].mul_spec(other@[2])),
            r@[2] == (self@[0].mul_spec(other@[1])).sub_spec(self@[1].mul_spec(other@[0])),
    {
        Self::new(
            self.y() * other.z() - self.z() * other.y(),
            self.z() * other.x() - self.x() * other.z(),
            self.x() * other.y() - self.y() * other.x(),
        )
    }
}

} // verus!
