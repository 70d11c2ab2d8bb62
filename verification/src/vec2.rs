use vstd::prelude::*;
use vstd::std_specs::ops::{AddSpec, MulSpec, SubSpec};
use vstd::std_specs::convert::FromSpec;

use crate::vec3::Vec3;
use crate::vec4::Vec4;

verus! {

/// A two-component column vector over any scalar type `T`.
#[derive(Clone, Copy, Debug, PartialEq)]
pub struct Vec2<T>(pub [T; 2]);

impl<T> View for Vec2<T> {
    type V = Seq<T>;

    open spec fn view(&self) -> Seq<T> {
        self.0@
    }
}

impl<T> Vec2<T> {
    pub fn new(a: T, b: T) -> (r: Self)
        ensures
            r@[0] == a,
            r@[1] == b,
    {
        Self([a, b])
    }
}

impl<T: Copy> Vec2<T> {
    pub fn x(&self) -> (r: T)
        ensures
            r == self@[0],
    {
        self.0[0]
    }

    pub fn y(&self) -> (r: T)
        ensures
            r == self@[1],
    {
        self.0[1]
    }
}

impl<T: From<u8> + Copy> Vec2<T> {
    /// Widens to three components, padding `z` with the scalar zero.
    pub fn into_vec3(self) -> (r: Vec3<T>)
        ensures
            r@[0] == self@[0],
            r@[1] == self@[1],
            <T as FromSpec<u8>>::obeys_from_spec() ==> r@[2] == T::from_spec(0u8),
    {
        let zero: T = T::from(0u8);
        Vec3::new(self.x(), self.y(), zero)
    }

    /// Widens to four components, padding `z` and `w` with the scalar zero.
    pub fn into_vec4(self) -> (r: Vec4<T>)
        ensures
            r@[0] == self@[0],
            r@[1] == self@[1],
            <T as FromSpec<u8>>::obeys_from_spec() ==> r@[2] == T::from_spec(0u8),
            <T as FromSpec<u8>>::obeys_from_spec() ==> r@[3] == T::from_spec(0u8),
    {
        let zero: T = T::from(0u8);
        Vec4::new(self.x(), self.y(), zero, zero)
    }
}

impl<T> Vec2<T> {
    pub fn x_mut(&mut self) -> (r: &mut T)
        ensures
            *r == old(self)@[0],
            final(self)@ == old(self)@.update(0, *final(r)),
    {
        &mut self.0[0]
    }

    pub fn y_mut(&mut self) -> (r: &mut T)
        ensures
            *r == old(self)@[1],
            final(self)@ == old(self)@.update(1, *final(r)),
    {
        &mut self.0[1]
    }
}

impl<T: core::ops::Add<Output = T> + Copy> Vec2<T> {
    pub fn add(&self, other: Self) -> (r: Self)
        requires
            self@[0].add_req(other@[0]),
            self@[1].add_req(other@[1]),
        ensures
            T::obeys_add_spec() ==> {
                &&& r@[0] == self@[0].add_spec(other@[0])
                &&& r@[1] == self@[1].add_spec(other@[1])
            },
    {
        Self::new(self.x() + other.x(), self.y() + other.y())
    }

    pub fn add_assign(&mut self, other: Self)
        requires
            old(self)@[0].add_req(other@[0]),
            old(self)@[1].add_req(other@[1]),
        ensures
            T::obeys_add_spec() ==> {
                &&& final(self)@[0] == old(self)@[0].add_spec(other@[0])
                &&& final(self)@[1] == old(self)@[1].add_spec(other@[1])
            },
    {
        *self = self.add(other);
    }
}

impl<T: core::ops::Sub<Output = T> + Copy> Vec2<T> {
    pub fn sub(&self, other: Self) -> (r: Self)
        requires
            self@[0].sub_req(other@[0]),
            self@[1].sub_req(other@[1]),
        ensures
            T::obeys_sub_spec() ==> {
                &&& r@[0] == self@[0].sub_spec(other@[0])
                &&& r@[1] == self@[1].sub_spec(other@[1])
            },
    {
        Self::new(self.x() - other.x(), self.y() - other.y())
    }

    pub fn sub_assign(&mut self, other: Self)
        requires
            old(self)@[0].sub_req(other@[0]),
            old(self)@[1].sub_req(other@[1]),
        ensures
            T::obeys_sub_spec() ==> {
                &&& final(self)@[0] == old(self)@[0].sub_spec(other@[0])
                &&& final(self)@[1] == old(self)@[1].sub_spec(other@[1])
            },
    {
        *self = self.sub(other);
    }
}

/// Whether the two-term product sum `a0*b0 + a1*b1` stays inside the
/// preconditions of the scalar operators, evaluated left to right.
pub open spec fn dot2_req<T: core::ops::Add<Output = T> + core::ops::Mul<Output = T>>(
    a0: T,
    a1: T,
    b0: T,
    b1: T,
) -> bool {
    &&& a0.mul_req(b0)
    &&& a1.mul_req(b1)
    &&& (a0.mul_spec(b0)).add_req(a1.mul_spec(b1))
}

/// The value of `a0*b0 + a1*b1`, evaluated left to right.
pub open spec fn dot2_spec<T: core::ops::Add<Output = T> + core::ops::Mul<Output = T>>(
    a0: T,
    a1: T,
    b0: T,
    b1: T,
) -> T {
    (a0.mul_spec(b0)).add_spec(a1.mul_spec(b1))
}

impl<T: core::ops::Add<Output = T> + core::ops::Mul<Output = T> + Copy> Vec2<T> {
    pub fn dot(&self, other: &Self) -> (r: T)
        requires
            T::obeys_add_spec(),
            T::obeys_mul_spec(),
            dot2_req(self@[0], self@[1], other@[0], other@[1]),
        ensures
            r == dot2_spec(self@[0], self@[1], other@[0], other@[1]),
    {
        self.x() * other.x() + self.y() * other.y()
    }
}

} // verus!
