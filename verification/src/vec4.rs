use vstd::prelude::*;
use vstd::std_specs::ops::{AddSpec, MulSpec, SubSpec};

use crate::vec3::Vec3;

verus! {

/// A four-component column vector over any scalar type `T`.
#[derive(Clone, Copy, Debug, PartialEq)]
pub struct Vec4<T>(pub [T; 4]);

impl<T> View for Vec4<T> {
    type V = Seq<T>;

    open spec fn view(&self) -> Seq<T> {
        self.0@
    }
}

impl<T> Vec4<T> {
    pub fn new(a: T, b: T, c: T, d: T) -> (r: Self)
        ensures
            r@[0] == a,
            r@[1] == b,
            r@[2] == c,
            r@[3] == d,
    {
        Self([a, b, c, d])
    }
}

impl<T: Copy> Vec4<T> {
    pub fn from_vec3(v: Vec3<T>, d: T) -> (r: Self)
        ensures
            r@[0] == v@[0],
            r@[1] == v@[1],
            r@[2] == v@[2],
            r@[3] == d,
    {
        Self::new(v.x(), v.y(), v.z(), d)
    }

    pub fn x(&self) -> (r: T)
        ensures
            r == self@[0],
    {
        self.0[0]
    }

    pub fn y(&self) -> (r: T)
        ensures
            r == self@[1],
    {
        self.0[1]
    }

    pub fn z(&self) -> (r: T)
        ensures
            r == self@[2],
    {
        self.0[2]
    }

    pub fn w(&self) -> (r: T)
        ensures
            r == self@[3],
    {
        self.0[3]
    }

    pub fn as_arr(&self) -> (r: [T; 4])
        ensures
            r@ == self@,
    {
        self.0
    }
}

impl<T> Vec4<T> {
    pub fn x_mut(&mut self) -> (r: &mut T)
        ensures
            *r == old(self)@[0],
            final(self)@ == old(self)@.update(0, *final(r)),
    {
        &mut self.0[0]
    }

    pub fn y_mut(&mut self) -> (r: &mut T)
        ensures
            *r == old(self)@[1],
            final(self)@ == old(self)@.update(1, *final(r)),
    {
        &mut self.0[1]
    }

    pub fn z_mut(&mut self) -> (r: &mut T)
        ensures
            *r == old(self)@[2],
            final(self)@ == old(self)@.update(2, *final(r)),
    {
        &mut self.0[2]
    }

    pub fn w_mut(&mut self) -> (r: &mut T)
        ensures
            *r == old(self)@[3],
            final(self)@ == old(self)@.update(3, *final(r)),
    {
        &mut self.0[3]
    }

    pub fn into_arr(self) -> (r: [T; 4])
        ensures
            r@ == self@,
    {
        self.0
    }
}

impl<T: core::ops::Mul<Output = T> + Copy> Vec4<T> {
    /// Scales each component by the matching component of `s`.
    pub fn scaled_nonuniform(&self, s: Self) -> (r: Self)
        requires
            self@[0].mul_req(s@[0]),
            self@[1].mul_req(s@[1]),
            self@[2].mul_req(s@[2]),
            self@[3].mul_req(s@[3]),
        ensures
            T::obeys_mul_spec() ==> {
                &&& r@[0] == self@[0].mul_spec(s@[0])
                &&& r@[1] == self@[1].mul_spec(s@[1])
                &&& r@[2] == self@[2].mul_spec(s@[2])
                &&& r@[3] == self@[3].mul_spec(s@[3])
            },
    {
        Self::new(self.x() * s.x(), self.y() * s.y(), self.z() * s.z(), self.w() * s.w())
    }

    pub fn scale_assign_nonuniform(&mut self, s: Self)
        requires
            old(self)@[0].mul_req(s@[0]),
            old(self)@[1].mul_req(s@[1]),
            old(self)@[2].mul_req(s@[2]),
            old(self)@[3].mul_req(s@[3]),
        ensures
            T::obeys_mul_spec() ==> {
                &&& final(self)@[0] == old(self)@[0].mul_spec(s@[0])
                &&& final(self)@[1] == old(self)@[1].mul_spec(s@[1])
                &&& final(self)@[2] == old(self)@[2].mul_spec(s@[2])
                &&& final(self)@[3] == old(self)@[3].mul_spec(s@[3])
            },
    {
        *self = self.scaled_nonuniform(s);
    }
}

impl<T: core::ops::Add<Output = T> + Copy> Vec4<T> {
    pub fn add(&self, other: Self) -> (r: Self)
        requires
            self@[0].add_req(other@[0]),
            self@[1].add_req(other@[1]),
            self@[2].add_req(other@[2]),
            self@[3].add_req(other@[3]),
        ensures
            T::obeys_add_spec() ==> {
                &&& r@[0] == self@[0].add_spec(other@[0])
                &&& r@[1] == self@[1].add_spec(other@[1])
                &&& r@[2] == self@[2].add_spec(other@[2])
                &&& r@[3] == self@[3].add_spec(other@[3])
            },
    {
        Self::new(
            self.x() + other.x(),
            self.y() + other.y(),
            self.z() + other.z(),
            self.w() + other.w(),
        )
    }

    pub fn add_assign(&mut self, other: Self)
        requires
            old(self)@[0].add_req(other@[0]),
            old(self)@[1].add_req(other@[1]),
            old(self)@[2].add_req(other@[2]),
            old(self)@[3].add_req(other@[3]),
        ensures
            T::obeys_add_spec() ==> {
                &&& final(self)@[0] == old(self)@[0].add_spec(other@[0])
                &&& final(self)@[1] == old(self)@[1].add_spec(other@[1])
                &&& final(self)@[2] == old(self)@[2].add_spec(other@[2])
                &&& final(self)@[3] == old(self)@[3].add_spec(other@[3])
            },
    {
        *self = self.add(other);
    }
}

impl<T: core::ops::Sub<Output = T> + Copy> Vec4<T> {
    pub fn sub(&self, other: Self) -> (r: Self)
        requires
            self@[0].sub_req(other@[0]),
            self@[1].sub_req(other@[1]),
            self@[2].sub_req(other@[2]),
            self@[3].sub_req(other@[3]),
        ensures
            T::obeys_sub_spec() ==> {
                &&& r@[0] == self@[0].sub_spec(other@[0])
                &&& r@[1] == self@[1].sub_spec(other@[1])
                &&& r@[2] == self@[2].sub_spec(other@[2])
                &&& r@[3] == self@[3].sub_spec(other@[3])
            },
    {
        Self::new(
            self.x() - other.x(),
            self.y() - other.y(),
            self.z() - other.z(),
            self.w() - other.w(),
        )
    }

    pub fn sub_assign(&mut self, other: Self)
        requires
            old(self)@[0].sub_req(other@[0]),
            old(self)@[1].sub_req(other@[1]),
            old(self)@[2].sub_req(other@[2]),
            old(self)@[3].sub_req(other@[3]),
        ensures
            T::obeys_sub_spec() ==> {
                &&& final(self)@[0] == old(self)@[0].sub_spec(other@[0])
                &&& final(self)@[1] == old(self)@[1].sub_spec(other@[1])
                &&& final(self)@[2] == old(self)@[2].sub_spec(other@[2])
                &&& final(self)@[3] == old(self)@[3].sub_spec(other@[3])
            },
    {
        *self = self.sub(other);
    }
}

/// Whether the four-term product sum `a0*b0 + a1*b1 + a2*b2 + a3*b3` stays
/// inside the preconditions of the scalar operators, evaluated left to right.
pub open spec fn dot4_req<T: core::ops::Add<Output = T> + core::ops::Mul<Output = T>>(
    a0: T,
    a1: T,
    a2: T,
    a3: T,
    b0: T,
    b1: T,
    b2: T,
    b3: T,
) -> bool {
    &&& a0.mul_req(b0)
    &&& a1.mul_req(b1)
    &&& a2.mul_req(b2)
    &&& a3.mul_req(b3)
    &&& (a0.mul_spec(b0)).add_req(a1.mul_spec(b1))
    &&& ((a0.mul_spec(b0)).add_spec(a1.mul_spec(b1))).add_req(a2.mul_spec(b2))
    &&& (((a0.mul_spec(b0)).add_spec(a1.mul_spec(b1))).add_spec(a2.mul_spec(b2))).add_req(
        a3.mul_spec(b3),
    )
}

/// The value of `a0*b0 + a1*b1 + a2*b2 + a3*b3`, evaluated left to right.
pub open spec fn dot4_spec<T: core::ops::Add<Output = T> + core::ops::Mul<Output = T>>(
    a0: T,
    a1: T,
    a2: T,
    a3: T,
    b0: T,
    b1: T,
    b2: T,
    b3: T,
) -> T {
    (((a0.mul_spec(b0)).add_spec(a1.mul_spec(b1))).add_spec(a2.mul_spec(b2))).add_spec(
        a3.mul_spec(b3),
    )
}

impl<T: core::ops::Add<Output = T> + core::ops::Mul<Output = T> + Copy> Vec4<T> {
    pub fn dot(&self, other: &Self) -> (r: T)
        requires
            T::obeys_add_spec(),
            T::obeys_mul_spec(),
            dot4_req(
                self@[0],
                self@[1],
                self@[2],
                self@[3],
                other@[0],
                other@[1],
                other@[2],
                other@[3],
            ),
        ensures
            r == dot4_spec(
                self@[0],
                self@[1],
                self@[2],
                self@[3],
                other@[0],
                other@[1],
                other@[2],
                other@[3],
            ),
    {
        self.x() * other.x() + self.y() * other.y() + self.z() * other.z() + self.w() * other.w()
    }
}

} // verus!
