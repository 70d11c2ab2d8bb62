use vstd::prelude::*;
use vstd::std_specs::convert::FromSpec;
use vstd::std_specs::ops::{AddSpec, MulSpec};

use crate::vec3::{dot3_req, dot3_spec, Vec3};
use crate::vec4::Vec4;

verus! {

/// A 3x3 column-major matrix over any scalar type `T`.
#[derive(Clone, Copy, Debug, PartialEq)]
pub struct Mat3<T>(pub [Vec3<T>; 3]);

impl<T> View for Mat3<T> {
    type V = Seq<Vec3<T>>;

    open spec fn view(&self) -> Seq<Vec3<T>> {
        self.0@
    }
}

/// Whether row `i` of `m` and the column vector `c` satisfy the operator
/// preconditions of a left-to-right three-term dot product.
pub open spec fn mat3_dot_req<T: core::ops::Add<Output = T> + core::ops::Mul<Output = T>>(
    m: Mat3<T>,
    i: int,
    c: Vec3<T>,
) -> bool {
    dot3_req(m@[0]@[i], m@[1]@[i], m@[2]@[i], c@[0], c@[1], c@[2])
}

/// The left-to-right dot product of row `i` of `m` with the column vector `c`.
pub open spec fn mat3_dot_spec<T: core::ops::Add<Output = T> + core::ops::Mul<Output = T>>(
    m: Mat3<T>,
    i: int,
    c: Vec3<T>,
) -> T {
    dot3_spec(m@[0]@[i], m@[1]@[i], m@[2]@[i], c@[0], c@[1], c@[2])
}

impl<T: Copy> Mat3<T> {
    pub fn from_rows(r0: Vec3<T>, r1: Vec3<T>, r2: Vec3<T>) -> (r: Self)
        ensures
            r@[0]@[0] == r0@[0],
            r@[0]@[1] == r1@[0],
            r@[0]@[2] == r2@[0],
            r@[1]@[0] == r0@[1],
            r@[1]@[1] == r1@[1],
            r@[1]@[2] == r2@[1],
            r@[2]@[0] == r0@[2],
            r@[2]@[1] == r1@[2],
            r@[2]@[2] == r2@[2],
    {
        Self(
            [
                Vec3::new(r0.x(), r1.x(), r2.x()),
                Vec3::new(r0.y(), r1.y(), r2.y()),
                Vec3::new(r0.z(), r1.z(), r2.z()),
            ],
        )
    }
}

impl<T> Mat3<T> {
    pub fn from_cols(c0: Vec3<T>, c1: Vec3<T>, c2: Vec3<T>) -> (r: Self)
        ensures
            r@[0] == c0,
            r@[1] == c1,
            r@[2] == c2,
    {
        Self([c0, c1, c2])
    }
}

impl<T: From<u8> + Copy> Mat3<T> {
    /// The matrix that scales each axis by the matching component of `s`.
    pub fn scaling(s: Vec3<T>) -> (r: Self)
        ensures
            r@[0]@[0] == s@[0],
            r@[1]@[1] == s@[1],
            r@[2]@[2] == s@[2],
            <T as FromSpec<u8>>::obeys_from_spec() ==> {
                &&& r@[0]@[1] == T::from_spec(0u8)
                &&& r@[0]@[2] == T::from_spec(0u8)
                &&& r@[1]@[0] == T::from_spec(0u8)
                &&& r@[1]@[2] == T::from_spec(0u8)
                &&& r@[2]@[0] == T::from_spec(0u8)
                &&& r@[2]@[1] == T::from_spec(0u8)
            },
    {
        let zero: T = T::from(0u8);
        Self::from_cols(
            Vec3::new(s.x(), zero, zero),
            Vec3::new(zero, s.y(), zero),
            Vec3::new(zero, zero, s.z()),
        )
    }
}

impl<T: Copy> Mat3<T> {
    pub fn c0(&self) -> (r: Vec3<T>)
        ensures
            r == self@[0],
    {
        self.0[0]
    }

    pub fn c1(&self) -> (r: Vec3<T>)
        ensures
            r == self@[1],
    {
        self.0[1]
    }

    pub fn c2(&self) -> (r: Vec3<T>)
        ensures
            r == self@[2],
    {
        self.0[2]
    }

    pub fn r0(&self) -> (r: Vec3<T>)
        ensures
            r@[0] == self@[0]@[0],
            r@[1] == self@[1]@[0],
            r@[2] == self@[2]@[0],
    {
        Vec3::new(self.c0().x(), self.c1().x(), self.c2().x())
    }

    pub fn r1(&self) -> (r: Vec3<T>)
        ensures
            r@[0] == self@[0]@[1],
            r@[1] == self@[1]@[1],
            r@[2] == self@[2]@[1],
    {
        Vec3::new(self.c0().y(), self.c1().y(), self.c2().y())
    }

    pub fn r2(&self) -> (r: Vec3<T>)
        ensures
            r@[0] == self@[0]@[2],
            r@[1] == self@[1]@[2],
            r@[2] == self@[2]@[2],
    {
        Vec3::new(self.c0().z(), self.c1().z(), self.c2().z())
    }
}

impl<T> Mat3<T> {
    pub fn c0_mut(&mut self) -> (r: &mut Vec3<T>)
        ensures
            *r == old(self)@[0],
            final(self)@ == old(self)@.update(0, *final(r)),
    {
        &mut self.0[0]
    }

    pub fn c1_mut(&mut self) -> (r: &mut Vec3<T>)
        ensures
            *r == old(self)@[1],
            final(self)@ == old(self)@.update(1, *final(r)),
    {
        &mut self.0[1]
    }

    pub fn c2_mut(&mut self) -> (r: &mut Vec3<T>)
        ensures
            *r == old(self)@[2],
            final(self)@ == old(self)@.update(2, *final(r)),
    {
        &mut self.0[2]
    }
}

impl<T: core::ops::Add<Output = T> + core::ops::Mul<Output = T> + Copy> Mat3<T> {
    /// Matrix product `self * rhs`, each entry a left-to-right dot product of
    /// a row of `self` with a column of `rhs`.
    pub fn mul(&self, rhs: &Self) -> (r: Self)
        requires
            T::obeys_add_spec(),
            T::obeys_mul_spec(),
            mat3_dot_req(*self, 0, rhs@[0]),
            mat3_dot_req(*self, 1, rhs@[0]),
            mat3_dot_req(*self, 2, rhs@[0]),
            mat3_dot_req(*self, 0, rhs@[1]),
            mat3_dot_req(*self, 1, rhs@[1]),
            mat3_dot_req(*self, 2, rhs@[1]),
            mat3_dot_req(*self, 0, rhs@[2]),
            mat3_dot_req(*self, 1, rhs@[2]),
            mat3_dot_req(*self, 2, rhs@[2]),
        ensures
            r@[0]@[0] == mat3_dot_spec(*self, 0, rhs@[0]),
            r@[0]@[1] == mat3_dot_spec(*self, 1, rhs@[0]),
            r@[0]@[2] == mat3_dot_spec(*self, 2, rhs@[0]),
            r@[1]@[0] == mat3_dot_spec(*self, 0, rhs@[1]),
            r@[1]@[1] == mat3_dot_spec(*self, 1, rhs@[1]),
            r@[1]@[2] == mat3_dot_spec(*self, 2, rhs@[1]),
            r@[2]@[0] == mat3_dot_spec(*self, 0, rhs@[2]),
            r@[2]@[1] == mat3_dot_spec(*self, 1, rhs@[2]),
            r@[2]@[2] == mat3_dot_spec(*self, 2, rhs@[2]),
    {
        let r0 = self.r0();
        let r1 = self.r1();
        let r2 = self.r2();
        Self::from_cols(
            Vec3::new(r0.dot(&rhs.c0()), r1.dot(&rhs.c0()), r2.dot(&rhs.c0())),
            Vec3::new(r0.dot(&rhs.c1()), r1.dot(&rhs.c1()), r2.dot(&rhs.c1())),
            Vec3::new(r0.dot(&rhs.c2()), r1.dot(&rhs.c2()), r2.dot(&rhs.c2())),
        )
    }
}

impl<T: core::ops::Add<Output = T> + core::ops::Mul<Output = T> + Copy> Mat3<T> {
    /// The product `self * v`: each component a left-to-right dot product
    /// of a row of `self` with `v`.
    pub fn mul_vec(&self, v: Vec3<T>) -> (r: Vec3<T>)
        requires
            T::obeys_add_spec(),
            T::obeys_mul_spec(),
            mat3_dot_req(*self, 0, v),
            mat3_dot_req(*self, 1, v),
            mat3_dot_req(*self, 2, v),
        ensures
            r@[0] == mat3_dot_spec(*self, 0, v),
            r@[1] == mat3_dot_spec(*self, 1, v),
            r@[2] == mat3_dot_spec(*self, 2, v),
    {
        self.c0().scaled(v.x()).add(self.c1().scaled(v.y())).add(self.c2().scaled(v.z()))
    }
}

impl<T: Copy> Mat3<T> {
    pub fn transposed(&self) -> (r: Self)
        ensures
            r@[0]@[0] == self@[0]@[0],
            r@[0]@[1] == self@[1]@[0],
            r@[0]@[2] == self@[2]@[0],
            r@[1]@[0] == self@[0]@[1],
            r@[1]@[1] == self@[1]@[1],
            r@[1]@[2] == self@[2]@[1],
            r@[2]@[0] == self@[0]@[2],
            r@[2]@[1] == self@[1]@[2],
            r@[2]@[2] == self@[2]@[2],
    {
        Self::from_rows(self.c0(), self.c1(), self.c2())
    }
}

impl<T: From<u8> + Copy> Mat3<T> {
    /// Embeds the matrix in the upper-left corner of a 4x4 matrix whose new
    /// row and column hold the scalar zero.
    pub fn into_mat4(self) -> (r: crate::mat4::Mat4<T>)
        ensures
            r@[0]@[0] == self@[0]@[0],
            r@[0]@[1] == self@[0]@[1],
            r@[0]@[2] == self@[0]@[2],
            r@[1]@[0] == self@[1]@[0],
            r@[1]@[1] == self@[1]@[1],
            r@[1]@[2] == self@[1]@[2],
            r@[2]@[0] == self@[2]@[0],
            r@[2]@[1] == self@[2]@[1],
            r@[2]@[2] == self@[2]@[2],
            <T as FromSpec<u8>>::obeys_from_spec() ==> {
                &&& r@[0]@[3] == T::from_spec(0u8)
                &&& r@[1]@[3] == T::from_spec(0u8)
                &&& r@[2]@[3] == T::from_spec(0u8)
                &&& r@[3]@[0] == T::from_spec(0u8)
                &&& r@[3]@[1] == T::from_spec(0u8)
                &&& r@[3]@[2] == T::from_spec(0u8)
                &&& r@[3]@[3] == T::from_spec(0u8)
            },
    {
        let zero: T = T::from(0u8);
        crate::mat4::Mat4::from_rows(
            self.r0().into_vec4(),
            self.r1().into_vec4(),
            self.r2().into_vec4(),
            Vec4::new(zero, zero, zero, zero),
        )
    }
}

} // verus!
