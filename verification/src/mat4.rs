use vstd::prelude::*;
use vstd::std_specs::convert::FromSpec;
use vstd::std_specs::ops::{AddSpec, MulSpec};

use crate::vec3::Vec3;
use crate::vec4::{dot4_req, dot4_spec, Vec4};

verus! {

/// A 4x4 column-major matrix over any scalar type `T`.
#[derive(Clone, Copy, Debug, PartialEq)]
pub struct Mat4<T>(pub [Vec4<T>; 4]);

impl<T> View for Mat4<T> {
    type V = Seq<Vec4<T>>;

    open spec fn view(&self) -> Seq<Vec4<T>> {
        self.0@
    }
}

/// Whether row `i` of `m` and the column vector `c` satisfy the operator
/// preconditions of a left-to-right four-term dot product.
pub open spec fn mat4_dot_req<T: core::ops::Add<Output = T> + core::ops::Mul<Output = T>>(
    m: Mat4<T>,
    i: int,
    c: Vec4<T>,
) -> bool {
    dot4_req(m@[0]@[i], m@[1]@[i], m@[2]@[i], m@[3]@[i], c@[0], c@[1], c@[2], c@[3])
}

/// The left-to-right dot product of row `i` of `m` with the column vector `c`.
pub open spec fn mat4_dot_spec<T: core::ops::Add<Output = T> + core::ops::Mul<Output = T>>(
    m: Mat4<T>,
    i: int,
    c: Vec4<T>,
) -> T {
    dot4_spec(m@[0]@[i], m@[1]@[i], m@[2]@[i], m@[3]@[i], c@[0], c@[1], c@[2], c@[3])
}

impl<T: Copy> Mat4<T> {
    pub fn from_rows(x: Vec4<T>, y: Vec4<T>, z: Vec4<T>, w: Vec4<T>) -> (r: Self)
        ensures
            r@[0]@[0] == x@[0],
            r@[0]@[1] == y@[0],
            r@[0]@[2] == z@[0],
            r@[0]@[3] == w@[0],
            r@[1]@[0] == x@[1],
            r@[1]@[1] == y@[1],
            r@[1]@[2] == z@[1],
            r@[1]@[3] == w@[1],
            r@[2]@[0] == x@[2],
            r@[2]@[1] == y@[2],
            r@[2]@[2] == z@[2],
            r@[2]@[3] == w@[2],
            r@[3]@[0] == x@[3],
            r@[3]@[1] == y@[3],
            r@[3]@[2] == z@[3],
            r@[3]@[3] == w@[3],
    {
        Self(
            [
                Vec4::new(x.x(), y.x(), z.x(), w.x()),
                Vec4::new(x.y(), y.y(), z.y(), w.y()),
                Vec4::new(x.z(), y.z(), z.z(), w.z()),
                Vec4::new(x.w(), y.w(), z.w(), w.w()),
            ],
        )
    }
}

impl<T> Mat4<T> {
    pub fn from_cols(r0: Vec4<T>, r1: Vec4<T>, r2: Vec4<T>, r3: Vec4<T>) -> (r: Self)
        ensures
            r@[0] == r0,
            r@[1] == r1,
            r@[2] == r2,
            r@[3] == r3,
    {
        Self([r0, r1, r2, r3])
    }
}

impl<T: From<u8> + Copy> Mat4<T> {
    /// The matrix that scales each axis by the matching component of `s`.
    pub fn scaling(s: Vec4<T>) -> (r: Self)
        ensures
            r@[0]@[0] == s@[0],
            r@[1]@[1] == s@[1],
            r@[2]@[2] == s@[2],
            r@[3]@[3] == s@[3],
            <T as FromSpec<u8>>::obeys_from_spec() ==> {
                &&& r@[0]@[1] == T::from_spec(0u8)
                &&& r@[0]@[2] == T::from_spec(0u8)
                &&& r@[0]@[3] == T::from_spec(0u8)
                &&& r@[1]@[0] == T::from_spec(0u8)
                &&& r@[1]@[2] == T::from_spec(0u8)
                &&& r@[1]@[3] == T::from_spec(0u8)
                &&& r@[2]@[0] == T::from_spec(0u8)
                &&& r@[2]@[1] == T::from_spec(0u8)
                &&& r@[2]@[3] == T::from_spec(0u8)
                &&& r@[3]@[0] == T::from_spec(0u8)
                &&& r@[3]@[1] == T::from_spec(0u8)
                &&& r@[3]@[2] == T::from_spec(0u8)
            },
    {
        let zero: T = T::from(0u8);
        Self::from_cols(
            Vec4::new(s.x(), zero, zero, zero),
            Vec4::new(zero, s.y(), zero, zero),
            Vec4::new(zero, zero, s.z(), zero),
            Vec4::new(zero, zero, zero, s.w()),
        )
    }

    /// The matrix that translates by `t`, with an identity upper-left block.
    pub fn translation(t: Vec3<T>) -> (r: Self)
        ensures
            r@[3]@[0] == t@[0],
            r@[3]@[1] == t@[1],
            r@[3]@[2] == t@[2],
            <T as FromSpec<u8>>::obeys_from_spec() ==> {
                &&& r@[0]@[0] == T::from_spec(1u8)
                &&& r@[1]@[1] == T::from_spec(1u8)
                &&& r@[2]@[2] == T::from_spec(1u8)
                &&& r@[3]@[3] == T::from_spec(1u8)
                &&& r@[0]@[1] == T::from_spec(0u8)
                &&& r@[0]@[2] == T::from_spec(0u8)
                &&& r@[0]@[3] == T::from_spec(0u8)
                &&& r@[1]@[0] == T::from_spec(0u8)
                &&& r@[1]@[2] == T::from_spec(0u8)
                &&& r@[1]@[3] == T::from_spec(0u8)
                &&& r@[2]@[0] == T::from_spec(0u8)
                &&& r@[2]@[1] == T::from_spec(0u8)
                &&& r@[2]@[3] == T::from_spec(0u8)
            },
    {
        let zero: T = T::from(0u8);
        let one: T = T::from(1u8);
        Self::from_cols(
            Vec4::new(one, zero, zero, zero),
            Vec4::new(zero, one, zero, zero),
            Vec4::new(zero, zero, one, zero),
            Vec4::new(t.x(), t.y(), t.z(), one),
        )
    }
}

impl<T: Copy> Mat4<T> {
    pub fn r0(&self) -> (r: Vec4<T>)
        ensures
            r@[0] == self@[0]@[0],
            r@[1] == self@[1]@[0],
            r@[2] == self@[2]@[0],
            r@[3] == self@[3]@[0],
    {
        Vec4::new(self.c0().x(), self.c1().x(), self.c2().x(), self.c3().x())
    }

    pub fn r1(&self) -> (r: Vec4<T>)
        ensures
            r@[0] == self@[0]@[1],
            r@[1] == self@[1]@[1],
            r@[2] == self@[2]@[1],
            r@[3] == self@[3]@[1],
    {
        Vec4::new(self.c0().y(), self.c1().y(), self.c2().y(), self.c3().y())
    }

    pub fn r2(&self) -> (r: Vec4<T>)
        ensures
            r@[0] == self@[0]@[2],
            r@[1] == self@[1]@[2],
            r@[2] == self@[2]@[2],
            r@[3] == self@[3]@[2],
    {
        Vec4::new(self.c0().z(), self.c1().z(), self.c2().z(), self.c3().z())
    }

    pub fn r3(&self) -> (r: Vec4<T>)
        ensures
            r@[0] == self@[0]@[3],
            r@[1] == self@[1]@[3],
            r@[2] == self@[2]@[3],
            r@[3] == self@[3]@[3],
    {
        Vec4::new(self.c0().w(), self.c1().w(), self.c2().w(), self.c3().w())
    }

    pub fn c0(&self) -> (r: Vec4<T>)
        ensures
            r == self@[0],
    {
        self.0[0]
    }

    pub fn c1(&self) -> (r: Vec4<T>)
        ensures
            r == self@[1],
    {
        self.0[1]
    }

    pub fn c2(&self) -> (r: Vec4<T>)
        ensures
            r == self@[2],
    {
        self.0[2]
    }

    pub fn c3(&self) -> (r: Vec4<T>)
        ensures
            r == self@[3],
    {
        self.0[3]
    }
}

impl<T> Mat4<T> {
    pub fn c0_mut(&mut self) -> (r: &mut Vec4<T>)
        ensures
            *r == old(self)@[0],
            final(self)@ == old(self)@.update(0, *final(r)),
    {
        &mut self.0[0]
    }

    pub fn c1_mut(&mut self) -> (r: &mut Vec4<T>)
        ensures
            *r == old(self)@[1],
            final(self)@ == old(self)@.update(1, *final(r)),
    {
        &mut self.0[1]
    }

    pub fn c2_mut(&mut self) -> (r: &mut Vec4<T>)
        ensures
            *r == old(self)@[2],
            final(self)@ == old(self)@.update(2, *final(r)),
    {
        &mut self.0[2]
    }

    pub fn c3_mut(&mut self) -> (r: &mut Vec4<T>)
        ensures
            *r == old(self)@[3],
            final(self)@ == old(self)@.update(3, *final(r)),
    {
        &mut self.0[3]
    }
}

impl<T: core::ops::Add<Output = T> + core::ops::Mul<Output = T> + Copy> Mat4<T> {
    /// Matrix product `self * rhs`, each entry a left-to-right dot product of
    /// a row of `self` with a column of `rhs`.
    pub fn mul(&self, rhs: &Self) -> (r: Self)
        requires
            T::obeys_add_spec(),
            T::obeys_mul_spec(),
            mat4_dot_req(*self, 0, rhs@[0]),
            mat4_dot_req(*self, 1, rhs@[0]),
            mat4_dot_req(*self, 2, rhs@[0]),
            mat4_dot_req(*self, 3, rhs@[0]),
            mat4_dot_req(*self, 0, rhs@[1]),
            mat4_dot_req(*self, 1, rhs@[1]),
            mat4_dot_req(*self, 2, rhs@[1]),
            mat4_dot_req(*self, 3, rhs@[1]),
            mat4_dot_req(*self, 0, rhs@[2]),
            mat4_dot_req(*self, 1, rhs@[2]),
            mat4_dot_req(*self, 2, rhs@[2]),
            mat4_dot_req(*self, 3, rhs@[2]),
            mat4_dot_req(*self, 0, rhs@[3]),
            mat4_dot_req(*self, 1, rhs@[3]),
            mat4_dot_req(*self, 2, rhs@[3]),
            mat4_dot_req(*self, 3, rhs@[3]),
        ensures
            r@[0]@[0] == mat4_dot_spec(*self, 0, rhs@[0]),
            r@[0]@[1] == mat4_dot_spec(*self, 1, rhs@[0]),
            r@[0]@[2] == mat4_dot_spec(*self, 2, rhs@[0]),
            r@[0]@[3] == mat4_dot_spec(*self, 3, rhs@[0]),
            r@[1]@[0] == mat4_dot_spec(*self, 0, rhs@[1]),
            r@[1]@[1] == mat4_dot_spec(*self, 1, rhs@[1]),
            r@[1]@[2] == mat4_dot_spec(*self, 2, rhs@[1]),
            r@[1]@[3] == mat4_dot_spec(*self, 3, rhs@[1]),
            r@[2]@[0] == mat4_dot_spec(*self, 0, rhs@[2]),
            r@[2]@[1] == mat4_dot_spec(*self, 1, rhs@[2]),
            r@[2]@[2] == mat4_dot_spec(*self, 2, rhs@[2]),
            r@[2]@[3] == mat4_dot_spec(*self, 3, rhs@[2]),
            r@[3]@[0] == mat4_dot_spec(*self, 0, rhs@[3]),
            r@[3]@[1] == mat4_dot_spec(*self, 1, rhs@[3]),
            r@[3]@[2] == mat4_dot_spec(*self, 2, rhs@[3]),
            r@[3]@[3] == mat4_dot_spec(*self, 3, rhs@[3]),
    {
        let r0 = self.r0();
        let r1 = self.r1();
        let r2 = self.r2();
        let r3 = self.r3();
        Self::from_cols(
            Vec4::new(
                r0.dot(&rhs.c0()),
                r1.dot(&rhs.c0()),
                r2.dot(&rhs.c0()),
                r3.dot(&rhs.c0()),
            ),
            Vec4::new(
                r0.dot(&rhs.c1()),
                r1.dot(&rhs.c1()),
                r2.dot(&rhs.c1()),
                r3.dot(&rhs.c1()),
            ),
            Vec4::new(
                r0.dot(&rhs.c2()),
                r1.dot(&rhs.c2()),
                r2.dot(&rhs.c2()),
                r3.dot(&rhs.c2()),
            ),
            Vec4::new(
                r0.dot(&rhs.c3()),
                r1.dot(&rhs.c3()),
                r2.dot(&rhs.c3()),
                r3.dot(&rhs.c3()),
            ),
        )
    }
}

} // verus!
