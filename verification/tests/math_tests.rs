use shader_reflect::mat3::Mat3;
use shader_reflect::mat4::Mat4;
use shader_reflect::vec2::Vec2;
use shader_reflect::vec3::Vec3;
use shader_reflect::vec4::Vec4;

#[test]
fn vec2_add1() {
    let mut a = Vec2::new(1.0, 2.0);
    let b = Vec2::new(4.0, 6.0);
    let c = Vec2::new(5.0, 8.0);

    assert_eq!(a.add(b), c);
    a.add_assign(b);
    assert_eq!(a, c);
}

#[test]
fn vec2_sub1() {
    let mut c = Vec2::<f32>::new(5.0, 8.0);
    let b = Vec2::<f32>::new(4.0, 6.0);
    let a = Vec2::<f32>::new(1.0, 2.0);

    assert_eq!(c.sub(b), a);
    c.sub_assign(b);
    assert_eq!(c, a);
}

#[test]
fn vec2_dot1() {
    let a = Vec2::<f32>::new(1.0, 5.0);
    let b = Vec2::<f32>::new(17.0, 65.0);
    let c: f32 = 342.0;

    assert_eq!(a.dot(&b), c);
}

#[test]
fn vec3_add1() {
    let mut a = Vec3::<f32>::new(1.0, 5.0, 9.0);
    let b = Vec3::<f32>::new(17.0, 33.0, 65.0);
    let c = Vec3::<f32>::new(18.0, 38.0, 74.0);

    assert_eq!(a.add(b), c);
    a.add_assign(b);
    assert_eq!(a, c);
}

#[test]
fn vec3_sub1() {
    let a = Vec3::<f32>::new(1.0, 5.0, 9.0);
    let b = Vec3::<f32>::new(17.0, 33.0, 65.0);
    let mut c = Vec3::<f32>::new(18.0, 38.0, 74.0);

    assert_eq!(c.sub(b), a);
    c.sub_assign(b);
    assert_eq!(c, a);
}

#[test]
fn vec3_dot1() {
    let a = Vec3::<f32>::new(1.0, 5.0, 9.0);
    let b = Vec3::<f32>::new(17.0, 33.0, 65.0);
    let c: f32 = 767.0;

    assert_eq!(a.dot(&b), c);
}

#[test]
fn cross1() {
    let a = Vec3::<f32>::new(1.0, 5.0, 9.0);
    let b = Vec3::<f32>::new(17.0, 33.0, 65.0);
    let c = Vec3::<f32>::new(28.0, 88.0, -52.0);

    assert_eq!(a.cross(&b), c);
}

#[test]
fn cross2() {
    let a = Vec3::<f32>::new(1.0, 5.0, 9.0);
    let b = Vec3::<f32>::new(17.0, 33.0, 65.0);
    let c = Vec3::<f32>::new(125.0, 257.0, 513.0);

    // d == a x b x c
    let d = Vec3::<f32>::new(58508.0, -20864.0, -3804.0);

    assert_eq!(a.cross(&b).cross(&c), d);
}

#[test]
fn vec4_add1() {
    let mut a = Vec4::<f32>::new(1.0, 5.0, 9.0, 17.0);
    let b = Vec4::<f32>::new(33.0, 65.0, 125.0, 257.0);
    let c = Vec4::<f32>::new(34.0, 70.0, 134.0, 274.0);

    assert_eq!(a.add(b), c);
    a.add_assign(b);
    assert_eq!(a, c);
}

#[test]
fn vec4_sub1() {
    let a = Vec4::<f32>::new(1.0, 5.0, 9.0, 17.0);
    let b = Vec4::<f32>::new(33.0, 65.0, 125.0, 257.0);
    let mut c = Vec4::<f32>::new(34.0, 70.0, 134.0, 274.0);

    assert_eq!(c.sub(b), a);
    c.sub_assign(b);
    assert_eq!(c, a);
}

#[test]
fn vec4_scale_nonuniform() {
    let mut v = Vec4::<f32>::new(1.0, 9.0, 33.0, 125.0);
    let s2 = Vec4::<f32>::new(5.0, 9.0, 17.0, 33.0);
    let v2 = Vec4::<f32>::new(5.0, 81.0, 561.0, 4125.0);

    assert_eq!(v.scaled_nonuniform(s2), v2);
    v.scale_assign_nonuniform(s2);
    assert_eq!(v, v2);
}

#[test]
fn vec4_dot1() {
    let a = Vec4::<f32>::new(1.0, 5.0, 9.0, 17.0);
    let b = Vec4::<f32>::new(33.0, 65.0, 125.0, 257.0);
    let c: f32 = 5852.0;

    assert_eq!(a.dot(&b), c);
}

#[test]
fn mat3_multiplication_scaling() {
    let s = Mat3::scaling(Vec3::new(2.0, 3.0, 4.0));

    let v = Mat3::from_cols(
        Vec3::new(1.0, 2.0, 3.0),
        Vec3::new(4.0, 5.0, 6.0),
        Vec3::new(7.0, 8.0, 9.0),
    );

    let result = v.mul(&s);

    let expected = Mat3::from_cols(
        Vec3::new(2.0, 4.0, 6.0),
        Vec3::new(12.0, 15.0, 18.0),
        Vec3::new(28.0, 32.0, 36.0),
    );

    assert_eq!(result, expected);
}

#[test]
fn mat3_multiplication_chained() {
    let a = Mat3::from_rows(
        Vec3::new(1.0, 2.0, 3.0),
        Vec3::new(4.0, 5.0, 6.0),
        Vec3::new(7.0, 8.0, 9.0),
    );
    let b = Mat3::from_rows(
        Vec3::new(10.0, 11.0, 12.0),
        Vec3::new(13.0, 14.0, 15.0),
        Vec3::new(16.0, 17.0, 18.0),
    );
    let c = Mat3::from_rows(
        Vec3::new(19.0, 20.0, 21.0),
        Vec3::new(22.0, 23.0, 24.0),
        Vec3::new(25.0, 26.0, 27.0),
    );

    let result = a.mul(&b).mul(&c);

    // this is equivalent to a * b * c
    let expected = Mat3::from_rows(
        Vec3::new(5976.0, 6246.0, 6516.0),
        Vec3::new(14346.0, 14994.0, 15642.0),
        Vec3::new(22716.0, 23742.0, 24768.0),
    );

    assert_eq!(result, expected);
}

#[test]
fn mat4_multiplication_scaling() {
    let s = Mat4::scaling(Vec4::new(2.0, 3.0, 4.0, 5.0));

    let m = Mat4::from_cols(
        Vec4::new(1.0, 2.0, 3.0, 4.0),
        Vec4::new(5.0, 6.0, 7.0, 8.0),
        Vec4::new(9.0, 10.0, 11.0, 12.0),
        Vec4::new(13.0, 14.0, 15.0, 16.0),
    );

    let result = m.mul(&s);

    let expected = Mat4::from_cols(
        Vec4::new(2.0, 4.0, 6.0, 8.0),
        Vec4::new(15.0, 18.0, 21.0, 24.0),
        Vec4::new(36.0, 40.0, 44.0, 48.0),
        Vec4::new(65.0, 70.0, 75.0, 80.0),
    );

    assert_eq!(result, expected);
}

#[test]
fn mat4_multiplication_chained() {
    let a = Mat4::from_rows(
        Vec4::new(1.0, 2.0, 3.0, 4.0),
        Vec4::new(5.0, 6.0, 7.0, 8.0),
        Vec4::new(9.0, 10.0, 11.0, 12.0),
        Vec4::new(13.0, 14.0, 15.0, 16.0),
    );

    let b = Mat4::from_rows(
        Vec4::new(17.0, 18.0, 19.0, 20.0),
        Vec4::new(21.0, 22.0, 23.0, 24.0),
        Vec4::new(25.0, 26.0, 27.0, 28.0),
        Vec4::new(29.0, 30.0, 31.0, 32.0),
    );

    let c = Mat4::from_rows(
        Vec4::new(33.0, 34.0, 35.0, 36.0),
        Vec4::new(37.0, 38.0, 39.0, 40.0),
        Vec4::new(41.0, 42.0, 43.0, 44.0),
        Vec4::new(45.0, 46.0, 47.0, 48.0),
    );

    let result = a.mul(&b).mul(&c);

    // expected == a * b * c
    let expected = Mat4::from_rows(
        Vec4::new(41540.0, 42600.0, 43660.0, 44720.0),
        Vec4::new(103012.0, 105640.0, 108268.0, 110896.0),
        Vec4::new(164484.0, 168680.0, 172876.0, 177072.0),
        Vec4::new(225956.0, 231720.0, 237484.0, 243248.0),
    );

    assert_eq!(result, expected);
}

#[test]
fn angle_axis_tests() {
    let _angle: f32 = 0.5;
    let _axis = Vec3::<f32>::new(1.0, 2.0, 3.0);
}

#[test]
fn conversion_to_matrix() {}

#[test]
fn transposed_swaps_rows_and_columns() {
    let m = Mat3::from_rows(
        Vec3::new(1, 2, 3),
        Vec3::new(4, 5, 6),
        Vec3::new(7, 8, 9),
    );
    let t = m.transposed();
    assert_eq!(t.r0(), m.c0());
    assert_eq!(t.r1(), m.c1());
    assert_eq!(t.r2(), m.c2());
}

#[test]
fn widening_pads_with_zero() {
    let v = Vec2::<i32>::new(3, 4);
    let v3 = v.into_vec3();
    assert_eq!(v3.x(), 3);
    assert_eq!(v3.y(), 4);
    assert_eq!(v3.z(), 0);
    let v4 = Vec3::<i32>::new(1, 2, 3).into_vec4();
    assert_eq!(v4.w(), 0);
    let m4 = Mat3::scaling(Vec3::<f32>::new(2.0, 3.0, 4.0)).into_mat4();
    assert_eq!(m4.c3(), Vec4::new(0.0, 0.0, 0.0, 0.0));
    assert_eq!(m4.c0(), Vec4::new(2.0, 0.0, 0.0, 0.0));
}

#[test]
fn translation_matrix_layout() {
    let t = Mat4::<f32>::translation(Vec3::new(7.0, 8.0, 9.0));
    assert_eq!(t.c3(), Vec4::new(7.0, 8.0, 9.0, 1.0));
    assert_eq!(t.c0(), Vec4::new(1.0, 0.0, 0.0, 0.0));
    assert_eq!(t.r3(), Vec4::new(0.0, 0.0, 0.0, 1.0));
}

#[test]
fn integer_vectors_compute_exactly() {
    let a = Vec3::<u32>::new(1, 2, 3);
    let b = Vec3::<u32>::new(10, 20, 30);
    assert_eq!(a.add(b), Vec3::new(11, 22, 33));
    assert_eq!(a.dot(&b), 140);
    let c = Vec3::<i64>::new(2, 3, 4).cross(&Vec3::new(5, 6, 7));
    assert_eq!(c, Vec3::new(-3, 6, -3));
}

#[test]
fn integer_matrix_product_is_exact() {
    let a = Mat3::<u32>::from_rows(
        Vec3::new(1, 2, 0),
        Vec3::new(0, 1, 0),
        Vec3::new(0, 0, 1),
    );
    let b = Mat3::<u32>::from_rows(
        Vec3::new(5, 6, 7),
        Vec3::new(8, 9, 10),
        Vec3::new(11, 12, 13),
    );
    let p = a.mul(&b);
    let expected = Mat3::from_rows(
        Vec3::new(21, 24, 27),
        Vec3::new(8, 9, 10),
        Vec3::new(11, 12, 13),
    );
    assert_eq!(p, expected);
}

#[test]
fn matrix_vector_product() {
    let m = Mat3::<i32>::from_rows(
        Vec3::new(1, 2, 3),
        Vec3::new(4, 5, 6),
        Vec3::new(7, 8, 9),
    );
    let v = Vec3::new(1, 0, -1);
    assert_eq!(m.mul_vec(v), Vec3::new(-2, -2, -2));
    assert_eq!(Vec3::<i32>::new(1, -2, 3).scaled(-2), Vec3::new(-2, 4, -6));
}
