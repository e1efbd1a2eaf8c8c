use ray_kernel::matrices::KernelError;
use ray_kernel::matrices::Mat2;
use ray_kernel::matrices::Mat3;
use ray_kernel::matrices::Mat4;
use ray_kernel::vec4::Vec4;

fn b(x: f64) -> u64 {
    x.to_bits()
}

fn m4(d: [[f64; 4]; 4]) -> Mat4 {
    let mut out = [[0u64; 4]; 4];
    for i in 0..4 {
        for j in 0..4 {
            out[i][j] = d[i][j].to_bits();
        }
    }
    Mat4::new(out)
}

fn m3(d: [[f64; 3]; 3]) -> Mat3 {
    let mut out = [[0u64; 3]; 3];
    for i in 0..3 {
        for j in 0..3 {
            out[i][j] = d[i][j].to_bits();
        }
    }
    Mat3::new(out)
}

fn m2(d: [[f64; 2]; 2]) -> Mat2 {
    let mut out = [[0u64; 2]; 2];
    for i in 0..2 {
        for j in 0..2 {
            out[i][j] = d[i][j].to_bits();
        }
    }
    Mat2::new(out)
}

#[test]
fn create_mat() {
    let mat4 = m4([
        [1.0, 2.0, 3.0, 4.0],
        [5.5, 6.5, 7.5, 8.5],
        [9.0, 10.0, 11.0, 12.0],
        [13.5, 14.5, 15.5, 16.5],
    ]);

    assert_eq!(mat4.data[0][0], b(1.0));
    assert_eq!(mat4.data[0][3], b(4.0));
    assert_eq!(mat4.data[1][0], b(5.5));
    assert_eq!(mat4.data[1][2], b(7.5));
    assert_eq!(mat4.data[2][2], b(11.0));
    assert_eq!(mat4.data[3][2], b(15.5));

    let m4_zeros = Mat4::zeros();

    let mut m4_count = 0;
    // Iterate over mat4 values
    for i in m4_zeros.data.iter() {
        for j in i.iter() {
            assert_eq!(*j, b(0.0));
            m4_count += 1;
        }
    }

    // Ensure that mat4 contains the correct number of elements
    assert_eq!(m4_count, 16);

    let mat3 = m3([[-3.0, 5.0, 0.0], [1.0, -2.0, -7.0], [0.0, 1.0, 1.0]]);
    assert_eq!(mat3.data[0][0], b(-3.0));
    assert_eq!(mat3.data[1][1], b(-2.0));
    assert_eq!(mat3.data[2][2], b(1.0));

    let m3_zeros = Mat3::zeros();

    let mut m3_count = 0;
    // Iterate over mat3 values
    for i in m3_zeros.data.iter() {
        for j in i.iter() {
            assert_eq!(*j, b(0.0));
            m3_count += 1
        }
    }

    // Ensure that mat3 contains the correct number of elements
    assert_eq!(m3_count, 9);

    let mat2 = m2([[-3.0, 5.0], [1.0, -2.0]]);

    assert_eq!(mat2.data[0][0], b(-3.0));
    assert_eq!(mat2.data[0][1], b(5.0));
    assert_eq!(mat2.data[1][0], b(1.0));
    assert_eq!(mat2.data[1][1], b(-2.0));

    let m2_zeros = Mat2::zeros();

    let mut m2_count = 0;
    // Iterate over mat2 values
    for i in m2_zeros.data.iter() {
        for j in i.iter() {
            assert_eq!(*j, b(0.0));
            m2_count += 1
        }
    }

    // Ensure that mat2 contains the correct number of elements
    assert_eq!(m2_count, 4);
}

#[test]
fn matrix_equality() {
    let m4_1 = Mat4::zeros();
    let m4_2 = Mat4::zeros();
    let m4_3 = m4([
        [1.0, 2.0, 3.0, 4.0],
        [5.5, 6.5, 7.5, 8.5],
        [9.0, 10.0, 11.0, 12.0],
        [13.5, 14.5, 15.5, 16.5],
    ]);
    let m4_4 = m4([
        [1.0, 2.0, 3.0, 4.0],
        [5.5, 6.5, 7.5, 8.5],
        [9.0, 10.0, 11.0, 12.0],
        [13.5, 14.5, 15.5, 16.5],
    ]);

    assert_eq!(m4_1, m4_2);
    assert_ne!(m4_1, m4_3);
    assert_eq!(m4_4, m4_4);
}

#[test]
fn modify_mat() {
    let mut m_mut = Mat4::zeros();
    m_mut.data[0][1] = b(1.0);
    m_mut.data[2][3] = b(3.5);

    assert_eq!(m_mut.data[0][1], b(1.0));
    assert_eq!(m_mut.data[2][3], b(3.5));
}

#[test]
fn mat4_multiplication() {
    let m1 = m4([
        [1.0, 2.0, 3.0, 4.0],
        [5.0, 6.0, 7.0, 8.0],
        [9.0, 8.0, 7.0, 6.0],
        [5.0, 4.0, 3.0, 2.0],
    ]);

    let m2_ = m4([
        [-2.0, 1.0, 2.0, 3.0],
        [3.0, 2.0, 1.0, -1.0],
        [4.0, 3.0, 6.0, 5.0],
        [1.0, 2.0, 7.0, 8.0],
    ]);

    let m3_ = m4([
        [20.0, 22.0, 50.0, 48.0],
        [44.0, 54.0, 114.0, 108.0],
        [40.0, 58.0, 110.0, 102.0],
        [16.0, 26.0, 46.0, 42.0],
    ]);

    assert_eq!(m1.mul_mat(&m2_), m3_);
}

#[test]
fn mat4_multiplication_with_vec4() {
    let m = m4([
        [1.0, 2.0, 3.0, 4.0],
        [2.0, 4.0, 4.0, 2.0],
        [8.0, 6.0, 4.0, 1.0],
        [0.0, 0.0, 0.0, 1.0],
    ]);

    let v = Vec4::new_vec4(b(1.0), b(2.0), b(3.0), b(1.0));

    assert_eq!(m.mul_vec(&v), Vec4::new_vec4(b(18.0), b(24.0), b(33.0), b(1.0)))
}

#[test]
fn transposed() {
    let a = m4([
        [0.0, 9.0, 3.0, 0.0],
        [9.0, 8.0, 0.0, 8.0],
        [1.0, 8.0, 5.0, 3.0],
        [0.0, 0.0, 5.0, 8.0],
    ]);

    let b_ = m4([
        [0.0, 9.0, 1.0, 0.0],
        [9.0, 8.0, 8.0, 0.0],
        [3.0, 0.0, 5.0, 5.0],
        [0.0, 8.0, 3.0, 8.0],
    ]);

    assert_eq!(a.transposed(), b_);

    // Transposing the identity matrix should produce the identity matrix
    let id = Mat4::id();
    assert_eq!(id, id.transposed());
}

#[test]
fn transpose_involution() {
    let a = m4([
        [0.0, 9.0, 3.0, 0.0],
        [9.0, 8.0, 0.0, 8.0],
        [1.0, 8.0, 5.0, 3.0],
        [0.0, 0.0, 5.0, 8.0],
    ]);

    assert_eq!(a.transposed().transposed(), a);
}

#[test]
fn submatrix() {
    let mat3 = m3([[1.0, 5.0, 0.0], [-3.0, 2.0, 7.0], [0.0, 6.0, -3.0]]);

    let a = m2([[-3.0, 2.0], [0.0, 6.0]]);

    let sub_m3 = mat3.submatrix(0, 2);

    assert_eq!(sub_m3, a);
}

#[test]
fn minor() {
    let a1 = m3([[3.0, 5.0, 0.0], [2.0, -1.0, -7.0], [6.0, -1.0, 5.0]]);

    let b1 = a1.submatrix(1, 0);

    assert_eq!(a1.minor(1, 0), b1.determinant());

    let a2 = m4([
        [3.0, 5.0, 0.0, 1.0],
        [2.0, -1.0, -7.0, 3.0],
        [6.0, -1.0, 5.0, -2.0],
        [6.0, -1.0, 5.0, -2.0],
    ]);

    let b2 = a2.submatrix(1, 0);

    assert_eq!(a2.minor(1, 0), b2.determinant());
}

#[test]
fn cofactor() {
    let a1 = m3([[3.0, 5.0, 0.0], [2.0, -1.0, -7.0], [6.0, -1.0, 5.0]]);

    assert_eq!(a1.minor(0, 0), b(-12.0));
    assert_eq!(a1.cofactor(0, 0), b(-12.0));
    assert_eq!(a1.minor(1, 0), b(25.0));
    assert_eq!(a1.cofactor(1, 0), b(-25.0));

    let a2 = m4([
        [3.0, 5.0, 0.0, 1.0],
        [2.0, -1.0, -7.0, 2.0],
        [8.0, -1.0, 5.0, -2.0],
        [6.0, -1.0, 9.0, 10.0],
    ]);

    assert_eq!(a2.minor(0, 0), b(-160.0));
    assert_eq!(a2.cofactor(0, 0), b(-160.0));
    assert_eq!(a2.minor(1, 0), b(336.0));
    assert_eq!(a2.cofactor(1, 0), b(-336.0));
}

#[test]
fn determinant() {
    let a1 = m2([[1.0, 5.0], [-3.0, 2.0]]);

    assert_eq!(a1.determinant(), b(17.0));

    let a2 = m3([[1.0, 2.0, 6.0], [-5.0, 8.0, -4.0], [2.0, 6.0, 4.0]]);

    assert_eq!(a2.cofactor(0, 0), b(56.0));
    assert_eq!(a2.cofactor(0, 1), b(12.0));
    assert_eq!(a2.cofactor(0, 2), b(-46.0));
    assert_eq!(a2.determinant(), b(-196.0));

    let a3 = m4([
        [-2.0, -8.0, 3.0, 5.0],
        [-3.0, 1.0, 7.0, 3.0],
        [1.0, 2.0, -9.0, 6.0],
        [-6.0, 7.0, 7.0, -9.0],
    ]);

    assert_eq!(a3.cofactor(0, 0), b(690.0));
    assert_eq!(a3.cofactor(0, 1), b(447.0));
    assert_eq!(a3.cofactor(0, 2), b(210.0));
    assert_eq!(a3.cofactor(0, 3), b(51.0));
    assert_eq!(a3.determinant(), b(-4071.0));
}

#[test]
fn inversion() {
    let a = m4([
        [-5.0, 2.0, 6.0, -8.0],
        [1.0, -5.0, 1.0, 8.0],
        [7.0, 7.0, -6.0, -7.0],
        [1.0, -3.0, 7.0, 4.0],
    ]);
    let a_inv = m4([
        [0.21805, 0.45113, 0.24060, -0.04511],
        [-0.80827, -1.45677, -0.44361, 0.52068],
        [-0.07895, -0.22368, -0.05263, 0.19737],
        [-0.52256, -0.81391, -0.30075, 0.30639],
    ]);
    let b_ = a.inverted().unwrap();

    assert_eq!(a.determinant(), b(532.0));

    assert_eq!(a.cofactor(2, 3), b(-160.0));
    assert_eq!(b_.data[3][2], b(-160.0 / 532.0));
    assert_eq!(a.cofactor(3, 2), b(105.0));
    assert_eq!(b_.data[2][3], b(105.0 / 532.0));

    assert_eq!(b_.equal_approx(&a_inv), true);
}

#[test]
fn inversion_multiplication() {
    let a = m4([
        [-3.0, 9.0, 7.0, 3.0],
        [3.0, -8.0, 2.0, -9.0],
        [-4.0, 4.0, 4.0, 1.0],
        [-6.0, 5.0, -1.0, 1.0],
    ]);

    let b_ = m4([
        [8.0, 2.0, 2.0, 2.0],
        [3.0, -1.0, 7.0, 0.0],
        [7.0, 0.0, 5.0, 4.0],
        [6.0, -2.0, 0.0, 5.0],
    ]);

    let c = a.mul_mat(&b_);
    assert_eq!(c.mul_mat(&b_.inverted().unwrap()).equal_approx(&a), true);
}

#[test]
fn inversion_of_singular_matrix_fails() {
    // A determinant of exactly 0.0 cannot be inverted.
    let singular = m4([
        [1.0, 2.0, 3.0, 4.0],
        [2.0, 4.0, 6.0, 8.0],
        [0.0, 1.0, 0.0, 1.0],
        [5.0, 6.0, 7.0, 8.0],
    ]);

    assert_eq!(singular.determinant(), b(0.0));
    assert!(matches!(singular.inverted(), Err(KernelError::DegenerateMatrix)));
    assert!(matches!(Mat4::zeros().inverted(), Err(KernelError::DegenerateMatrix)));
}
