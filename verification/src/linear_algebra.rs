//! Vectors and matrices of three dimensions over the real numbers.

use vstd::prelude::*;

verus! {

/// A vector of three real components.
pub struct Vector {
    pub x: real,
    pub y: real,
    pub z: real,
}

/// The dot product.
pub open spec fn dot(u: Vector, v: Vector) -> real {
    u.x * v.x + u.y * v.y + u.z * v.z
}

/// The cross product.
pub open spec fn cross(u: Vector, v: Vector) -> Vector {
    Vector { x: u.y * v.z - u.z * v.y, y: u.z * v.x - u.x * v.z, z: u.x * v.y - u.y * v.x }
}

/// The vector scaled by a number.
pub open spec fn scale(k: real, v: Vector) -> Vector {
    Vector { x: k * v.x, y: k * v.y, z: k * v.z }
}

/// The vector of three zeros.
pub open spec fn zero_vector() -> Vector {
    Vector { x: 0 as real, y: 0 as real, z: 0 as real }
}

/// The reciprocal of a number other than zero.
pub open spec fn recip(x: real) -> real {
    1 as real / x
}

/// A matrix of three rows.
pub struct Matrix {
    pub row_x: Vector,
    pub row_y: Vector,
    pub row_z: Vector,
}

/// The matrix with the given rows.
pub open spec fn from_rows(u: Vector, v: Vector, w: Vector) -> Matrix {
    Matrix { row_x: u, row_y: v, row_z: w }
}

/// The matrix with the given columns.
pub open spec fn from_columns(u: Vector, v: Vector, w: Vector) -> Matrix {
    Matrix {
        row_x: Vector { x: u.x, y: v.x, z: w.x },
        row_y: Vector { x: u.y, y: v.y, z: w.y },
        row_z: Vector { x: u.z, y: v.z, z: w.z },
    }
}

/// The transposed matrix.
pub open spec fn transpose(m: Matrix) -> Matrix {
    from_columns(m.row_x, m.row_y, m.row_z)
}

/// The matrix product.
pub open spec fn product(m: Matrix, n: Matrix) -> Matrix {
    let t = transpose(n);
    Matrix {
        row_x: Vector { x: dot(m.row_x, t.row_x), y: dot(m.row_x, t.row_y), z: dot(m.row_x, t.row_z) },
        row_y: Vector { x: dot(m.row_y, t.row_x), y: dot(m.row_y, t.row_y), z: dot(m.row_y, t.row_z) },
        row_z: Vector { x: dot(m.row_z, t.row_x), y: dot(m.row_z, t.row_y), z: dot(m.row_z, t.row_z) },
    }
}

/// The identity matrix.
pub open spec fn identity() -> Matrix {
    Matrix {
        row_x: Vector { x: 1 as real, y: 0 as real, z: 0 as real },
        row_y: Vector { x: 0 as real, y: 1 as real, z: 0 as real },
        row_z: Vector { x: 0 as real, y: 0 as real, z: 1 as real },
    }
}

/// The determinant: the first row dotted with the cross product of the
/// other two.
pub open spec fn determinant(m: Matrix) -> real {
    dot(m.row_x, cross(m.row_y, m.row_z))
}

/// The dot product does not depend on the order of its arguments.
pub proof fn lemma_dot_commutes(u: Vector, v: Vector)
    ensures
        dot(u, v) == dot(v, u),
{
}

/// A number other than zero times its reciprocal is one.
pub proof fn lemma_recip(x: real)
    requires
        x != 0 as real,
    ensures
        x * recip(x) == 1 as real,
{
    assert(x * (1 as real / x) == 1 as real) by (nonlinear_arith)
        requires
            x != 0 as real,
    ;
}

} // verus!
