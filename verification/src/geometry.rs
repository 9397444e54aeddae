//! The oblate spheroidal frame over exact numbers.
//!
//! The coordinates of a point are the semimajor axis `a` of the spheroid
//! through it, its longitude and its latitude fraction `h`, for a fixed
//! eccentricity `e`. This module states the closed forms of the frame over
//! the real numbers: the Cartesian point, the two bases, the two Jacobians,
//! the covariant metric tensor and the volume element. It proves that the
//! two bases are dual, that the two Jacobians are inverse to each other,
//! that the first basis vector is radial, that the coordinates are recovered
//! from the Cartesian point, and that the metric tensor holds the dot
//! products of the basis.
//!
//! Roots and circular functions are not computed: a point carries the cosine
//! and sine of its longitude and the roots `p` of `1 - e*e` and `q` of
//! `1 - h*h`, and is valid when they satisfy their defining equations. What
//! is proved holds of exact arithmetic; an evaluation in binary64 meets it up
//! to rounding only.

use vstd::prelude::*;
use crate::linear_algebra::cross;
use crate::linear_algebra::dot;
use crate::linear_algebra::from_columns;
use crate::linear_algebra::from_rows;
use crate::linear_algebra::identity;
use crate::linear_algebra::lemma_dot_commutes;
use crate::linear_algebra::lemma_recip;
use crate::linear_algebra::product;
use crate::linear_algebra::recip;
use crate::linear_algebra::scale;
use crate::linear_algebra::transpose;
use crate::linear_algebra::zero_vector;
use crate::linear_algebra::Matrix;
use crate::linear_algebra::Vector;

verus! {

/// A point of the frame.
pub struct Point {
    /// The eccentricity `e`.
    pub ecc: real,
    /// The semimajor axis `a`.
    pub sma: real,
    /// The cosine of the longitude.
    pub cos_lon: real,
    /// The sine of the longitude.
    pub sin_lon: real,
    /// The latitude fraction `h`.
    pub lat: real,
    /// The root `p` of `1 - e*e`.
    pub root_ecc: real,
    /// The root `q` of `1 - h*h`.
    pub root_lat: real,
}

impl Point {
    /// The parameters are in their ranges and the derived quantities
    /// satisfy their defining equations.
    pub open spec fn valid(self) -> bool {
        &&& 0 as real <= self.ecc < 1 as real
        &&& 0 as real <= self.sma
        &&& -(1 as real) <= self.lat <= 1 as real
        &&& self.cos_lon * self.cos_lon + self.sin_lon * self.sin_lon == 1 as real
        &&& self.root_ecc > 0 as real
        &&& self.root_ecc * self.root_ecc == 1 as real - self.ecc * self.ecc
        &&& self.root_lat >= 0 as real
        &&& self.root_lat * self.root_lat == 1 as real - self.lat * self.lat
    }

    /// A valid point off the polar axis on a spheroid that is not reduced
    /// to a point: there the coordinate lines cross properly.
    pub open spec fn regular(self) -> bool {
        &&& self.valid()
        &&& self.sma > 0 as real
        &&& self.root_lat > 0 as real
    }

    /// The Cartesian coordinates.
    pub open spec fn cartesian(self) -> Vector {
        Vector {
            x: (self.sma * self.root_lat) * self.cos_lon,
            y: (self.sma * self.root_lat) * self.sin_lon,
            z: (self.sma * self.lat) * self.root_ecc,
        }
    }

    /// The derivative of the position with respect to the semimajor axis.
    pub open spec fn cov_sma(self) -> Vector {
        Vector {
            x: self.root_lat * self.cos_lon,
            y: self.root_lat * self.sin_lon,
            z: self.lat * self.root_ecc,
        }
    }

    /// The derivative of the position with respect to the longitude.
    pub open spec fn cov_lon(self) -> Vector {
        Vector {
            x: -((self.sma * self.root_lat) * self.sin_lon),
            y: (self.sma * self.root_lat) * self.cos_lon,
            z: 0 as real,
        }
    }

    /// The derivative of the position with respect to the latitude
    /// fraction.
    pub open spec fn cov_lat(self) -> Vector {
        Vector {
            x: -(((self.sma * self.lat) * self.cos_lon) * recip(self.root_lat)),
            y: -(((self.sma * self.lat) * self.sin_lon) * recip(self.root_lat)),
            z: self.sma * self.root_ecc,
        }
    }

    /// The gradient of the semimajor axis.
    pub open spec fn con_sma(self) -> Vector {
        Vector {
            x: self.root_lat * self.cos_lon,
            y: self.root_lat * self.sin_lon,
            z: self.lat * recip(self.root_ecc),
        }
    }

    /// The gradient of the longitude.
    pub open spec fn con_lon(self) -> Vector {
        Vector {
            x: -(self.sin_lon * (recip(self.sma) * recip(self.root_lat))),
            y: self.cos_lon * (recip(self.sma) * recip(self.root_lat)),
            z: 0 as real,
        }
    }

    /// The gradient of the latitude fraction.
    pub open spec fn con_lat(self) -> Vector {
        Vector {
            x: -(((self.lat * self.root_lat) * self.cos_lon) * recip(self.sma)),
            y: -(((self.lat * self.root_lat) * self.sin_lon) * recip(self.sma)),
            z: (self.root_lat * self.root_lat) * (recip(self.sma) * recip(self.root_ecc)),
        }
    }

    /// The Jacobian of the Cartesian coordinates with respect to the
    /// semimajor axis, the longitude and the latitude fraction: its columns
    /// are the derivatives of the position.
    pub open spec fn jacobian(self) -> Matrix {
        from_columns(self.cov_sma(), self.cov_lon(), self.cov_lat())
    }

    /// The Jacobian of the semimajor axis, the longitude and the latitude
    /// fraction with respect to the Cartesian coordinates: its rows are the
    /// gradients.
    pub open spec fn inverse_jacobian(self) -> Matrix {
        from_rows(self.con_sma(), self.con_lon(), self.con_lat())
    }

    /// The covariant metric tensor, in closed form. The longitude decouples
    /// from the other two coordinates.
    pub open spec fn covariant_metric(self) -> Matrix {
        let e2 = self.ecc * self.ecc;
        let k = self.sma * self.lat;
        let rq = recip(self.root_lat);
        Matrix {
            row_x: Vector { x: 1 as real - e2 * (self.lat * self.lat), y: 0 as real, z: -(k * e2) },
            row_y: Vector {
                x: 0 as real,
                y: (self.sma * self.sma) * (self.root_lat * self.root_lat),
                z: 0 as real,
            },
            row_z: Vector {
                x: -(k * e2),
                y: 0 as real,
                z: (self.sma * self.sma) * ((self.lat * self.lat) * (rq * rq) + self.root_ecc
                    * self.root_ecc),
            },
        }
    }

    /// The volume element.
    pub open spec fn volume_element(self) -> real {
        (self.sma * self.sma) * self.root_ecc
    }
}

/// The gradient of the semimajor axis is dual to the covariant basis.
pub proof fn lemma_con_sma_dual(pt: Point)
    requires
        pt.regular(),
    ensures
        dot(pt.con_sma(), pt.cov_sma()) == 1 as real,
        dot(pt.con_sma(), pt.cov_lon()) == 0 as real,
        dot(pt.con_sma(), pt.cov_lat()) == 0 as real,
{
    let a = pt.sma;
    let c = pt.cos_lon;
    let s = pt.sin_lon;
    let h = pt.lat;
    let p = pt.root_ecc;
    let q = pt.root_lat;
    let rp = recip(p);
    let rq = recip(q);
    let one = 1 as real;
    lemma_recip(p);
    lemma_recip(q);

    // with the covariant vector of the semimajor axis
    assert((q * c) * (q * c) + (q * s) * (q * s) == (q * q) * (c * c + s * s)) by (nonlinear_arith);
    assert((q * q) * (c * c + s * s) == (q * q) * one);
    assert((h * rp) * (h * p) == (h * h) * (p * rp)) by (nonlinear_arith);
    assert((h * h) * (p * rp) == (h * h) * one);

    // with the covariant vector of the longitude
    let aq = a * q;
    assert((q * c) * (-(aq * s)) + (q * s) * (aq * c) == 0 as real) by (nonlinear_arith);

    // with the covariant vector of the latitude fraction
    let k = a * h;
    assert((q * c) * (-((k * c) * rq)) == -((k * (c * c)) * (q * rq))) by (nonlinear_arith);
    assert((q * s) * (-((k * s) * rq)) == -((k * (s * s)) * (q * rq))) by (nonlinear_arith);
    assert((k * (c * c)) * (q * rq) == (k * (c * c)) * one);
    assert((k * (s * s)) * (q * rq) == (k * (s * s)) * one);
    assert(k * (c * c) + k * (s * s) == k * (c * c + s * s)) by (nonlinear_arith);
    assert(k * (c * c + s * s) == k * one);
    assert((h * rp) * (a * p) == (a * h) * (p * rp)) by (nonlinear_arith);
    assert((a * h) * (p * rp) == (a * h) * one);
}

/// The gradient of the longitude is dual to the covariant basis.
pub proof fn lemma_con_lon_dual(pt: Point)
    requires
        pt.regular(),
    ensures
        dot(pt.con_lon(), pt.cov_sma()) == 0 as real,
        dot(pt.con_lon(), pt.cov_lon()) == 1 as real,
        dot(pt.con_lon(), pt.cov_lat()) == 0 as real,
{
    let a = pt.sma;
    let c = pt.cos_lon;
    let s = pt.sin_lon;
    let h = pt.lat;
    let p = pt.root_ecc;
    let q = pt.root_lat;
    let ra = recip(a);
    let rq = recip(q);
    let r = ra * rq;
    let aq = a * q;
    let one = 1 as real;
    let zero = 0 as real;
    lemma_recip(a);
    lemma_recip(q);

    // with the covariant vector of the semimajor axis
    assert((-(s * r)) * (q * c) + (c * r) * (q * s) == 0 as real) by (nonlinear_arith);

    // with the covariant vector of the longitude
    assert((-(s * r)) * (-(aq * s)) + (c * r) * (aq * c) == (aq * r) * (c * c + s * s))
        by (nonlinear_arith);
    assert((a * q) * (ra * rq) == (a * ra) * (q * rq)) by (nonlinear_arith);
    assert((a * ra) * (q * rq) == one * one);
    assert((aq * r) * (c * c + s * s) == one * one);

    // with the covariant vector of the latitude fraction
    let kc = (a * h) * c;
    let ks = (a * h) * s;
    let k = a * h;
    assert((-(s * r)) * (-(kc * rq)) == (r * rq) * (s * kc)) by (nonlinear_arith);
    assert((c * r) * (-(ks * rq)) == -((r * rq) * (c * ks))) by (nonlinear_arith);
    assert(s * (k * c) == c * (k * s)) by (nonlinear_arith);
    assert((r * rq) * (s * kc) == (r * rq) * (c * ks));
    assert(zero * (a * p) == zero);
}

/// The gradient of the latitude fraction is dual to the covariant basis.
pub proof fn lemma_con_lat_dual(pt: Point)
    requires
        pt.regular(),
    ensures
        dot(pt.con_lat(), pt.cov_sma()) == 0 as real,
        dot(pt.con_lat(), pt.cov_lon()) == 0 as real,
        dot(pt.con_lat(), pt.cov_lat()) == 1 as real,
{
    let a = pt.sma;
    let c = pt.cos_lon;
    let s = pt.sin_lon;
    let h = pt.lat;
    let p = pt.root_ecc;
    let q = pt.root_lat;
    let ra = recip(a);
    let rp = recip(p);
    let rq = recip(q);
    let one = 1 as real;
    let zero = 0 as real;
    lemma_recip(a);
    lemma_recip(p);
    lemma_recip(q);
    let b = h * q;
    let bc = b * c;
    let bs = b * s;
    let qq = q * q;
    let z = ra * rp;

    // with the covariant vector of the semimajor axis
    let m = (b * q) * ra;
    assert((-((b * c) * ra)) * (q * c) == -(((b * q) * ra) * (c * c))) by (nonlinear_arith);
    assert((-((b * s) * ra)) * (q * s) == -(((b * q) * ra) * (s * s))) by (nonlinear_arith);
    assert(m * (c * c) + m * (s * s) == m * (c * c + s * s)) by (nonlinear_arith);
    assert(m * (c * c + s * s) == m * one);
    assert((qq * z) * (h * p) == (qq * h) * (z * p)) by (nonlinear_arith);
    assert((ra * rp) * p == ra * (p * rp)) by (nonlinear_arith);
    assert(ra * (p * rp) == ra * one);
    assert((qq * h) * (z * p) == (qq * h) * ra);
    assert((h * q) * q == (q * q) * h) by (nonlinear_arith);
    assert((b * q) * ra == (qq * h) * ra);

    // with the covariant vector of the longitude
    let aq = a * q;
    assert((-(bc * ra)) * (-(aq * s)) == (ra * aq) * (bc * s)) by (nonlinear_arith);
    assert((-(bs * ra)) * (aq * c) == -((ra * aq) * (bs * c))) by (nonlinear_arith);
    assert((b * c) * s == (b * s) * c) by (nonlinear_arith);
    assert((ra * aq) * (bc * s) == (ra * aq) * (bs * c));
    assert((qq * z) * zero == zero);

    // with the covariant vector of the latitude fraction
    let k = a * h;
    let kc = k * c;
    let ks = k * s;
    let r = ra * rq;
    let n = b * k;
    assert((-(bc * ra)) * (-(kc * rq)) == (bc * kc) * (ra * rq)) by (nonlinear_arith);
    assert((-(bs * ra)) * (-(ks * rq)) == (bs * ks) * (ra * rq)) by (nonlinear_arith);
    assert((b * c) * (k * c) == (b * k) * (c * c)) by (nonlinear_arith);
    assert((b * s) * (k * s) == (b * k) * (s * s)) by (nonlinear_arith);
    assert((bc * kc) * r == (n * (c * c)) * r);
    assert((bs * ks) * r == (n * (s * s)) * r);
    assert((n * (c * c)) * r + (n * (s * s)) * r == (n * r) * (c * c + s * s)) by (nonlinear_arith);
    assert((n * r) * (c * c + s * s) == (n * r) * one);
    assert((b * k) * (ra * rq) == (k * ra) * (b * rq)) by (nonlinear_arith);
    assert((a * h) * ra == h * (a * ra)) by (nonlinear_arith);
    assert(h * (a * ra) == h * one);
    assert((h * q) * rq == h * (q * rq)) by (nonlinear_arith);
    assert(h * (q * rq) == h * one);
    assert((k * ra) * (b * rq) == h * h);
    let ap = a * p;
    assert((qq * z) * ap == qq * (z * ap)) by (nonlinear_arith);
    assert((ra * rp) * (a * p) == (a * ra) * (p * rp)) by (nonlinear_arith);
    assert((a * ra) * (p * rp) == one * one);
    assert(qq * (z * ap) == qq * one);
}

/// The two bases are dual to each other: the dot product of a gradient with
/// a derivative of the position is one for the same coordinate and zero for
/// two different ones. Written as matrices, the gradients as rows times the
/// derivatives as columns give the identity.
pub proof fn lemma_basis_duality(pt: Point)
    requires
        pt.regular(),
    ensures
        dot(pt.con_sma(), pt.cov_sma()) == 1 as real,
        dot(pt.con_sma(), pt.cov_lon()) == 0 as real,
        dot(pt.con_sma(), pt.cov_lat()) == 0 as real,
        dot(pt.con_lon(), pt.cov_sma()) == 0 as real,
        dot(pt.con_lon(), pt.cov_lon()) == 1 as real,
        dot(pt.con_lon(), pt.cov_lat()) == 0 as real,
        dot(pt.con_lat(), pt.cov_sma()) == 0 as real,
        dot(pt.con_lat(), pt.cov_lon()) == 0 as real,
        dot(pt.con_lat(), pt.cov_lat()) == 1 as real,
{
    lemma_con_sma_dual(pt);
    lemma_con_lon_dual(pt);
    lemma_con_lat_dual(pt);
}

/// The first row of the Jacobian times the inverse Jacobian.
pub proof fn lemma_jacobian_row_x(pt: Point)
    requires
        pt.regular(),
    ensures
        product(pt.jacobian(), pt.inverse_jacobian()).row_x == identity().row_x,
{
    let a = pt.sma;
    let c = pt.cos_lon;
    let s = pt.sin_lon;
    let h = pt.lat;
    let p = pt.root_ecc;
    let q = pt.root_lat;
    let ra = recip(a);
    let rp = recip(p);
    let rq = recip(q);
    let one = 1 as real;
    lemma_recip(a);
    lemma_recip(p);
    lemma_recip(q);
    let aq = a * q;
    let r = ra * rq;
    let k = a * h;
    let b = h * q;
    let kc = k * c;
    let bc = b * c;
    let bs = b * s;
    let qq = q * q;
    let hh = h * h;
    let z = ra * rp;
    assert((a * q) * (ra * rq) == (a * ra) * (q * rq)) by (nonlinear_arith);
    assert((a * ra) * (q * rq) == one * one);
    assert((k * b) * (rq * ra) == (k * ra) * (b * rq)) by (nonlinear_arith);
    assert((a * h) * ra == h * (a * ra)) by (nonlinear_arith);
    assert(h * (a * ra) == h * one);
    assert((h * q) * rq == h * (q * rq)) by (nonlinear_arith);
    assert(h * (q * rq) == h * one);
    assert((k * ra) * (b * rq) == h * h);
    let w = (k * b) * (rq * ra);
    assert(w == hh);

    // along x
    let cc = c * c;
    assert((q * c) * (q * c) == (q * q) * (c * c)) by (nonlinear_arith);
    assert((-(aq * s)) * (-(s * r)) == (aq * r) * (s * s)) by (nonlinear_arith);
    assert((aq * r) * (s * s) == one * (s * s));
    assert((-(kc * rq)) * (-(bc * ra)) == (kc * bc) * (rq * ra)) by (nonlinear_arith);
    assert((k * c) * (b * c) == (k * b) * (c * c)) by (nonlinear_arith);
    assert((kc * bc) * (rq * ra) == ((k * b) * cc) * (rq * ra));
    assert(((k * b) * cc) * (rq * ra) == ((k * b) * (rq * ra)) * cc) by (nonlinear_arith);
    assert(w * cc == hh * cc);
    assert(qq * cc + hh * cc == (qq + hh) * cc) by (nonlinear_arith);
    assert((qq + hh) * cc == one * cc);

    // along y
    let cs = c * s;
    assert((q * c) * (q * s) == (q * q) * (c * s)) by (nonlinear_arith);
    assert((-(aq * s)) * (c * r) == -((aq * r) * (c * s))) by (nonlinear_arith);
    assert((aq * r) * (c * s) == one * (c * s));
    assert((-(kc * rq)) * (-(bs * ra)) == (kc * bs) * (rq * ra)) by (nonlinear_arith);
    assert((k * c) * (b * s) == (k * b) * (c * s)) by (nonlinear_arith);
    assert((kc * bs) * (rq * ra) == ((k * b) * cs) * (rq * ra));
    assert(((k * b) * cs) * (rq * ra) == ((k * b) * (rq * ra)) * cs) by (nonlinear_arith);
    assert(w * cs == hh * cs);
    assert(qq * cs + hh * cs == (qq + hh) * cs) by (nonlinear_arith);
    assert((qq + hh) * cs == one * cs);

    // along z
    let hc = h * c;
    assert((-(kc * rq)) * (qq * z) == -((kc * z) * (qq * rq))) by (nonlinear_arith);
    assert((q * q) * rq == q * (q * rq)) by (nonlinear_arith);
    assert(q * (q * rq) == q * one);
    assert((a * h) * c == a * (h * c)) by (nonlinear_arith);
    assert((a * hc) * (ra * rp) == (a * ra) * (hc * rp)) by (nonlinear_arith);
    assert((a * ra) * (hc * rp) == one * (hc * rp));
    assert(kc * z == hc * rp);
    assert((kc * z) * (qq * rq) == (hc * rp) * q);
    assert((q * c) * (h * rp) == ((h * c) * rp) * q) by (nonlinear_arith);
    assert((-(aq * s)) * (0 as real) == 0 as real);
}

/// The second row of the Jacobian times the inverse Jacobian.
pub proof fn lemma_jacobian_row_y(pt: Point)
    requires
        pt.regular(),
    ensures
        product(pt.jacobian(), pt.inverse_jacobian()).row_y == identity().row_y,
{
    let a = pt.sma;
    let c = pt.cos_lon;
    let s = pt.sin_lon;
    let h = pt.lat;
    let p = pt.root_ecc;
    let q = pt.root_lat;
    let ra = recip(a);
    let rp = recip(p);
    let rq = recip(q);
    let one = 1 as real;
    lemma_recip(a);
    lemma_recip(p);
    lemma_recip(q);
    let aq = a * q;
    let r = ra * rq;
    let k = a * h;
    let b = h * q;
    let ks = k * s;
    let bc = b * c;
    let bs = b * s;
    let qq = q * q;
    let hh = h * h;
    let z = ra * rp;
    assert((a * q) * (ra * rq) == (a * ra) * (q * rq)) by (nonlinear_arith);
    assert((a * ra) * (q * rq) == one * one);
    assert((k * b) * (rq * ra) == (k * ra) * (b * rq)) by (nonlinear_arith);
    assert((a * h) * ra == h * (a * ra)) by (nonlinear_arith);
    assert(h * (a * ra) == h * one);
    assert((h * q) * rq == h * (q * rq)) by (nonlinear_arith);
    assert(h * (q * rq) == h * one);
    assert((k * ra) * (b * rq) == h * h);
    let w = (k * b) * (rq * ra);
    assert(w == hh);

    // along x
    let cs = c * s;
    assert((q * s) * (q * c) == (q * q) * (c * s)) by (nonlinear_arith);
    assert((aq * c) * (-(s * r)) == -((aq * r) * (c * s))) by (nonlinear_arith);
    assert((aq * r) * (c * s) == one * (c * s));
    assert((-(ks * rq)) * (-(bc * ra)) == (ks * bc) * (rq * ra)) by (nonlinear_arith);
    assert((k * s) * (b * c) == (k * b) * (c * s)) by (nonlinear_arith);
    assert((ks * bc) * (rq * ra) == ((k * b) * cs) * (rq * ra));
    assert(((k * b) * cs) * (rq * ra) == ((k * b) * (rq * ra)) * cs) by (nonlinear_arith);
    assert(w * cs == hh * cs);
    assert(qq * cs + hh * cs == (qq + hh) * cs) by (nonlinear_arith);
    assert((qq + hh) * cs == one * cs);

    // along y
    let ss = s * s;
    assert((q * s) * (q * s) == (q * q) * (s * s)) by (nonlinear_arith);
    assert((aq * c) * (c * r) == (aq * r) * (c * c)) by (nonlinear_arith);
    assert((aq * r) * (c * c) == one * (c * c));
    assert((-(ks * rq)) * (-(bs * ra)) == (ks * bs) * (rq * ra)) by (nonlinear_arith);
    assert((k * s) * (b * s) == (k * b) * (s * s)) by (nonlinear_arith);
    assert((ks * bs) * (rq * ra) == ((k * b) * ss) * (rq * ra));
    assert(((k * b) * ss) * (rq * ra) == ((k * b) * (rq * ra)) * ss) by (nonlinear_arith);
    assert(w * ss == hh * ss);
    assert(qq * ss + hh * ss == (qq + hh) * ss) by (nonlinear_arith);
    assert((qq + hh) * ss == one * ss);

    // along z
    let hs = h * s;
    assert((-(ks * rq)) * (qq * z) == -((ks * z) * (qq * rq))) by (nonlinear_arith);
    assert((q * q) * rq == q * (q * rq)) by (nonlinear_arith);
    assert(q * (q * rq) == q * one);
    assert((a * h) * s == a * (h * s)) by (nonlinear_arith);
    assert((a * hs) * (ra * rp) == (a * ra) * (hs * rp)) by (nonlinear_arith);
    assert((a * ra) * (hs * rp) == one * (hs * rp));
    assert(ks * z == hs * rp);
    assert((ks * z) * (qq * rq) == (hs * rp) * q);
    assert((q * s) * (h * rp) == ((h * s) * rp) * q) by (nonlinear_arith);
    assert((aq * c) * (0 as real) == 0 as real);
}

/// The third row of the Jacobian times the inverse Jacobian.
pub proof fn lemma_jacobian_row_z(pt: Point)
    requires
        pt.regular(),
    ensures
        product(pt.jacobian(), pt.inverse_jacobian()).row_z == identity().row_z,
{
    let a = pt.sma;
    let c = pt.cos_lon;
    let s = pt.sin_lon;
    let h = pt.lat;
    let p = pt.root_ecc;
    let q = pt.root_lat;
    let ra = recip(a);
    let rp = recip(p);
    let rq = recip(q);
    let one = 1 as real;
    let zero = 0 as real;
    lemma_recip(a);
    lemma_recip(p);
    lemma_recip(q);
    let r = ra * rq;
    let b = h * q;
    let bc = b * c;
    let bs = b * s;
    let qq = q * q;
    let z = ra * rp;

    // along x
    assert((a * p) * (-(bc * ra)) == -((a * ra) * (p * bc))) by (nonlinear_arith);
    assert((a * ra) * (p * bc) == one * (p * bc));
    assert((h * p) * (q * c) == p * ((h * q) * c)) by (nonlinear_arith);
    assert(zero * (-(s * r)) == zero);

    // along y
    assert((a * p) * (-(bs * ra)) == -((a * ra) * (p * bs))) by (nonlinear_arith);
    assert((a * ra) * (p * bs) == one * (p * bs));
    assert((h * p) * (q * s) == p * ((h * q) * s)) by (nonlinear_arith);
    assert(zero * (c * r) == zero);

    // along z
    assert((h * p) * (h * rp) == (h * h) * (p * rp)) by (nonlinear_arith);
    assert((h * h) * (p * rp) == (h * h) * one);
    assert((a * p) * (qq * z) == qq * (z * (a * p))) by (nonlinear_arith);
    assert((ra * rp) * (a * p) == (a * ra) * (p * rp)) by (nonlinear_arith);
    assert((a * ra) * (p * rp) == one * one);
    assert(qq * (z * (a * p)) == qq * one);
    assert(zero * zero == zero);
}

/// The Jacobian and the inverse Jacobian are inverse to each other, in
/// either order.
pub proof fn lemma_jacobian_inverse(pt: Point)
    requires
        pt.regular(),
    ensures
        product(pt.jacobian(), pt.inverse_jacobian()) == identity(),
        product(pt.inverse_jacobian(), pt.jacobian()) == identity(),
{
    lemma_jacobian_row_x(pt);
    lemma_jacobian_row_y(pt);
    lemma_jacobian_row_z(pt);
    lemma_basis_duality(pt);
}

/// The derivative of the position with respect to the semimajor axis is
/// radial: the position is that vector scaled by the semimajor axis, and
/// their cross product vanishes.
pub proof fn lemma_radial(pt: Point)
    ensures
        pt.cartesian() == scale(pt.sma, pt.cov_sma()),
        cross(pt.cartesian(), pt.cov_sma()) == zero_vector(),
{
    let a = pt.sma;
    let c = pt.cos_lon;
    let s = pt.sin_lon;
    let h = pt.lat;
    let p = pt.root_ecc;
    let q = pt.root_lat;
    let vx = q * c;
    let vy = q * s;
    let vz = h * p;
    assert((a * q) * c == a * (q * c)) by (nonlinear_arith);
    assert((a * q) * s == a * (q * s)) by (nonlinear_arith);
    assert((a * h) * p == a * (h * p)) by (nonlinear_arith);
    assert((a * vy) * vz - (a * vz) * vy == 0 as real) by (nonlinear_arith);
    assert((a * vz) * vx - (a * vx) * vz == 0 as real) by (nonlinear_arith);
    assert((a * vx) * vy - (a * vy) * vx == 0 as real) by (nonlinear_arith);
}

/// The coordinates are recovered from the Cartesian point `(x, y, z)`: the
/// semimajor axis is the root of `x*x + y*y + z*z / (p*p)`, the latitude
/// fraction is `z / (a*p)`, and the cosine and sine of the longitude are
/// `x / (a*q)` and `y / (a*q)`.
pub proof fn lemma_round_trip(pt: Point)
    requires
        pt.regular(),
    ensures
        ({
            let v = pt.cartesian();
            let rp = recip(pt.root_ecc);
            let ra = recip(pt.sma);
            let rq = recip(pt.root_lat);
            &&& v.x * v.x + v.y * v.y + (v.z * v.z) * (rp * rp) == pt.sma * pt.sma
            &&& v.z * (ra * rp) == pt.lat
            &&& v.x * (ra * rq) == pt.cos_lon
            &&& v.y * (ra * rq) == pt.sin_lon
        }),
{
    let a = pt.sma;
    let c = pt.cos_lon;
    let s = pt.sin_lon;
    let h = pt.lat;
    let p = pt.root_ecc;
    let q = pt.root_lat;
    let ra = recip(a);
    let rp = recip(p);
    let rq = recip(q);
    let one = 1 as real;
    lemma_recip(a);
    lemma_recip(p);
    lemma_recip(q);
    let aq = a * q;
    let k = a * h;
    let r = ra * rq;
    let aa = a * a;
    let m = (a * a) * (h * h);

    // the semimajor axis
    assert((aq * c) * (aq * c) + (aq * s) * (aq * s) == (aq * aq) * (c * c + s * s))
        by (nonlinear_arith);
    assert((aq * aq) * (c * c + s * s) == (aq * aq) * one);
    assert((a * q) * (a * q) == (a * a) * (q * q)) by (nonlinear_arith);
    assert(((a * h) * p) * ((a * h) * p) == ((a * a) * (h * h)) * (p * p)) by (nonlinear_arith);
    assert((m * (p * p)) * (rp * rp) == m * ((p * rp) * (p * rp))) by (nonlinear_arith);
    assert(m * ((p * rp) * (p * rp)) == m * (one * one));
    assert(aa * (q * q) + aa * (h * h) == aa * (q * q + h * h)) by (nonlinear_arith);
    assert(aa * (q * q + h * h) == aa * one);

    // the latitude fraction
    assert((k * p) * (ra * rp) == (k * ra) * (p * rp)) by (nonlinear_arith);
    assert((a * h) * ra == h * (a * ra)) by (nonlinear_arith);
    assert(h * (a * ra) == h * one);
    assert((k * ra) * (p * rp) == h * one);

    // the longitude
    assert((a * q) * (ra * rq) == (a * ra) * (q * rq)) by (nonlinear_arith);
    assert((a * ra) * (q * rq) == one * one);
    assert((aq * c) * r == (aq * r) * c) by (nonlinear_arith);
    assert((aq * s) * r == (aq * r) * s) by (nonlinear_arith);
    assert((aq * r) * c == one * c);
    assert((aq * r) * s == one * s);
}

/// The squared length of the derivative with respect to the semimajor axis.
pub proof fn lemma_gram_sma_sma(pt: Point)
    requires
        pt.regular(),
    ensures
        dot(pt.cov_sma(), pt.cov_sma()) == pt.covariant_metric().row_x.x,
{
    let c = pt.cos_lon;
    let s = pt.sin_lon;
    let h = pt.lat;
    let p = pt.root_ecc;
    let q = pt.root_lat;
    let e2 = pt.ecc * pt.ecc;
    let one = 1 as real;
    lemma_recip(q);
    let hh = h * h;
    let pp = p * p;
    assert((q * c) * (q * c) + (q * s) * (q * s) == (q * q) * (c * c + s * s)) by (nonlinear_arith);
    assert((q * q) * (c * c + s * s) == (q * q) * one);
    assert((h * p) * (h * p) == (h * h) * (p * p)) by (nonlinear_arith);
    assert(hh * pp == hh * (one - e2));
    assert(hh * (1 as real - e2) == hh - e2 * hh) by (nonlinear_arith);
}

/// The derivatives with respect to the semimajor axis and the longitude are
/// orthogonal.
pub proof fn lemma_gram_sma_lon(pt: Point)
    requires
        pt.regular(),
    ensures
        dot(pt.cov_sma(), pt.cov_lon()) == pt.covariant_metric().row_x.y,
{
    let a = pt.sma;
    let c = pt.cos_lon;
    let s = pt.sin_lon;
    let h = pt.lat;
    let p = pt.root_ecc;
    let q = pt.root_lat;
    let zero = 0 as real;
    lemma_recip(q);
    let aq = a * q;
    assert((q * c) * (-(aq * s)) + (q * s) * (aq * c) == 0 as real) by (nonlinear_arith);
    assert((h * p) * zero == zero);
}

/// The dot product of the derivatives with respect to the semimajor axis and
/// the latitude fraction.
pub proof fn lemma_gram_sma_lat(pt: Point)
    requires
        pt.regular(),
    ensures
        dot(pt.cov_sma(), pt.cov_lat()) == pt.covariant_metric().row_x.z,
{
    let a = pt.sma;
    let c = pt.cos_lon;
    let s = pt.sin_lon;
    let h = pt.lat;
    let p = pt.root_ecc;
    let q = pt.root_lat;
    let e2 = pt.ecc * pt.ecc;
    let rq = recip(q);
    let one = 1 as real;
    lemma_recip(q);
    let k = a * h;
    let pp = p * p;
    assert((q * c) * (-((k * c) * rq)) == -((k * (c * c)) * (q * rq))) by (nonlinear_arith);
    assert((q * s) * (-((k * s) * rq)) == -((k * (s * s)) * (q * rq))) by (nonlinear_arith);
    assert((k * (c * c)) * (q * rq) == (k * (c * c)) * one);
    assert((k * (s * s)) * (q * rq) == (k * (s * s)) * one);
    assert(k * (c * c) + k * (s * s) == k * (c * c + s * s)) by (nonlinear_arith);
    assert(k * (c * c + s * s) == k * one);
    assert((h * p) * (a * p) == (a * h) * (p * p)) by (nonlinear_arith);
    assert(k * pp == k * (one - e2));
    assert(k * (1 as real - e2) == k - k * e2) by (nonlinear_arith);
}

/// The squared length of the derivative with respect to the longitude.
pub proof fn lemma_gram_lon_lon(pt: Point)
    requires
        pt.regular(),
    ensures
        dot(pt.cov_lon(), pt.cov_lon()) == pt.covariant_metric().row_y.y,
{
    let a = pt.sma;
    let c = pt.cos_lon;
    let s = pt.sin_lon;
    let q = pt.root_lat;
    let one = 1 as real;
    let zero = 0 as real;
    lemma_recip(q);
    let aq = a * q;
    assert((-(aq * s)) * (-(aq * s)) + (aq * c) * (aq * c) == (aq * aq) * (c * c + s * s))
        by (nonlinear_arith);
    assert((aq * aq) * (c * c + s * s) == (aq * aq) * one);
    assert((a * q) * (a * q) == (a * a) * (q * q)) by (nonlinear_arith);
    assert(zero * zero == zero);
}

/// The derivatives with respect to the longitude and the latitude fraction
/// are orthogonal.
pub proof fn lemma_gram_lon_lat(pt: Point)
    requires
        pt.regular(),
    ensures
        dot(pt.cov_lon(), pt.cov_lat()) == pt.covariant_metric().row_y.z,
{
    let a = pt.sma;
    let c = pt.cos_lon;
    let s = pt.sin_lon;
    let h = pt.lat;
    let p = pt.root_ecc;
    let q = pt.root_lat;
    let rq = recip(q);
    let zero = 0 as real;
    lemma_recip(q);
    let aq = a * q;
    let k = a * h;
    let kc = k * c;
    let ks = k * s;
    assert((-(aq * s)) * (-(kc * rq)) == (aq * rq) * (s * kc)) by (nonlinear_arith);
    assert((aq * c) * (-(ks * rq)) == -((aq * rq) * (c * ks))) by (nonlinear_arith);
    assert(s * (k * c) == c * (k * s)) by (nonlinear_arith);
    assert((aq * rq) * (s * kc) == (aq * rq) * (c * ks));
    assert(zero * (a * p) == zero);
}

/// The squared length of the derivative with respect to the latitude
/// fraction.
pub proof fn lemma_gram_lat_lat(pt: Point)
    requires
        pt.regular(),
    ensures
        dot(pt.cov_lat(), pt.cov_lat()) == pt.covariant_metric().row_z.z,
{
    let a = pt.sma;
    let c = pt.cos_lon;
    let s = pt.sin_lon;
    let h = pt.lat;
    let p = pt.root_ecc;
    let q = pt.root_lat;
    let rq = recip(q);
    let one = 1 as real;
    lemma_recip(q);
    let k = a * h;
    let kc = k * c;
    let ks = k * s;
    let hh = h * h;
    let pp = p * p;
    let rr = rq * rq;
    let aa = a * a;
    let kk = k * k;
    assert((-(kc * rq)) * (-(kc * rq)) == (kc * kc) * (rq * rq)) by (nonlinear_arith);
    assert((-(ks * rq)) * (-(ks * rq)) == (ks * ks) * (rq * rq)) by (nonlinear_arith);
    assert((k * c) * (k * c) == (k * k) * (c * c)) by (nonlinear_arith);
    assert((k * s) * (k * s) == (k * k) * (s * s)) by (nonlinear_arith);
    assert((kc * kc) * rr == (kk * (c * c)) * rr);
    assert((ks * ks) * rr == (kk * (s * s)) * rr);
    assert((kk * (c * c)) * rr + (kk * (s * s)) * rr == (kk * rr) * (c * c + s * s))
        by (nonlinear_arith);
    assert((kk * rr) * (c * c + s * s) == (kk * rr) * one);
    assert((a * h) * (a * h) == (a * a) * (h * h)) by (nonlinear_arith);
    assert(kk * rr == (aa * hh) * rr);
    assert((a * p) * (a * p) == (a * a) * (p * p)) by (nonlinear_arith);
    assert((aa * hh) * rr + aa * pp == aa * (hh * rr + pp)) by (nonlinear_arith);
}

/// The covariant metric tensor holds the dot products of the derivatives
/// of the position.
pub proof fn lemma_covariant_metric(pt: Point)
    requires
        pt.regular(),
    ensures
        pt.covariant_metric() == product(transpose(pt.jacobian()), pt.jacobian()),
{
    lemma_gram_sma_sma(pt);
    lemma_gram_sma_lon(pt);
    lemma_gram_sma_lat(pt);
    lemma_gram_lon_lon(pt);
    lemma_gram_lon_lat(pt);
    lemma_gram_lat_lat(pt);
    lemma_dot_commutes(pt.cov_lon(), pt.cov_sma());
    lemma_dot_commutes(pt.cov_lat(), pt.cov_sma());
    lemma_dot_commutes(pt.cov_lat(), pt.cov_lon());
}

} // verus!
