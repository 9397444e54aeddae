//! The two metric tensors of the oblate spheroidal frame are inverse to
//! each other.

use vstd::prelude::*;
use crate::geometry::Point;
use crate::linear_algebra::identity;
use crate::linear_algebra::lemma_recip;
use crate::linear_algebra::product;
use crate::linear_algebra::recip;
use crate::linear_algebra::Matrix;
use crate::linear_algebra::Vector;

verus! {

/// The contravariant metric tensor, in closed form.
pub open spec fn contravariant_metric(pt: Point) -> Matrix {
    let e2 = pt.ecc * pt.ecc;
    let hh = pt.lat * pt.lat;
    let qq = pt.root_lat * pt.root_lat;
    let ra = recip(pt.sma);
    let rq = recip(pt.root_lat);
    let rpp = recip(pt.root_ecc) * recip(pt.root_ecc);
    let mixed = ((pt.lat * qq) * e2) * (ra * rpp);
    Matrix {
        row_x: Vector { x: qq + hh * rpp, y: 0 as real, z: mixed },
        row_y: Vector { x: 0 as real, y: (ra * rq) * (ra * rq), z: 0 as real },
        row_z: Vector { x: mixed, y: 0 as real, z: (qq * (ra * ra)) * (hh + qq * rpp) },
    }
}

/// The square of a number times the square of its reciprocal is one.
pub proof fn lemma_unit_square(x: real, rx: real)
    requires
        x * rx == 1 as real,
    ensures
        (x * x) * (rx * rx) == 1 as real,
{
    let one = 1 as real;
    assert((x * x) * (rx * rx) == (x * rx) * (x * rx)) by (nonlinear_arith);
    assert((x * rx) * (x * rx) == one * one);
}

/// The identity on which the determinant of the covariant metric tensor
/// and the product of the two tensors rest, for `pp = 1 - e2` and
/// `qq = 1 - hh`.
pub proof fn lemma_key(e2: real, hh: real, pp: real, qq: real)
    requires
        pp == 1 as real - e2,
        qq == 1 as real - hh,
    ensures
        (1 as real - e2 * hh) * (hh + pp * qq) - (hh * qq) * (e2 * e2) == pp,
{
    let one = 1 as real;
    assert((1 as real - e2 * hh) * (hh + (1 as real - e2) * (1 as real - hh)) - ((hh * (1 as real
        - hh)) * (e2 * e2)) == 1 as real - e2) by (nonlinear_arith);
    assert(pp * qq == (one - e2) * (one - hh));
    assert(hh * qq == hh * (one - hh));
    assert((hh * qq) * (e2 * e2) == (hh * (one - hh)) * (e2 * e2));
    assert((one - e2 * hh) * (hh + pp * qq) == (one - e2 * hh) * (hh + (one - e2) * (one - hh)));
}

/// The first diagonal entry of the product of the two metric tensors.
pub proof fn lemma_metric_xx(pt: Point)
    requires
        pt.regular(),
    ensures
        product(pt.covariant_metric(), contravariant_metric(pt)).row_x.x == 1 as real,
{
    let a = pt.sma;
    let h = pt.lat;
    let p = pt.root_ecc;
    let q = pt.root_lat;
    let e2 = pt.ecc * pt.ecc;
    let ra = recip(a);
    let rp = recip(p);
    let rq = recip(q);
    let one = 1 as real;
    let zero = 0 as real;
    lemma_recip(a);
    lemma_recip(p);
    lemma_recip(q);
    let k = a * h;
    let hh = h * h;
    let qq = q * q;
    let pp = p * p;
    let ee = e2 * e2;
    let aa = a * a;
    let rr = rq * rq;
    let rpp = rp * rp;
    let raa = ra * ra;
    let x = one - e2 * hh;
    let y = hh + pp * qq;
    let hq2 = hh * qq;
    let w = hq2 * ee;
    let ke = k * e2;
    let hq = h * qq;
    let hqe = hq * e2;
    let rz = ra * rpp;
    let gaa = x;
    let gah = -ke;
    let caa = qq + hh * rpp;
    let cah = hqe * rz;
    let u = x * y;
    let pq = pp * qq;
    lemma_unit_square(p, rp);
    lemma_unit_square(q, rq);
    lemma_unit_square(a, ra);
    lemma_key(e2, hh, pp, qq);

    // the squares of the roots and of their reciprocals
    assert(pp * rpp == one);
    assert(qq * rr == one);
    assert(aa * raa == one);
    assert(x * y - hq2 * ee == pp);

    // the first entry of the contravariant tensor, from the combination y
    assert((hh + pq) * rpp == hh * rpp + pq * rpp) by (nonlinear_arith);
    assert((pp * qq) * rpp == qq * (pp * rpp)) by (nonlinear_arith);
    assert(qq * (pp * rpp) == qq * one);
    assert(y * rpp == caa);

    // the product of the two off-diagonal entries
    assert((-ke) * (hqe * rz) == -((ke * hqe) * rz)) by (nonlinear_arith);
    assert((k * e2) * (hq * e2) == (k * hq) * (e2 * e2)) by (nonlinear_arith);
    assert((a * h) * (h * qq) == a * ((h * h) * qq)) by (nonlinear_arith);
    assert(ke * hqe == (a * hq2) * ee);
    assert((a * hq2) * ee == a * (hq2 * ee)) by (nonlinear_arith);
    assert((a * w) * (ra * rpp) == (a * ra) * (w * rpp)) by (nonlinear_arith);
    assert((a * ra) * (w * rpp) == one * (w * rpp));
    assert((ke * hqe) * rz == w * rpp);
    assert(gah * cah == -(w * rpp));

    // the diagonal part
    assert(gaa * caa == x * (y * rpp));
    assert(x * (y * rpp) == (x * y) * rpp) by (nonlinear_arith);
    assert(u * rpp - w * rpp == (u - w) * rpp) by (nonlinear_arith);
    assert((u - w) * rpp == pp * rpp);
    assert(gaa * caa + zero * zero + gah * cah == one);
}

/// The last diagonal entry of the product of the two metric tensors.
pub proof fn lemma_metric_zz(pt: Point)
    requires
        pt.regular(),
    ensures
        product(pt.covariant_metric(), contravariant_metric(pt)).row_z.z == 1 as real,
{
    let a = pt.sma;
    let h = pt.lat;
    let p = pt.root_ecc;
    let q = pt.root_lat;
    let e2 = pt.ecc * pt.ecc;
    let ra = recip(a);
    let rp = recip(p);
    let rq = recip(q);
    let one = 1 as real;
    let zero = 0 as real;
    lemma_recip(a);
    lemma_recip(p);
    lemma_recip(q);
    let k = a * h;
    let hh = h * h;
    let qq = q * q;
    let pp = p * p;
    let ee = e2 * e2;
    let aa = a * a;
    let rr = rq * rq;
    let rpp = rp * rp;
    let raa = ra * ra;
    let x = one - e2 * hh;
    let y = hh + pp * qq;
    let t = hh * rr + pp;
    let v = hh + qq * rpp;
    let hq2 = hh * qq;
    let w = hq2 * ee;
    let ke = k * e2;
    let hq = h * qq;
    let hqe = hq * e2;
    let rz = ra * rpp;
    let m1 = qq * raa;
    let gah = -ke;
    let ghh = aa * t;
    let cah = hqe * rz;
    let chh = m1 * v;
    let pq = pp * qq;
    let qr = qq * rpp;
    let er = ee * rpp;
    lemma_unit_square(p, rp);
    lemma_unit_square(q, rq);
    lemma_unit_square(a, ra);
    lemma_key(e2, hh, pp, qq);

    // the squares of the roots and of their reciprocals
    assert(pp * rpp == one);
    assert(qq * rr == one);
    assert(aa * raa == one);
    assert(x * y - hq2 * ee == pp);

    // the last entry of the covariant tensor, from the combination y
    assert(qq * (hh * rr + pp) == hh * (qq * rr) + pp * qq) by (nonlinear_arith);
    assert(hh * (qq * rr) == hh * one);
    assert(qq * t == y);

    // the product of the two off-diagonal entries
    assert((-ke) * (hqe * rz) == -((ke * hqe) * rz)) by (nonlinear_arith);
    assert((k * e2) * (hq * e2) == (k * hq) * (e2 * e2)) by (nonlinear_arith);
    assert((a * h) * (h * qq) == a * ((h * h) * qq)) by (nonlinear_arith);
    assert(ke * hqe == (a * hq2) * ee);
    assert((a * hq2) * ee == a * (hq2 * ee)) by (nonlinear_arith);
    assert((a * w) * (ra * rpp) == (a * ra) * (w * rpp)) by (nonlinear_arith);
    assert((a * ra) * (w * rpp) == one * (w * rpp));
    assert((ke * hqe) * rz == w * rpp);
    assert(gah * cah == -(w * rpp));

    // the diagonal part
    assert((aa * t) * (m1 * v) == (aa * m1) * (t * v)) by (nonlinear_arith);
    assert(aa * (qq * raa) == qq * (aa * raa)) by (nonlinear_arith);
    assert(qq * (aa * raa) == qq * one);
    assert((aa * m1) * (t * v) == qq * (t * v));
    assert(qq * (t * v) == (qq * t) * v) by (nonlinear_arith);
    assert((qq * t) * v == y * v);
    assert(ghh * chh == y * v);
    assert((hh + pq) * (hh + qr) == hh * hh + hh * qr + pq * hh + pq * qr) by (nonlinear_arith);
    assert((pp * qq) * (qq * rpp) == (qq * qq) * (pp * rpp)) by (nonlinear_arith);
    assert((qq * qq) * (pp * rpp) == (qq * qq) * one);
    assert((pp * qq) * hh == (hh * qq) * pp) by (nonlinear_arith);
    assert(hh * (qq * rpp) == (hh * qq) * rpp) by (nonlinear_arith);
    assert((hq2 * ee) * rpp == hq2 * (ee * rpp)) by (nonlinear_arith);
    assert(y * v == hh * hh + hq2 * rpp + hq2 * pp + qq * qq);
    assert(hq2 * rpp + hq2 * pp - hq2 * er == hq2 * (rpp + pp - er)) by (nonlinear_arith);
    assert(rpp - (e2 * e2) * rpp == ((1 as real - e2) * (1 as real + e2)) * rpp) by (nonlinear_arith);
    assert(((one - e2) * (one + e2)) * rpp == (pp * (one + e2)) * rpp);
    assert((pp * (1 as real + e2)) * rpp == (1 as real + e2) * (pp * rpp)) by (nonlinear_arith);
    assert((one + e2) * (pp * rpp) == (one + e2) * one);
    assert(rpp + pp - er == one + one);
    assert(hq2 * (rpp + pp - er) == hq2 * (one + one));
    assert(hh * hh + qq * qq + (hh * qq) * (1 as real + 1 as real) == (hh + qq) * (hh + qq)) by (nonlinear_arith);
    assert((hh + qq) * (hh + qq) == one * one);
    assert(gah * cah + zero * zero + ghh * chh == one);
}

/// The first off-diagonal entry of the product of the two metric tensors.
pub proof fn lemma_metric_xz(pt: Point)
    requires
        pt.regular(),
    ensures
        product(pt.covariant_metric(), contravariant_metric(pt)).row_x.z == 0 as real,
{
    let a = pt.sma;
    let h = pt.lat;
    let p = pt.root_ecc;
    let q = pt.root_lat;
    let e2 = pt.ecc * pt.ecc;
    let ra = recip(a);
    let rp = recip(p);
    let rq = recip(q);
    let one = 1 as real;
    let zero = 0 as real;
    lemma_recip(a);
    lemma_recip(p);
    lemma_recip(q);
    let k = a * h;
    let hh = h * h;
    let qq = q * q;
    let pp = p * p;
    let ee = e2 * e2;
    let aa = a * a;
    let rr = rq * rq;
    let rpp = rp * rp;
    let raa = ra * ra;
    let x = one - e2 * hh;
    let y = hh + pp * qq;
    let v = hh + qq * rpp;
    let hq2 = hh * qq;
    let ke = k * e2;
    let hq = h * qq;
    let hqe = hq * e2;
    let rz = ra * rpp;
    let m1 = qq * raa;
    let gaa = x;
    let gah = -ke;
    let cah = hqe * rz;
    let chh = m1 * v;
    let hr = hqe * ra;
    let xr = x * rpp;
    lemma_unit_square(p, rp);
    lemma_unit_square(q, rq);
    lemma_unit_square(a, ra);
    lemma_key(e2, hh, pp, qq);

    // the squares of the roots and of their reciprocals
    assert(pp * rpp == one);
    assert(qq * rr == one);
    assert(aa * raa == one);
    assert(x * y - hq2 * ee == pp);

    // the first product
    assert(x * (hqe * (ra * rpp)) == (hqe * ra) * (x * rpp)) by (nonlinear_arith);

    // the second product
    assert((-ke) * (m1 * v) == -((ke * m1) * v)) by (nonlinear_arith);
    assert((k * e2) * (qq * raa) == (k * raa) * (qq * e2)) by (nonlinear_arith);
    assert((a * h) * (ra * ra) == ((a * ra) * h) * ra) by (nonlinear_arith);
    assert(((a * ra) * h) * ra == (one * h) * ra);
    assert((k * raa) * (qq * e2) == (h * ra) * (qq * e2));
    assert((h * ra) * (qq * e2) == ((h * qq) * e2) * ra) by (nonlinear_arith);
    assert(ke * m1 == hr);
    assert(gah * chh == -(hr * v));

    // their sum
    assert(hr * xr - hr * v == hr * (xr - v)) by (nonlinear_arith);
    assert((1 as real - e2 * hh) * rpp == rpp - (e2 * hh) * rpp) by (nonlinear_arith);
    assert((1 as real - hh) * rpp == rpp - hh * rpp) by (nonlinear_arith);
    assert(qq * rpp == (one - hh) * rpp);
    assert(hh * rpp - (e2 * hh) * rpp - hh == hh * ((1 as real - e2) * rpp - 1 as real)) by (nonlinear_arith);
    assert((one - e2) * rpp == pp * rpp);
    assert(hh * ((one - e2) * rpp - one) == hh * zero);
    assert(xr - v == zero);
    assert(hr * (xr - v) == hr * zero);
    assert(gaa * cah + zero * zero + gah * chh == zero);
}

/// The second off-diagonal entry of the product of the two metric tensors.
pub proof fn lemma_metric_zx(pt: Point)
    requires
        pt.regular(),
    ensures
        product(pt.covariant_metric(), contravariant_metric(pt)).row_z.x == 0 as real,
{
    let a = pt.sma;
    let h = pt.lat;
    let p = pt.root_ecc;
    let q = pt.root_lat;
    let e2 = pt.ecc * pt.ecc;
    let ra = recip(a);
    let rp = recip(p);
    let rq = recip(q);
    let one = 1 as real;
    let zero = 0 as real;
    lemma_recip(a);
    lemma_recip(p);
    lemma_recip(q);
    let k = a * h;
    let hh = h * h;
    let qq = q * q;
    let pp = p * p;
    let ee = e2 * e2;
    let aa = a * a;
    let rr = rq * rq;
    let rpp = rp * rp;
    let raa = ra * ra;
    let x = one - e2 * hh;
    let y = hh + pp * qq;
    let t = hh * rr + pp;
    let hq2 = hh * qq;
    let ke = k * e2;
    let hq = h * qq;
    let hqe = hq * e2;
    let rz = ra * rpp;
    let gah = -ke;
    let ghh = aa * t;
    let caa = qq + hh * rpp;
    let cah = hqe * rz;
    let pq = pp * qq;
    let he = h * e2;
    lemma_unit_square(p, rp);
    lemma_unit_square(q, rq);
    lemma_unit_square(a, ra);
    lemma_key(e2, hh, pp, qq);

    // the squares of the roots and of their reciprocals
    assert(pp * rpp == one);
    assert(qq * rr == one);
    assert(aa * raa == one);
    assert(x * y - hq2 * ee == pp);

    // the first entry of the contravariant tensor, from the combination y
    assert((hh + pq) * rpp == hh * rpp + pq * rpp) by (nonlinear_arith);
    assert((pp * qq) * rpp == qq * (pp * rpp)) by (nonlinear_arith);
    assert(qq * (pp * rpp) == qq * one);
    assert(y * rpp == caa);

    // the last entry of the covariant tensor, from the combination y
    assert(qq * (hh * rr + pp) == hh * (qq * rr) + pp * qq) by (nonlinear_arith);
    assert(hh * (qq * rr) == hh * one);
    assert(qq * t == y);

    // the second product
    assert((aa * t) * (hqe * rz) == (aa * rz) * (t * hqe)) by (nonlinear_arith);
    assert((a * a) * (ra * rpp) == (a * (a * ra)) * rpp) by (nonlinear_arith);
    assert((a * (a * ra)) * rpp == (a * one) * rpp);
    assert(t * ((h * qq) * e2) == (h * e2) * (qq * t)) by (nonlinear_arith);
    assert((h * e2) * (qq * t) == he * y);
    assert((aa * rz) * (t * hqe) == (a * rpp) * (he * y));
    assert((a * rpp) * (he * y) == (a * he) * (y * rpp)) by (nonlinear_arith);
    assert(a * (h * e2) == (a * h) * e2) by (nonlinear_arith);
    assert((a * he) * (y * rpp) == ke * caa);
    assert(ghh * cah == ke * caa);

    // their sum
    assert((-ke) * caa + ke * caa == 0 as real) by (nonlinear_arith);
    assert(gah * caa + zero * zero + ghh * cah == zero);
}

/// The middle diagonal entry of the product of the two metric tensors.
pub proof fn lemma_metric_yy(pt: Point)
    requires
        pt.regular(),
    ensures
        product(pt.covariant_metric(), contravariant_metric(pt)).row_y.y == 1 as real,
{
    let a = pt.sma;
    let q = pt.root_lat;
    let ra = recip(a);
    let rq = recip(q);
    let one = 1 as real;
    let zero = 0 as real;
    lemma_recip(a);
    lemma_recip(q);
    let qq = q * q;
    let aa = a * a;
    let gll = aa * qq;
    let cll = (ra * rq) * (ra * rq);
    let aq = a * q;
    let r = ra * rq;
    assert((a * a) * (q * q) == (a * q) * (a * q)) by (nonlinear_arith);
    assert((aq * aq) * (r * r) == (aq * r) * (aq * r)) by (nonlinear_arith);
    assert((a * q) * (ra * rq) == (a * ra) * (q * rq)) by (nonlinear_arith);
    assert((a * ra) * (q * rq) == one * one);
    assert((aq * r) * (aq * r) == one * one);
    assert(zero * zero + gll * cll + zero * zero == one);
}

/// The covariant and the contravariant metric tensor are inverse to each
/// other.
pub proof fn lemma_metric_inverse(pt: Point)
    requires
        pt.regular(),
    ensures
        product(pt.covariant_metric(), contravariant_metric(pt)) == identity(),
{
    lemma_metric_xx(pt);
    lemma_metric_xz(pt);
    lemma_metric_yy(pt);
    lemma_metric_zx(pt);
    lemma_metric_zz(pt);
}

} // verus!
