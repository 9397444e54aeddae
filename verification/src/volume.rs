//! The volume element of the oblate spheroidal frame.

use vstd::prelude::*;
use crate::geometry::Point;
use crate::linear_algebra::determinant;
use crate::linear_algebra::lemma_recip;
use crate::linear_algebra::recip;

verus! {

/// The volume element is the root of the determinant of the covariant
/// metric tensor.
pub proof fn lemma_volume_element(pt: Point)
    requires
        pt.regular(),
    ensures
        pt.volume_element() >= 0 as real,
        pt.volume_element() * pt.volume_element() == determinant(pt.covariant_metric()),
{
    let a = pt.sma;
    let h = pt.lat;
    let p = pt.root_ecc;
    let q = pt.root_lat;
    let e2 = pt.ecc * pt.ecc;
    let rq = recip(q);
    let one = 1 as real;
    let zero = 0 as real;
    lemma_recip(q);
    let k = a * h;
    let hh = h * h;
    let pp = p * p;
    let qq = q * q;
    let rr = rq * rq;
    let aa = a * a;
    let a4 = aa * aa;
    let ee = e2 * e2;
    let gaa = one - e2 * hh;
    let gah = -(k * e2);
    let gll = aa * qq;
    let t = hh * rr + pp;
    let ghh = aa * t;
    let y = hh + pp * qq;

    assert((a * a) * p >= 0 as real) by (nonlinear_arith)
        requires
            p > 0 as real,
    ;
    assert(((a * a) * p) * ((a * a) * p) == ((a * a) * (a * a)) * (p * p)) by (nonlinear_arith);

    assert((aa * qq) * (aa * t) == (aa * aa) * (qq * t)) by (nonlinear_arith);
    assert(qq * (hh * rr + pp) == hh * (qq * rr) + pp * qq) by (nonlinear_arith);
    assert((q * q) * (rq * rq) == (q * rq) * (q * rq)) by (nonlinear_arith);
    assert((q * rq) * (q * rq) == one * one);
    assert(hh * (qq * rr) == hh * one);
    assert(qq * t == y);
    assert(gll * ghh == a4 * y);
    assert(gaa * (a4 * y) == a4 * (gaa * y)) by (nonlinear_arith);

    let ke = k * e2;
    assert((-ke) * (-(gll * (-ke))) == -(gll * (ke * ke))) by (nonlinear_arith);
    assert((k * e2) * (k * e2) == (k * k) * (e2 * e2)) by (nonlinear_arith);
    assert((a * h) * (a * h) == (a * a) * (h * h)) by (nonlinear_arith);
    assert(ke * ke == (aa * hh) * ee);
    assert((aa * qq) * ((aa * hh) * ee) == (aa * aa) * ((qq * hh) * ee)) by (nonlinear_arith);
    assert(gll * (ke * ke) == a4 * ((qq * hh) * ee));

    let u = gaa * y;
    let w = (qq * hh) * ee;
    assert(a4 * u - a4 * w == a4 * (u - w)) by (nonlinear_arith);
    assert((1 as real - e2 * hh) * (hh + (1 as real - e2) * (1 as real - hh)) - (((1 as real - hh)
        * hh) * (e2 * e2)) == 1 as real - e2) by (nonlinear_arith);
    assert(pp * qq == (one - e2) * (one - hh));
    assert(qq * hh == (one - hh) * hh);
    assert(w == ((one - hh) * hh) * ee);
    assert(u == (one - e2 * hh) * (hh + (one - e2) * (one - hh)));
    assert(u - w == pp);
    assert(a4 * (u - w) == a4 * pp);

    assert(zero * zero == zero);
    assert(gaa * (gll * ghh - zero * zero) == gaa * (gll * ghh));
    assert(gah * (zero * zero - gll * gah) == gah * (-(gll * gah)));
    assert(zero * (zero * gah - zero * ghh) == zero);
}

} // verus!
