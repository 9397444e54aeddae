//! Validated oblate spheroidal coordinates.
//!
//! The spheroid is given by its eccentricity and semimajor axis; a point on
//! it by a longitude, an angle in radians measured from the x-axis, and a
//! latitude fraction, the height along the polar axis as a fraction of the
//! semiminor axis. All four are binary64 patterns.

use vstd::prelude::*;
use vstd::arithmetic::power2::pow2;
use crate::binary64::MINUS_ONE;
use crate::binary64::MINUS_PI;
use crate::binary64::ONE;
use crate::binary64::PI;
use crate::binary64::ZERO;
use crate::binary64::le;
use crate::binary64::lt;
use crate::binary64::is_nan;
use crate::binary64::lemma_one_is_unit;
use crate::binary64::lemma_order_by_rank;
use crate::binary64::scaled_value;
use crate::binary64::less_or_equal;
use crate::binary64::less_than;

verus! {

/// A parameter outside its range, with the pattern that was given.
#[derive(Clone, Copy, Debug, PartialEq, Eq, Structural)]
pub enum InvalidParameter {
    Eccentricity(u64),
    Semimajor(u64),
    Longitude(u64),
    Latitude(u64),
}

impl InvalidParameter {
    /// The pattern that was rejected.
    pub open spec fn rejected(self) -> u64 {
        match self {
            InvalidParameter::Eccentricity(bits) => bits,
            InvalidParameter::Semimajor(bits) => bits,
            InvalidParameter::Longitude(bits) => bits,
            InvalidParameter::Latitude(bits) => bits,
        }
    }

    /// The text that introduces the rejected value in a message.
    pub open spec fn label_text(self) -> Seq<char> {
        match self {
            InvalidParameter::Eccentricity(_) => "Invalid Eccentricity: "@,
            InvalidParameter::Semimajor(_) => "Invalid Semimajor Axis: "@,
            InvalidParameter::Longitude(_) => "Invalid Longitude: "@,
            InvalidParameter::Latitude(_) => "Invalid Latitude: "@,
        }
    }

    /// The pattern that was rejected.
    pub fn value_bits(&self) -> (bits: u64)
        ensures
            bits == self.rejected(),
    {
        match self {
            InvalidParameter::Eccentricity(bits) => *bits,
            InvalidParameter::Semimajor(bits) => *bits,
            InvalidParameter::Longitude(bits) => *bits,
            InvalidParameter::Latitude(bits) => *bits,
        }
    }

    /// The text that introduces the rejected value in a message.
    pub fn label(&self) -> (text: &'static str)
        ensures
            text@ == self.label_text(),
    {
        match self {
            InvalidParameter::Eccentricity(_) => "Invalid Eccentricity: ",
            InvalidParameter::Semimajor(_) => "Invalid Semimajor Axis: ",
            InvalidParameter::Longitude(_) => "Invalid Longitude: ",
            InvalidParameter::Latitude(_) => "Invalid Latitude: ",
        }
    }
}

/// An eccentricity `e` is in range when `0 <= e < 1`.
pub open spec fn eccentricity_in_range(bits: u64) -> bool {
    le(ZERO, bits) && lt(bits, ONE)
}

/// A semimajor axis `a` is in range when `0 <= a`.
pub open spec fn semimajor_in_range(bits: u64) -> bool {
    le(ZERO, bits)
}

/// A longitude `l` is in range when `-pi < l <= pi`, with the binary64
/// number nearest to pi for pi.
pub open spec fn longitude_in_range(bits: u64) -> bool {
    lt(MINUS_PI, bits) && le(bits, PI)
}

/// A latitude fraction `h` is in range when `-1 <= h <= 1`.
pub open spec fn latitude_in_range(bits: u64) -> bool {
    le(MINUS_ONE, bits) && le(bits, ONE)
}

/// The first of the four parameters that is out of range, in the order
/// eccentricity, semimajor axis, longitude, latitude fraction.
pub open spec fn first_fault(ecc: u64, sma: u64, lon: u64, lat: u64) -> Option<InvalidParameter> {
    if !eccentricity_in_range(ecc) {
        Some(InvalidParameter::Eccentricity(ecc))
    } else if !semimajor_in_range(sma) {
        Some(InvalidParameter::Semimajor(sma))
    } else if !longitude_in_range(lon) {
        Some(InvalidParameter::Longitude(lon))
    } else if !latitude_in_range(lat) {
        Some(InvalidParameter::Latitude(lat))
    } else {
        None
    }
}

/// Longitude zero and latitude fraction zero are in range, so a shape in
/// range has a point at the origin of its surface coordinates.
pub proof fn lemma_origin_in_range()
    ensures
        longitude_in_range(ZERO),
        latitude_in_range(ZERO),
        forall|ecc: u64, sma: u64|
            eccentricity_in_range(ecc) && semimajor_in_range(sma) ==> #[trigger] first_fault(
                ecc,
                sma,
                ZERO,
                ZERO,
            ) is None,
{
    lemma_order_by_rank(MINUS_PI, ZERO);
    lemma_order_by_rank(ZERO, PI);
    lemma_order_by_rank(MINUS_ONE, ZERO);
    lemma_order_by_rank(ZERO, ONE);
}

/// The unit sphere is a shape in range.
pub proof fn lemma_unit_sphere_in_range()
    ensures
        eccentricity_in_range(ZERO),
        semimajor_in_range(ONE),
{
    lemma_order_by_rank(ZERO, ZERO);
    lemma_order_by_rank(ZERO, ONE);
}

/// The ranges in terms of the values that the patterns denote, in units of
/// two to the power minus 1074, of which one holds two to the power 1074.
pub proof fn lemma_ranges_in_units(bits: u64)
    ensures
        eccentricity_in_range(bits) <==> !is_nan(bits) && 0 <= scaled_value(bits) < pow2(1074),
        semimajor_in_range(bits) <==> !is_nan(bits) && 0 <= scaled_value(bits),
        latitude_in_range(bits) <==> !is_nan(bits) && -pow2(1074) <= scaled_value(bits) <= pow2(
            1074,
        ),
{
    lemma_one_is_unit();
}

/// Checks an eccentricity alone, as needed when the point is given in
/// Cartesian coordinates and the other parameters are derived from it.
pub fn check_eccentricity(ecc: u64) -> (r: Result<(), InvalidParameter>)
    ensures
        eccentricity_in_range(ecc) ==> r == Ok::<(), InvalidParameter>(()),
        !eccentricity_in_range(ecc) ==> r == Err::<(), InvalidParameter>(
            InvalidParameter::Eccentricity(ecc),
        ),
{
    if less_or_equal(ZERO, ecc) && less_than(ecc, ONE) {
        Ok(())
    } else {
        Err(InvalidParameter::Eccentricity(ecc))
    }
}

/// Oblate spheroidal coordinates with every parameter in its range.
#[derive(Clone, Copy, Debug)]
pub struct OsCoordinates {
    ecc: u64,
    sma: u64,
    lon: u64,
    lat: u64,
}

impl OsCoordinates {
    #[verifier::type_invariant]
    spec fn in_range(self) -> bool {
        first_fault(self.ecc, self.sma, self.lon, self.lat) is None
    }

    /// The eccentricity.
    pub closed spec fn eccentricity(self) -> u64 {
        self.ecc
    }

    /// The semimajor axis.
    pub closed spec fn semimajor(self) -> u64 {
        self.sma
    }

    /// The longitude.
    pub closed spec fn longitude(self) -> u64 {
        self.lon
    }

    /// The latitude fraction.
    pub closed spec fn latitude(self) -> u64 {
        self.lat
    }

    /// Whether the coordinates are the given four parameters.
    pub open spec fn is(self, ecc: u64, sma: u64, lon: u64, lat: u64) -> bool {
        &&& self.eccentricity() == ecc
        &&& self.semimajor() == sma
        &&& self.longitude() == lon
        &&& self.latitude() == lat
    }

    /// The coordinates of a full parameter set. The parameters are checked
    /// in the order eccentricity, semimajor axis, longitude, latitude
    /// fraction, and the first one out of range is reported.
    pub fn from_os(ecc: u64, sma: u64, lon: u64, lat: u64) -> (r: Result<Self, InvalidParameter>)
        ensures
            match first_fault(ecc, sma, lon, lat) {
                Some(fault) => r == Err::<Self, InvalidParameter>(fault),
                None => r is Ok && r->Ok_0.is(ecc, sma, lon, lat),
            },
    {
        if !(less_or_equal(ZERO, ecc) && less_than(ecc, ONE)) {
            Err(InvalidParameter::Eccentricity(ecc))
        } else if !less_or_equal(ZERO, sma) {
            Err(InvalidParameter::Semimajor(sma))
        } else if !(less_than(MINUS_PI, lon) && less_or_equal(lon, PI)) {
            Err(InvalidParameter::Longitude(lon))
        } else if !(less_or_equal(MINUS_ONE, lat) && less_or_equal(lat, ONE)) {
            Err(InvalidParameter::Latitude(lat))
        } else {
            Ok(OsCoordinates { ecc, sma, lon, lat })
        }
    }

    /// The coordinates of the origin of the surface coordinates, at
    /// longitude zero and latitude fraction zero, on the spheroid of the
    /// given shape.
    pub fn from_shape(ecc: u64, sma: u64) -> (r: Result<Self, InvalidParameter>)
        ensures
            !eccentricity_in_range(ecc) ==> r == Err::<Self, InvalidParameter>(
                InvalidParameter::Eccentricity(ecc),
            ),
            eccentricity_in_range(ecc) && !semimajor_in_range(sma) ==> r == Err::<
                Self,
                InvalidParameter,
            >(InvalidParameter::Semimajor(sma)),
            eccentricity_in_range(ecc) && semimajor_in_range(sma) ==> r is Ok && r->Ok_0.is(
                ecc,
                sma,
                ZERO,
                ZERO,
            ),
    {
        proof {
            lemma_origin_in_range();
        }
        OsCoordinates::from_os(ecc, sma, ZERO, ZERO)
    }

    /// The eccentricity.
    pub fn get_eccentricity(&self) -> (bits: u64)
        ensures
            bits == self.eccentricity(),
            eccentricity_in_range(bits),
    {
        proof {
            use_type_invariant(self);
        }
        self.ecc
    }

    /// The semimajor axis.
    pub fn get_semimajor(&self) -> (bits: u64)
        ensures
            bits == self.semimajor(),
            semimajor_in_range(bits),
    {
        proof {
            use_type_invariant(self);
        }
        self.sma
    }

    /// The longitude, in radians.
    pub fn get_longitude(&self) -> (bits: u64)
        ensures
            bits == self.longitude(),
            longitude_in_range(bits),
    {
        proof {
            use_type_invariant(self);
        }
        self.lon
    }

    /// The latitude fraction.
    pub fn get_latitude(&self) -> (bits: u64)
        ensures
            bits == self.latitude(),
            latitude_in_range(bits),
    {
        proof {
            use_type_invariant(self);
        }
        self.lat
    }
}

impl Default for OsCoordinates {
    /// The point of the unit sphere on the positive x-axis.
    fn default() -> (r: Self)
        ensures
            r.is(ZERO, ONE, ZERO, ZERO),
    {
        proof {
            lemma_unit_sphere_in_range();
            lemma_origin_in_range();
        }
        OsCoordinates { ecc: ZERO, sma: ONE, lon: ZERO, lat: ZERO }
    }
}

} // verus!
