use cogs::binary64::ONE;
use cogs::binary64::ZERO;
use cogs::oblate_spheroid::check_eccentricity;
use cogs::oblate_spheroid::InvalidParameter;
use cogs::oblate_spheroid::OsCoordinates;
use cogs::plot_os::OsPlotType;

fn from_os(ecc: f64, sma: f64, lon: f64, lat: f64) -> Result<OsCoordinates, InvalidParameter> {
    OsCoordinates::from_os(ecc.to_bits(), sma.to_bits(), lon.to_bits(), lat.to_bits())
}

fn fault(ecc: f64, sma: f64, lon: f64, lat: f64) -> InvalidParameter {
    match from_os(ecc, sma, lon, lat) {
        Ok(_) => panic!("accepted ({:e}, {:e}, {:e}, {:e})", ecc, sma, lon, lat),
        Err(fault) => fault,
    }
}

#[test]
fn a_full_parameter_set_is_kept_as_given() {
    let c = from_os(0.4, 2.5, -1.25, 0.75).expect("in range");
    assert_eq!(f64::from_bits(c.get_eccentricity()), 0.4);
    assert_eq!(f64::from_bits(c.get_semimajor()), 2.5);
    assert_eq!(f64::from_bits(c.get_longitude()), -1.25);
    assert_eq!(f64::from_bits(c.get_latitude()), 0.75);
}

#[test]
fn a_shape_alone_gives_the_origin_of_the_surface() {
    let c = OsCoordinates::from_shape(0.4_f64.to_bits(), 1.0_f64.to_bits()).expect("in range");
    assert_eq!(c.get_eccentricity(), 0.4_f64.to_bits());
    assert_eq!(c.get_semimajor(), ONE);
    assert_eq!(c.get_longitude(), ZERO);
    assert_eq!(c.get_latitude(), ZERO);
}

#[test]
fn a_shape_is_checked_like_a_full_set() {
    assert_eq!(
        OsCoordinates::from_shape(1.0_f64.to_bits(), 1.0_f64.to_bits()).err(),
        Some(InvalidParameter::Eccentricity(1.0_f64.to_bits()))
    );
    assert_eq!(
        OsCoordinates::from_shape(0.0_f64.to_bits(), (-2.0_f64).to_bits()).err(),
        Some(InvalidParameter::Semimajor((-2.0_f64).to_bits()))
    );
}

#[test]
fn the_default_is_the_unit_sphere_on_the_x_axis() {
    let c = OsCoordinates::default();
    assert_eq!(f64::from_bits(c.get_eccentricity()), 0.0);
    assert_eq!(f64::from_bits(c.get_semimajor()), 1.0);
    assert_eq!(f64::from_bits(c.get_longitude()), 0.0);
    assert_eq!(f64::from_bits(c.get_latitude()), 0.0);
}

#[test]
fn eccentricity_must_lie_from_zero_up_to_but_not_one() {
    assert!(from_os(0.0, 1.0, 0.0, 0.0).is_ok());
    assert!(from_os(-0.0, 1.0, 0.0, 0.0).is_ok());
    assert!(from_os(0.999_999_999_999_999_9, 1.0, 0.0, 0.0).is_ok());
    assert_eq!(fault(1.0, 1.0, 0.0, 0.0), InvalidParameter::Eccentricity(1.0_f64.to_bits()));
    assert_eq!(fault(-0.1, 1.0, 0.0, 0.0), InvalidParameter::Eccentricity((-0.1_f64).to_bits()));
    assert_eq!(fault(2.0, 1.0, 0.0, 0.0), InvalidParameter::Eccentricity(2.0_f64.to_bits()));
    assert_eq!(
        fault(f64::INFINITY, 1.0, 0.0, 0.0),
        InvalidParameter::Eccentricity(f64::INFINITY.to_bits())
    );
}

#[test]
fn semimajor_axis_must_not_be_negative() {
    assert!(from_os(0.4, 0.0, 0.0, 0.0).is_ok());
    assert!(from_os(0.4, 7.5, 0.0, 0.0).is_ok());
    assert!(from_os(0.4, f64::INFINITY, 0.0, 0.0).is_ok());
    assert_eq!(fault(0.4, -1.0, 0.0, 0.0), InvalidParameter::Semimajor((-1.0_f64).to_bits()));
    assert_eq!(
        fault(0.4, -1.0e-300, 0.0, 0.0),
        InvalidParameter::Semimajor((-1.0e-300_f64).to_bits())
    );
}

#[test]
fn longitude_must_lie_above_minus_pi_and_up_to_pi() {
    let pi: f64 = std::f64::consts::PI;
    let just_above_minus_pi: f64 = f64::from_bits((-pi).to_bits() - 1);
    let just_above_pi: f64 = f64::from_bits(pi.to_bits() + 1);
    assert!(from_os(0.4, 1.0, pi, 0.0).is_ok());
    assert!(from_os(0.4, 1.0, just_above_minus_pi, 0.0).is_ok());
    assert_eq!(fault(0.4, 1.0, -pi, 0.0), InvalidParameter::Longitude((-pi).to_bits()));
    assert_eq!(
        fault(0.4, 1.0, just_above_pi, 0.0),
        InvalidParameter::Longitude(just_above_pi.to_bits())
    );
    assert_eq!(fault(0.4, 1.0, 4.0, 0.0), InvalidParameter::Longitude(4.0_f64.to_bits()));
}

#[test]
fn latitude_fraction_must_lie_between_the_poles() {
    assert!(from_os(0.4, 1.0, 0.0, 1.0).is_ok());
    assert!(from_os(0.4, 1.0, 0.0, -1.0).is_ok());
    assert_eq!(fault(0.4, 1.0, 0.0, 1.5), InvalidParameter::Latitude(1.5_f64.to_bits()));
    assert_eq!(
        fault(0.4, 1.0, 0.0, -1.000_000_000_000_000_2),
        InvalidParameter::Latitude((-1.000_000_000_000_000_2_f64).to_bits())
    );
}

#[test]
fn the_first_parameter_out_of_range_is_the_one_reported() {
    assert_eq!(fault(1.5, -1.0, 4.0, 2.0), InvalidParameter::Eccentricity(1.5_f64.to_bits()));
    assert_eq!(fault(0.5, -1.0, 4.0, 2.0), InvalidParameter::Semimajor((-1.0_f64).to_bits()));
    assert_eq!(fault(0.5, 1.0, 4.0, 2.0), InvalidParameter::Longitude(4.0_f64.to_bits()));
    assert_eq!(fault(0.5, 1.0, 1.0, 2.0), InvalidParameter::Latitude(2.0_f64.to_bits()));
}

#[test]
fn a_nan_is_in_no_range() {
    let nan: f64 = f64::NAN;
    assert_eq!(fault(nan, 1.0, 0.0, 0.0), InvalidParameter::Eccentricity(nan.to_bits()));
    assert_eq!(fault(0.4, nan, 0.0, 0.0), InvalidParameter::Semimajor(nan.to_bits()));
    assert_eq!(fault(0.4, 1.0, nan, 0.0), InvalidParameter::Longitude(nan.to_bits()));
    assert_eq!(fault(0.4, 1.0, 0.0, nan), InvalidParameter::Latitude(nan.to_bits()));
}

#[test]
fn the_sampled_grid_of_coordinates_is_accepted() {
    let mut count: u32 = 0;
    let mut ecc: f64 = 0.0;
    while ecc < 0.9 {
        let mut sma: f64 = 0.1;
        while sma < 7.5 {
            let mut lat: f64 = -0.9;
            while lat < 0.9 {
                let mut lon: f64 = -std::f64::consts::PI + 0.25;
                while lon < std::f64::consts::PI {
                    let c = from_os(ecc, sma, lon, lat).expect("in range");
                    assert_eq!(c.get_longitude(), lon.to_bits());
                    count += 1;
                    lon += 0.25;
                }
                lat += 0.3;
            }
            sma += 1.1;
        }
        ecc += 0.15;
    }
    assert!(count > 1000);
}

#[test]
fn eccentricity_alone_is_checked_for_cartesian_input() {
    assert_eq!(check_eccentricity(0.4_f64.to_bits()), Ok(()));
    assert_eq!(check_eccentricity(0.0_f64.to_bits()), Ok(()));
    assert_eq!(
        check_eccentricity(1.0_f64.to_bits()),
        Err(InvalidParameter::Eccentricity(1.0_f64.to_bits()))
    );
    assert_eq!(
        check_eccentricity((-0.5_f64).to_bits()),
        Err(InvalidParameter::Eccentricity((-0.5_f64).to_bits()))
    );
}

#[test]
fn a_fault_names_its_parameter_and_keeps_the_value() {
    let e = InvalidParameter::Eccentricity(1.5_f64.to_bits());
    let a = InvalidParameter::Semimajor((-1.0_f64).to_bits());
    let l = InvalidParameter::Longitude(4.0_f64.to_bits());
    let h = InvalidParameter::Latitude(2.0_f64.to_bits());
    assert_eq!(e.label(), "Invalid Eccentricity: ");
    assert_eq!(a.label(), "Invalid Semimajor Axis: ");
    assert_eq!(l.label(), "Invalid Longitude: ");
    assert_eq!(h.label(), "Invalid Latitude: ");
    assert_eq!(f64::from_bits(e.value_bits()), 1.5);
    assert_eq!(f64::from_bits(a.value_bits()), -1.0);
    assert_eq!(f64::from_bits(l.value_bits()), 4.0);
    assert_eq!(f64::from_bits(h.value_bits()), 2.0);
    assert_eq!(format!("{}{}", e.label(), f64::from_bits(e.value_bits())), "Invalid Eccentricity: 1.5");
}

#[test]
fn plot_types_are_told_apart() {
    assert_eq!(OsPlotType::BasisCovariant, OsPlotType::BasisCovariant);
    assert_ne!(OsPlotType::BasisCovariant, OsPlotType::BasisContravariant);
}
