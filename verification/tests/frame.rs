use cogs::oblate_spheroid::check_eccentricity;
use cogs::oblate_spheroid::OsCoordinates;
use nalgebra::Matrix3;
use nalgebra::Vector3;

/// A point of the frame in binary64 arithmetic, from coordinates that the
/// library accepted.
struct Frame {
    ecc: f64,
    sma: f64,
    lon: f64,
    lat: f64,
    xyz: Vector3<f64>,
}

impl Frame {
    fn from_os(ecc: f64, sma: f64, lon: f64, lat: f64) -> Frame {
        let os = OsCoordinates::from_os(ecc.to_bits(), sma.to_bits(), lon.to_bits(), lat.to_bits())
            .expect("in range");
        let eccen: f64 = f64::from_bits(os.get_eccentricity());
        let smaj: f64 = f64::from_bits(os.get_semimajor());
        let lam: f64 = f64::from_bits(os.get_longitude());
        let eta: f64 = f64::from_bits(os.get_latitude());
        let sqometa2: f64 = (1.0 - eta * eta).sqrt();
        Frame {
            ecc: eccen,
            sma: smaj,
            lon: lam,
            lat: eta,
            xyz: Vector3::new(
                smaj * sqometa2 * lam.cos(),
                smaj * sqometa2 * lam.sin(),
                smaj * eta * (1.0 - eccen * eccen).sqrt(),
            ),
        }
    }

    fn from_cartesian(eccen: f64, cart: &Vector3<f64>) -> Frame {
        check_eccentricity(eccen.to_bits()).expect("in range");
        let x2y2: f64 = cart[0] * cart[0] + cart[1] * cart[1];
        let z2: f64 = cart[2] * cart[2];
        let ome2: f64 = 1.0 - eccen * eccen;
        let smaj: f64 = (x2y2 + z2 / ome2).sqrt();
        Frame {
            ecc: eccen,
            sma: smaj,
            lon: cart[1].atan2(cart[0]),
            lat: cart[2] / (smaj * ome2.sqrt()),
            xyz: *cart,
        }
    }

    fn cov_basis(&self) -> (Vector3<f64>, Vector3<f64>, Vector3<f64>) {
        let a: f64 = self.sma;
        let eta: f64 = self.lat;
        let sqome2: f64 = (1.0 - self.ecc * self.ecc).sqrt();
        let sqometa2: f64 = (1.0 - eta * eta).sqrt();
        let cl: f64 = self.lon.cos();
        let sl: f64 = self.lon.sin();
        (
            Vector3::new(sqometa2 * cl, sqometa2 * sl, eta * sqome2),
            Vector3::new(-a * sqometa2 * sl, a * sqometa2 * cl, 0.0),
            Vector3::new(-a * eta * cl / sqometa2, -a * eta * sl / sqometa2, a * sqome2),
        )
    }

    fn cont_basis(&self) -> (Vector3<f64>, Vector3<f64>, Vector3<f64>) {
        let a: f64 = self.sma;
        let eta: f64 = self.lat;
        let ometa2: f64 = 1.0 - eta * eta;
        let sqome2: f64 = (1.0 - self.ecc * self.ecc).sqrt();
        let sqometa2: f64 = ometa2.sqrt();
        let cl: f64 = self.lon.cos();
        let sl: f64 = self.lon.sin();
        (
            Vector3::new(sqometa2 * cl, sqometa2 * sl, eta / sqome2),
            Vector3::new(-sl / (a * sqometa2), cl / (a * sqometa2), 0.0),
            Vector3::new(
                -eta * sqometa2 * cl / a,
                -eta * sqometa2 * sl / a,
                ometa2 / (a * sqome2),
            ),
        )
    }

    fn jacobian(&self) -> Matrix3<f64> {
        let (e1, e2, e3) = self.cov_basis();
        Matrix3::from_columns(&[e1, e2, e3])
    }

    fn inverse_jacobian(&self) -> Matrix3<f64> {
        let a: f64 = self.sma;
        let (x, y, z) = (self.xyz[0], self.xyz[1], self.xyz[2]);
        let ome2: f64 = 1.0 - self.ecc * self.ecc;
        let x2y2: f64 = x * x + y * y;
        let a3b: f64 = a * a * a * ome2.sqrt();
        Matrix3::new(
            x / a,
            y / a,
            z / (a * ome2),
            -y / x2y2,
            x / x2y2,
            0.0,
            -x * z / a3b,
            -y * z / a3b,
            x2y2 / a3b,
        )
    }

    fn covariant_metric(&self) -> Matrix3<f64> {
        let a: f64 = self.sma;
        let eta: f64 = self.lat;
        let e2: f64 = self.ecc * self.ecc;
        let eta2: f64 = eta * eta;
        let ometa2: f64 = 1.0 - eta2;
        let gaa: f64 = 1.0 - e2 * eta2;
        let gae: f64 = -a * eta * e2;
        let gll: f64 = a * a * ometa2;
        let gee: f64 = a * a * (eta2 / ometa2 + 1.0 - e2);
        Matrix3::new(gaa, 0.0, gae, 0.0, gll, 0.0, gae, 0.0, gee)
    }

    fn contravariant_metric(&self) -> Matrix3<f64> {
        let a: f64 = self.sma;
        let eta: f64 = self.lat;
        let e2: f64 = self.ecc * self.ecc;
        let ome2: f64 = 1.0 - e2;
        let eta2: f64 = eta * eta;
        let ometa2: f64 = 1.0 - eta2;
        let gaa: f64 = ometa2 + eta2 / ome2;
        let gae: f64 = eta * ometa2 * e2 / (a * ome2);
        let gll: f64 = 1.0 / (a * a * ometa2);
        let gee: f64 = ometa2 * (eta2 + ometa2 / ome2) / (a * a);
        Matrix3::new(gaa, 0.0, gae, 0.0, gll, 0.0, gae, 0.0, gee)
    }

    fn volume_element(&self) -> f64 {
        self.sma * self.sma * (1.0 - self.ecc * self.ecc).sqrt()
    }
}

fn grid() -> Vec<Frame> {
    let mut points: Vec<Frame> = Vec::new();
    let mut ecc: f64 = 0.0;
    while ecc < 0.9 {
        let mut sma: f64 = 0.1;
        while sma < 7.5 {
            let mut lat: f64 = -0.9;
            while lat < 0.9 {
                let mut lon: f64 = -std::f64::consts::PI + 0.3;
                while lon < std::f64::consts::PI {
                    points.push(Frame::from_os(ecc, sma, lon, lat));
                    lon += 0.3;
                }
                lat += 0.15;
            }
            sma += 0.7;
        }
        ecc += 0.1;
    }
    points
}

/// Points where no quantity of the frame is badly scaled, for the checks
/// that hold to an absolute tolerance.
fn moderate_grid() -> Vec<Frame> {
    let mut points: Vec<Frame> = Vec::new();
    for ecc in [0.0_f64, 0.2, 0.4, 0.6] {
        for sma in [0.75_f64, 1.0, 1.5] {
            for lat in [-0.6_f64, -0.25, 0.0, 0.3, 0.6] {
                for lon in [-3.0_f64, -1.5, -0.4, 0.0, 0.9, 2.2, 3.1] {
                    points.push(Frame::from_os(ecc, sma, lon, lat));
                }
            }
        }
    }
    points
}

#[test]
fn the_forward_formulas_give_the_cartesian_point() {
    let f = Frame::from_os(0.6, 2.0, 0.0, 0.5);
    assert!((f.xyz[0] - 2.0 * 0.75_f64.sqrt()).abs() < 1.0e-15);
    assert_eq!(f.xyz[1], 0.0);
    assert!((f.xyz[2] - 0.8).abs() < 1.0e-15);
    let d = OsCoordinates::default();
    let u = Frame::from_os(
        f64::from_bits(d.get_eccentricity()),
        f64::from_bits(d.get_semimajor()),
        f64::from_bits(d.get_longitude()),
        f64::from_bits(d.get_latitude()),
    );
    assert_eq!(u.xyz, Vector3::new(1.0, 0.0, 0.0));
}

#[test]
fn coordinates_survive_the_round_trip_through_cartesian() {
    for f in grid() {
        let g = Frame::from_cartesian(f.ecc, &f.xyz);
        assert!((g.sma - f.sma).abs() <= 1.0e-10 * f.sma);
        assert!((g.lon - f.lon).abs() <= 1.0e-10 * f.lon.abs().max(1.0e-3));
        assert!((g.lat - f.lat).abs() <= 1.0e-10 * f.lat.abs().max(1.0e-3));
        assert_eq!(g.ecc, f.ecc);
    }
}

#[test]
fn the_two_jacobians_are_inverse_to_each_other() {
    let identity = Matrix3::<f64>::identity();
    for f in moderate_grid() {
        let d = f.jacobian() * f.inverse_jacobian() - identity;
        assert!(d.norm_squared() < 1.0e-13);
    }
    for f in grid() {
        let d = f.jacobian() * f.inverse_jacobian() - identity;
        assert!(d.norm_squared() < 1.0e-20);
    }
}

#[test]
fn the_two_metric_tensors_are_inverse_to_each_other() {
    let identity = Matrix3::<f64>::identity();
    for f in moderate_grid() {
        let d = f.covariant_metric() * f.contravariant_metric() - identity;
        assert!(d.norm_squared() < 1.0e-13);
    }
    for f in grid() {
        let d = f.covariant_metric() * f.contravariant_metric() - identity;
        assert!(d.norm_squared() < 1.0e-20);
    }
}

#[test]
fn the_metric_tensors_hold_the_dot_products_of_the_bases() {
    for f in moderate_grid() {
        let j = f.jacobian();
        assert!((j.transpose() * j - f.covariant_metric()).norm() < 1.0e-13);
        let i = f.inverse_jacobian();
        assert!((i * i.transpose() - f.contravariant_metric()).norm() < 1.0e-13);
    }
}

#[test]
fn the_volume_element_is_the_root_of_the_metric_determinant() {
    for f in moderate_grid() {
        let det: f64 = f.covariant_metric().determinant();
        assert!((det.sqrt() - f.volume_element()).abs() < 1.0e-13);
    }
    let f = Frame::from_os(0.6, 2.0, 1.0, 0.5);
    assert!((f.volume_element() - 3.2).abs() < 1.0e-15);
}

#[test]
fn the_two_bases_are_dual_to_each_other() {
    for f in grid() {
        let cov = f.cov_basis();
        let cont = f.cont_basis();
        let cov = [cov.0, cov.1, cov.2];
        let cont = [cont.0, cont.1, cont.2];
        for i in 0..3_usize {
            for j in 0..3_usize {
                let delta: f64 = if i == j { 1.0 } else { 0.0 };
                assert!((cont[i].dot(&cov[j]) - delta).abs() < 1.0e-13);
            }
        }
    }
}

#[test]
fn the_rows_of_the_inverse_jacobian_are_the_contravariant_basis() {
    for f in moderate_grid() {
        let i = f.inverse_jacobian();
        let cont = f.cont_basis();
        let rows = Matrix3::from_columns(&[cont.0, cont.1, cont.2]).transpose();
        assert!((i - rows).norm() < 1.0e-13);
    }
}

#[test]
fn the_first_covariant_vector_is_radial() {
    for f in moderate_grid() {
        let cov = f.cov_basis();
        assert!(f.xyz.cross(&cov.0).norm() < 1.0e-13);
    }
}
