//! End-to-end physical scenarios: the library supplies the exact compound
//! constants, compositions and the proven cubic-coefficient algebra; these
//! tests evaluate that algebra over f64, solve the cubic with the same
//! closed-form solver the shell uses, and check the states against known
//! physical values.

use realgas::compounds::{ar, co2, h2, n2, o2};
use realgas::gas::{Comp, Gas, Mixture, Molecule};
use roots::Roots;

const R: f64 = 8.31446262;

struct Props {
    pc: f64,
    tc: f64,
    vc: f64,
    w: f64,
    m: f64,
}

fn props(m: &Molecule) -> Props {
    Props {
        pc: m.critical_state.p as f64,
        tc: m.critical_state.t as f64 * 1e-3,
        vc: m.critical_state.v as f64 * 1e-9,
        w: m.w as f64 * 1e-6,
        m: m.m as f64 * 1e-9,
    }
}

/// The largest positive real root of the cubic, as the state resolver
/// selects it.
fn solve_z(c: [f64; 4]) -> f64 {
    let z = match roots::find_roots_cubic(c[0], c[1], c[2], c[3]) {
        Roots::No([]) => None,
        Roots::One([r]) => Some(r),
        Roots::Two([r1, r2]) => Some(r1.max(r2)),
        Roots::Three([r1, r2, r3]) => Some(r1.max(r2).max(r3)),
        _ => unreachable!(),
    };
    z.filter(|&z| z > 0.0).expect("a positive real root")
}

fn vdw_ab(p: &Props, _t: f64) -> (f64, f64) {
    (
        27.0 * R * R * p.tc * p.tc / (64.0 * p.pc),
        R * p.tc / (8.0 * p.pc),
    )
}

fn rk_ab(p: &Props, _t: f64) -> (f64, f64) {
    (
        0.42748023 * R * R * p.tc.powf(2.5) / p.pc,
        0.08664035 * R * p.tc / p.pc,
    )
}

fn srk_ab(p: &Props, t: f64) -> (f64, f64) {
    let m = 0.48 + 1.574 * p.w - 0.176 * p.w * p.w;
    let sq = 1.0 + m * (1.0 - (t / p.tc).sqrt());
    (
        sq * sq * 0.42748023 * R * R * p.tc * p.tc / p.pc,
        0.08664035 * R * p.tc / p.pc,
    )
}

fn pr_ab(p: &Props, t: f64) -> (f64, f64) {
    let m = if p.w <= 0.491 {
        0.37464 + 1.56226 * p.w - 0.26992 * p.w * p.w
    } else {
        0.379642 + 1.487503 * p.w - 0.164423 * p.w * p.w - 0.016666 * p.w * p.w * p.w
    };
    let sq = 1.0 + m * (1.0 - (t / p.tc).sqrt());
    (
        sq * sq * 0.4572355289213821 * R * R * p.tc * p.tc / p.pc,
        0.07779607390388844 * R * p.tc / p.pc,
    )
}

fn ptv_abc(p: &Props, t: f64) -> (f64, f64, f64) {
    let zc = p.pc * p.vc / (R * p.tc);
    let m = 0.46283 + 3.58230 * p.w * zc + 8.19417 * p.w * p.w * zc * zc;
    let sq = 1.0 + m * (1.0 - (t / p.tc).sqrt());
    (
        (0.66121 - 0.76105 * zc) * sq * sq * R * R * p.tc * p.tc / p.pc,
        (0.02207 + 0.20868 * zc) * R * p.tc / p.pc,
        (0.57765 - 1.78080 * zc) * R * p.tc / p.pc,
    )
}

/// The cubic in Z for a two-parameter a/b pair, per variant; the coefficient
/// forms are the ones proved against the pressure relations in the library.
fn vdw_cubic(a: f64, b: f64, p: f64, t: f64) -> [f64; 4] {
    let aa = a * p / (R * R * t * t);
    let bb = b * p / (R * t);
    [1.0, -bb - 1.0, aa, -aa * bb]
}

fn rk_like_cubic(a: f64, b: f64, p: f64, t: f64, rk_temp: bool) -> [f64; 4] {
    let aa = if rk_temp {
        a * p / (R * R * t.powf(2.5))
    } else {
        a * p / (R * R * t * t)
    };
    let bb = b * p / (R * t);
    [1.0, -1.0, aa - bb * bb - bb, -aa * bb]
}

fn pr_cubic(a: f64, b: f64, p: f64, t: f64) -> [f64; 4] {
    let aa = a * p / (R * R * t * t);
    let bb = b * p / (R * t);
    [
        1.0,
        bb - 1.0,
        -3.0 * bb * bb - 2.0 * bb + aa,
        bb * bb * bb + bb * bb - aa * bb,
    ]
}

fn ptv_cubic(a: f64, b: f64, c: f64, p: f64, t: f64) -> [f64; 4] {
    let aa = a * p / (R * R * t * t);
    let bb = b * p / (R * t);
    let cc = c * p / (R * t);
    [
        1.0,
        cc - 1.0,
        -2.0 * bb * cc - bb * bb - bb - cc + aa,
        bb * bb * cc + bb * cc - aa * bb,
    ]
}

fn pr_z_mixture(mx: &Mixture, p: f64, t: f64) -> f64 {
    // Van der Waals one-fluid mixing: quadratic for a, linear for b.
    let comps: Vec<(f64, Props)> = mx
        .components()
        .iter()
        .map(|(f, m)| (*f as f64 * 1e-12, props(m)))
        .collect();
    let params: Vec<(f64, (f64, f64))> = comps
        .iter()
        .map(|(f, pr)| (*f, pr_ab(pr, t)))
        .collect();
    let mut a = 0.0;
    let mut b = 0.0;
    for (fi, (ai, _)) in &params {
        for (fj, (aj, _)) in &params {
            a += fi * fj * (ai * aj).sqrt();
        }
    }
    for (fi, (_, bi)) in &params {
        b += fi * bi;
    }
    solve_z(pr_cubic(a, b, p, t))
}

/// Hydrogen at storage-tank conditions under Peng-Robinson reproduces the
/// known specific masses.
#[test]
fn h2_mobility() {
    // H2 in mobility storage is reputed at 39.75 kg/m3
    let h2p = props(&h2());
    let h2_storage_mass = 39.75; // kg/m3

    // H2 mobility storage conditions (70 MPa, 15°C)
    let p = 70.0 * 1e6 + 101325.0;
    let t = 20.0 + 273.15;
    let (a, b) = pr_ab(&h2p, t);
    let z = solve_z(pr_cubic(a, b, p, t));
    let mass = h2p.m * p / (z * R * t);
    assert!((mass - h2_storage_mass).abs() / h2_storage_mass <= 0.05);

    // H2 mobility storage fueling conditions (87.5 MPa, 80°C)
    let p = 87.5 * 1e6 + 101325.0;
    let t = 85.0 + 273.15;
    let (a, b) = pr_ab(&h2p, t);
    let z = solve_z(pr_cubic(a, b, p, t));
    let mass = h2p.m * p / (z * R * t);
    assert!((mass - h2_storage_mass).abs() / h2_storage_mass <= 0.07);
}

/// Dry air built two different ways is structurally identical, so its Z is
/// bit-for-bit the same.
#[test]
fn dry_air_two_ways_same_z() {
    let parsed = match Gas::from_str("78.08%N2+20.95%O2+0.93%Ar+CO2").unwrap() {
        Gas::Mixture(m) => m,
        Gas::Molecule(_) => panic!("expected a mixture"),
    };
    let built = Mixture::new(&[
        Comp::Factor(780_800_000_000, n2().into()),
        Comp::Factor(209_500_000_000, o2().into()),
        Comp::Factor(9_300_000_000, ar().into()),
        Comp::Remainder(co2().into()),
    ])
    .unwrap();
    assert_eq!(parsed, built);

    let p = 200.0 * 1e5;
    let t = 273.15 - 80.0;
    let z1 = pr_z_mixture(&parsed, p, t);
    let z2 = pr_z_mixture(&built, p, t);
    assert_eq!(z1.to_bits(), z2.to_bits());
    assert!(z1 > 0.0);
}

/// The ideal-gas cubic `Z - 1 = 0` has the exact root 1, at any state.
#[test]
fn ideal_gas_z_is_one() {
    assert_eq!(solve_z([0.0, 0.0, 1.0, -1.0]), 1.0);
}

/// In the dilute-gas limit, every equation of state approaches Z = 1.
#[test]
fn z_approaches_one_at_low_pressure() {
    let np = props(&n2());
    let t = 300.0;
    let p = 1e-3;

    let (a, b) = vdw_ab(&np, t);
    assert!((solve_z(vdw_cubic(a, b, p, t)) - 1.0).abs() < 1e-9);
    let (a, b) = rk_ab(&np, t);
    assert!((solve_z(rk_like_cubic(a, b, p, t, true)) - 1.0).abs() < 1e-9);
    let (a, b) = srk_ab(&np, t);
    assert!((solve_z(rk_like_cubic(a, b, p, t, false)) - 1.0).abs() < 1e-9);
    let (a, b) = pr_ab(&np, t);
    assert!((solve_z(pr_cubic(a, b, p, t)) - 1.0).abs() < 1e-9);
    let (a, b, c) = ptv_abc(&np, t);
    assert!((solve_z(ptv_cubic(a, b, c, p, t)) - 1.0).abs() < 1e-9);
}

/// Round trip: the pressure relation evaluated at the molar volume derived
/// from the cubic's root gives the pressure back, for every variant —
/// the polynomial and the pressure formula are consistent derivations.
#[test]
fn pressure_round_trip() {
    let np = props(&n2());
    let t = 250.0;
    let p = 50.0 * 1e5;
    let close = |x: f64, y: f64| (x - y).abs() / y < 1e-6;

    let (a, b) = vdw_ab(&np, t);
    let vm = solve_z(vdw_cubic(a, b, p, t)) * R * t / p;
    assert!(close(R * t / (vm - b) - a / (vm * vm), p));

    let (a, b) = rk_ab(&np, t);
    let vm = solve_z(rk_like_cubic(a, b, p, t, true)) * R * t / p;
    assert!(close(R * t / (vm - b) - a / (t.sqrt() * vm * (vm + b)), p));

    let (a, b) = srk_ab(&np, t);
    let vm = solve_z(rk_like_cubic(a, b, p, t, false)) * R * t / p;
    assert!(close(R * t / (vm - b) - a / (vm * (vm + b)), p));

    let (a, b) = pr_ab(&np, t);
    let vm = solve_z(pr_cubic(a, b, p, t)) * R * t / p;
    assert!(close(R * t / (vm - b) - a / (vm * vm + 2.0 * b * vm - b * b), p));

    let (a, b, c) = ptv_abc(&np, t);
    let vm = solve_z(ptv_cubic(a, b, c, p, t)) * R * t / p;
    assert!(close(R * t / (vm - b) - a / (vm * (vm + b) + c * (vm - b)), p));

    // The ideal gas: P = RT/Vm exactly inverts Vm = zRT/P with z = 1.
    let vm = solve_z([0.0, 0.0, 1.0, -1.0]) * R * t / p;
    assert!(close(R * t / vm, p));
}
