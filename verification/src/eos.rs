//! The equation-of-state strategy set: a runtime selector, and one marker
//! type per variant carrying the variant's cubic-in-Z coefficient algebra.
//!
//! Every cubic equation of state relates pressure, molar volume and
//! temperature through `P = RT/(V - b) - a/D(V)`, where the denominator
//! `D(V)` is what distinguishes the variants. Substituting the ideal-gas
//! relation `V = Z·R·T/P` and clearing denominators turns that relation into
//! a cubic polynomial in the compressibility factor Z whose coefficients are
//! polynomials in the dimensionless parameters
//! `A = a·P/(R·T)^2`, `B = b·P/(R·T)` and, where present, `C = c·P/(R·T)`.
//!
//! Here that derivation is stated and proved once and for all as a
//! polynomial identity over the integers — hence over every commutative
//! ring, in particular the reals that the floating-point evaluation
//! approximates: for each variant, the cubic evaluated at Z equals the
//! pressure relation cleared of its denominators. Computing the coefficients
//! over machine reals and solving the cubic is the unverified numeric
//! shell's work.

use vstd::prelude::*;

verus! {

/// The default and recommended equation of state of this library.
pub type DefaultEos = PengRobinson;

/// A cubic polynomial `k3·z^3 + k2·z^2 + k1·z + k0` evaluated at `z`.
pub open spec fn cubic_eval(k: (int, int, int, int), z: int) -> int {
    k.0 * z * z * z + k.1 * z * z + k.2 * z + k.3
}

/// The ideal gas law.
pub enum IdealGas {
    IdealGas,
}

impl IdealGas {
    /// The cubic in Z of the ideal gas law: `Z - 1 = 0`, whatever the state.
    pub open spec fn z_coeffs() -> (int, int, int, int) {
        (0, 0, 1, -1)
    }

    /// The ideal-gas cubic has exactly one root, `Z == 1`: an ideal gas has
    /// compressibility factor one at every pressure and temperature.
    pub proof fn lemma_z_is_one(z: int)
        ensures
            cubic_eval(IdealGas::z_coeffs(), z) == 0 <==> z == 1,
    {
    }
}

/// The Van der Waals equation of state.
pub enum VanDerWaals {
    VanDerWaals,
}

impl VanDerWaals {
    /// The residual of the Van der Waals pressure relation
    /// `1 = 1/(Z-B) - A/Z^2`, cleared of its denominators by `(Z-B)·Z^2`.
    pub open spec fn pressure_residual(a: int, b: int, z: int) -> int {
        (z - b) * z * z - (z * z - a * (z - b))
    }

    /// The cubic-in-Z coefficients of the Van der Waals equation, in the
    /// dimensionless parameters A and B.
    pub open spec fn z_coeffs(a: int, b: int) -> (int, int, int, int) {
        (1, -b - 1, a, -(a * b))
    }

    /// The cubic is the pressure relation: its roots are exactly the Z with
    /// `P = RT/(V-b) - a/V^2` at `V = Z·R·T/P`.
    pub proof fn lemma_z_polyn_matches_pressure(a: int, b: int, z: int)
        by (nonlinear_arith)
        ensures
            cubic_eval(VanDerWaals::z_coeffs(a, b), z) == VanDerWaals::pressure_residual(
                a,
                b,
                z,
            ),
    {
    }

    /// In the dilute-gas limit the parameters vanish and the cubic becomes
    /// `Z^2·(Z - 1)`, whose largest root is 1.
    pub proof fn lemma_dilute_limit(z: int)
        by (nonlinear_arith)
        ensures
            cubic_eval(VanDerWaals::z_coeffs(0, 0), z) == z * z * (z - 1),
    {
    }
}

/// The Redlich-Kwong equation of state.
pub enum RedlichKwong {
    RedlichKwong,
}

impl RedlichKwong {
    /// The residual of the Redlich-Kwong pressure relation
    /// `1 = 1/(Z-B) - A/(Z·(Z+B))`, cleared by `(Z-B)·Z·(Z+B)`. The
    /// temperature dependence `a/sqrt(T)` is absorbed into the dimensionless
    /// A.
    pub open spec fn pressure_residual(a: int, b: int, z: int) -> int {
        (z - b) * (z * (z + b)) - (z * (z + b) - a * (z - b))
    }

    /// The cubic-in-Z coefficients of the Redlich-Kwong equation.
    pub open spec fn z_coeffs(a: int, b: int) -> (int, int, int, int) {
        (1, -1, a - b * b - b, -(a * b))
    }

    /// The cubic is the pressure relation cleared of denominators.
    pub proof fn lemma_z_polyn_matches_pressure(a: int, b: int, z: int)
        by (nonlinear_arith)
        ensures
            cubic_eval(RedlichKwong::z_coeffs(a, b), z) == RedlichKwong::pressure_residual(
                a,
                b,
                z,
            ),
    {
    }

    /// In the dilute-gas limit the cubic becomes `Z^2·(Z - 1)`.
    pub proof fn lemma_dilute_limit(z: int)
        by (nonlinear_arith)
        ensures
            cubic_eval(RedlichKwong::z_coeffs(0, 0), z) == z * z * (z - 1),
    {
    }
}

/// The Soave-Redlich-Kwong equation of state: the Redlich-Kwong pressure
/// relation with the temperature correction moved into an alpha function, so
/// the cubic shares the Redlich-Kwong shape.
pub enum SoaveRedlichKwong {
    SoaveRedlichKwong,
}

impl SoaveRedlichKwong {
    /// The residual of the Soave-Redlich-Kwong pressure relation
    /// `1 = 1/(Z-B) - A/(Z·(Z+B))`, cleared by `(Z-B)·Z·(Z+B)`.
    pub open spec fn pressure_residual(a: int, b: int, z: int) -> int {
        (z - b) * (z * (z + b)) - (z * (z + b) - a * (z - b))
    }

    /// The cubic-in-Z coefficients of the Soave-Redlich-Kwong equation.
    pub open spec fn z_coeffs(a: int, b: int) -> (int, int, int, int) {
        (1, -1, a - b * b - b, -(a * b))
    }

    /// The cubic is the pressure relation cleared of denominators.
    pub proof fn lemma_z_polyn_matches_pressure(a: int, b: int, z: int)
        by (nonlinear_arith)
        ensures
            cubic_eval(SoaveRedlichKwong::z_coeffs(a, b), z)
                == SoaveRedlichKwong::pressure_residual(a, b, z),
    {
    }

    /// In the dilute-gas limit the cubic becomes `Z^2·(Z - 1)`.
    pub proof fn lemma_dilute_limit(z: int)
        by (nonlinear_arith)
        ensures
            cubic_eval(SoaveRedlichKwong::z_coeffs(0, 0), z) == z * z * (z - 1),
    {
    }
}

/// The Peng-Robinson equation of state.
pub enum PengRobinson {
    PengRobinson,
}

impl PengRobinson {
    /// The residual of the Peng-Robinson pressure relation
    /// `1 = 1/(Z-B) - A/(Z^2 + 2BZ - B^2)`, cleared by
    /// `(Z-B)·(Z^2 + 2BZ - B^2)`.
    pub open spec fn pressure_residual(a: int, b: int, z: int) -> int {
        (z - b) * (z * z + 2 * b * z - b * b) - ((z * z + 2 * b * z - b * b) - a * (z - b))
    }

    /// The cubic-in-Z coefficients of the Peng-Robinson equation.
    pub open spec fn z_coeffs(a: int, b: int) -> (int, int, int, int) {
        (1, b - 1, a - 3 * b * b - 2 * b, b * b * b + b * b - a * b)
    }

    /// The cubic is the pressure relation cleared of denominators.
    pub proof fn lemma_z_polyn_matches_pressure(a: int, b: int, z: int)
        ensures
            cubic_eval(PengRobinson::z_coeffs(a, b), z) == PengRobinson::pressure_residual(
                a,
                b,
                z,
            ),
    {
        let d = z * z + 2 * b * z - b * b;
        let k = PengRobinson::z_coeffs(a, b);
        assert((z - b) * d == z * d - b * d) by (nonlinear_arith);
        assert(z * d == z * z * z + 2 * (b * z * z) - b * b * z) by (nonlinear_arith)
            requires
                d == z * z + 2 * b * z - b * b,
        ;
        assert(b * d == b * z * z + 2 * (b * b * z) - b * b * b) by (nonlinear_arith)
            requires
                d == z * z + 2 * b * z - b * b,
        ;
        assert(a * (z - b) == a * z - a * b) by (nonlinear_arith);
        assert(k.0 * z * z * z == z * z * z) by (nonlinear_arith)
            requires
                k.0 == 1int,
        ;
        assert(k.1 * z * z == b * z * z - z * z) by (nonlinear_arith)
            requires
                k.1 == b - 1,
        ;
        assert(k.2 * z == a * z - 3 * (b * b * z) - 2 * (b * z)) by (nonlinear_arith)
            requires
                k.2 == a - 3 * b * b - 2 * b,
        ;
        assert(d == z * z + 2 * (b * z) - b * b) by (nonlinear_arith)
            requires
                d == z * z + 2 * b * z - b * b,
        ;
        assert(PengRobinson::pressure_residual(a, b, z) == (z - b) * d - (d - a * (z - b)));
        assert(cubic_eval(k, z) == k.0 * z * z * z + k.1 * z * z + k.2 * z + k.3);
        assert(k.3 == b * b * b + b * b - a * b);
    }

    /// In the dilute-gas limit the cubic becomes `Z^2·(Z - 1)`.
    pub proof fn lemma_dilute_limit(z: int)
        by (nonlinear_arith)
        ensures
            cubic_eval(PengRobinson::z_coeffs(0, 0), z) == z * z * (z - 1),
    {
    }
}

/// The Patel-Teja-Valderrama equation of state, with its third shape
/// parameter.
pub enum PatelTejaValderrama {
    PatelTejaValderrama,
}

impl PatelTejaValderrama {
    /// The residual of the Patel-Teja-Valderrama pressure relation
    /// `1 = 1/(Z-B) - A/(Z·(Z+B) + C·(Z-B))`, cleared by
    /// `(Z-B)·(Z·(Z+B) + C·(Z-B))`.
    pub open spec fn pressure_residual(a: int, b: int, c: int, z: int) -> int {
        (z - b) * (z * (z + b) + c * (z - b)) - ((z * (z + b) + c * (z - b)) - a * (z - b))
    }

    /// The cubic-in-Z coefficients of the Patel-Teja-Valderrama equation.
    pub open spec fn z_coeffs(a: int, b: int, c: int) -> (int, int, int, int) {
        (1, c - 1, a - 2 * b * c - b * b - b - c, b * b * c + b * c - a * b)
    }

    /// The cubic is the pressure relation cleared of denominators.
    pub proof fn lemma_z_polyn_matches_pressure(a: int, b: int, c: int, z: int)
        ensures
            cubic_eval(PatelTejaValderrama::z_coeffs(a, b, c), z)
                == PatelTejaValderrama::pressure_residual(a, b, c, z),
    {
        assert(z * (z + b) == z * z + b * z) by (nonlinear_arith);
        assert(c * (z - b) == c * z - b * c) by (nonlinear_arith);
        let d = z * (z + b) + c * (z - b);
        let k = PatelTejaValderrama::z_coeffs(a, b, c);
        assert(d == z * z + b * z + c * z - b * c);
        assert((z - b) * d == z * d - b * d) by (nonlinear_arith);
        assert(z * d == z * z * z + b * z * z + c * z * z - b * c * z) by (nonlinear_arith)
            requires
                d == z * z + b * z + c * z - b * c,
        ;
        assert(b * d == b * z * z + b * b * z + b * c * z - b * b * c) by (nonlinear_arith)
            requires
                d == z * z + b * z + c * z - b * c,
        ;
        assert(a * (z - b) == a * z - a * b) by (nonlinear_arith);
        assert(k.0 * z * z * z == z * z * z) by (nonlinear_arith)
            requires
                k.0 == 1int,
        ;
        assert(k.1 * z * z == c * z * z - z * z) by (nonlinear_arith)
            requires
                k.1 == c - 1,
        ;
        assert(k.2 * z == a * z - 2 * (b * c * z) - b * b * z - b * z - c * z) by (
        nonlinear_arith)
            requires
                k.2 == a - 2 * b * c - b * b - b - c,
        ;
        assert(k.3 == b * b * c + b * c - a * b);
        assert(PatelTejaValderrama::pressure_residual(a, b, c, z) == (z - b) * d - (d - a * (z
            - b)));
        assert(cubic_eval(k, z) == k.0 * z * z * z + k.1 * z * z + k.2 * z + k.3);
    }

    /// In the dilute-gas limit all three parameters vanish and the cubic
    /// becomes `Z^2·(Z - 1)`.
    pub proof fn lemma_dilute_limit(z: int)
        by (nonlinear_arith)
        ensures
            cubic_eval(PatelTejaValderrama::z_coeffs(0, 0, 0), z) == z * z * (z - 1),
    {
    }
}

/// An equation of state determined at runtime.
#[derive(Debug, Clone, Copy, PartialEq, Eq, Structural)]
pub enum Eos {
    /// The ideal gas law
    IdealGas,
    /// The Van der Waals equation of state
    VanDerWaals,
    /// The Redlich-Kwong equation of state
    RedlichKwong,
    /// The Soave-Redlich-Kwong equation of state
    SoaveRedlichKwong,
    /// The Peng-Robinson equation of state
    PengRobinson,
    /// The Patel-Teja-Valderrama equation of state
    PatelTejaValderrama,
}

impl Default for Eos {
    /// The default and recommended equation of state of this library.
    fn default() -> (r: Self)
        ensures
            r == Eos::PengRobinson,
    {
        Eos::PengRobinson
    }
}

} // verus!
