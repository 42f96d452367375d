//! Real-gas thermodynamic state computations for pure compounds and mixtures.
//!
//! The crate models gas compositions exactly, over scaled integers: molar
//! fractions are held in units of `1e-12`, compound constants in the SI-derived
//! units documented on [`gas::Molecule`]. Building a [`gas::Mixture`] validates,
//! flattens and canonicalizes a composition, so that two descriptions of the
//! same physical gas are structurally equal. The equation-of-state selector
//! and the algebra tying each variant's cubic polynomial in the compressibility
//! factor Z to its pressure relation live in [`eos`]; evaluating that algebra
//! over machine reals, solving the cubic and selecting the physical root is
//! floating-point work that a thin unverified shell performs on top of the
//! values this crate produces.

use vstd::prelude::*;

pub mod canon;
pub mod compounds;
pub mod eos;
pub mod text;
pub mod gas;
pub mod parse;

verus! {

/// Molar fractions are scaled integers in units of 1e-12: `FRAC_ONE` stands
/// for the whole, 1.0.
pub const FRAC_ONE: u64 = 1_000_000_000_000;

/// The tolerance within which a mixture's fractions must sum to the whole:
/// 1e-7 of the whole, in fraction units.
pub const FRAC_TOL: u64 = 100_000;

/// The compressibility-factor benchmark suite: the four reference gases,
/// each with the temperatures (in K) at which its Z curves are compared
/// against experimental data. Loading that data and drawing the comparison
/// is I/O and plotting, done outside the library.
pub fn bench_z() -> (r: Vec<(gas::Gas, Vec<u64>)>)
    ensures
        r@.len() == 4,
        r@[0].0 == gas::Gas::Molecule(compounds::h2_spec()),
        r@[0].1@ == seq![40u64, 300u64, 2000u64],
        r@[1].0 == gas::Gas::Molecule(compounds::n2_spec()),
        r@[1].1@ == seq![80u64, 300u64, 1000u64],
        r@[2].0 == gas::Gas::Molecule(compounds::h2o_spec()),
        r@[2].1@ == seq![400u64, 800u64, 2000u64],
        (r@[3].0 matches gas::Gas::Mixture(mx) && mx@ == compounds::dry_air_view() && mx.wf()),
        r@[3].1@ == seq![100u64, 300u64, 1000u64],
{
    let h2: Vec<u64> = vec![40, 300, 2000];
    let n2: Vec<u64> = vec![80, 300, 1000];
    let water: Vec<u64> = vec![400, 800, 2000];
    let air: Vec<u64> = vec![100, 300, 1000];
    let r: Vec<(gas::Gas, Vec<u64>)> = vec![
        (gas::Gas::Molecule(compounds::h2()), h2),
        (gas::Gas::Molecule(compounds::n2()), n2),
        (gas::Gas::Molecule(compounds::h2o()), water),
        (gas::Gas::Mixture(compounds::dry_air()), air),
    ];
    r
}

} // verus!
