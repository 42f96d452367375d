use realgas::bench_z;
use realgas::compounds::{ar, co2, dry_air, h2, h2o, lookup, n2, o2};
use realgas::eos::Eos;
use realgas::gas::Gas;

#[test]
fn lookup_finds_known_compounds() {
    assert_eq!(lookup("N2"), Some(Gas::Molecule(n2())));
    assert_eq!(lookup("H2"), Some(Gas::Molecule(h2())));
    assert_eq!(lookup("CO2"), Some(Gas::Molecule(co2())));
    assert_eq!(lookup("H2O"), Some(Gas::Molecule(h2o())));
    assert_eq!(lookup("XYZ"), None);
    assert_eq!(lookup(""), None);
    assert_eq!(lookup("dry_air"), Some(Gas::Mixture(dry_air())));
}

#[test]
fn dry_air_composition() {
    let air = dry_air();
    let comps = air.components();
    assert_eq!(comps.len(), 4);
    assert_eq!(comps[0], (780_800_000_000, n2()));
    assert_eq!(comps[1], (209_500_000_000, o2()));
    assert_eq!(comps[2], (9_300_000_000, ar()));
    assert_eq!(comps[3], (400_000_000, co2()));
}

#[test]
fn molar_masses() {
    // Hydrogen: 0.00201588 kg/mol, in 1e-9 kg/mol.
    assert_eq!(h2().molar_mass(), 2_015_880);
    // Dry air: the fraction-weighted sum, in 1e-21 kg/mol, about
    // 0.0289657 kg/mol.
    assert_eq!(dry_air().molar_mass(), 28_965_731_520_000_000_000);
    assert_eq!(
        Gas::Molecule(h2()).molar_mass(),
        2_015_880u128 * 1_000_000_000_000
    );
    assert_eq!(
        Gas::Mixture(dry_air()).molar_mass(),
        28_965_731_520_000_000_000
    );
}

#[test]
fn default_eos_is_peng_robinson() {
    assert_eq!(Eos::default(), Eos::PengRobinson);
}

#[test]
fn bench_z_lists_the_reference_gases() {
    let suite = bench_z();
    assert_eq!(suite.len(), 4);
    assert_eq!(suite[0].0, Gas::Molecule(h2()));
    assert_eq!(suite[0].1, vec![40, 300, 2000]);
    assert_eq!(suite[1].0, Gas::Molecule(n2()));
    assert_eq!(suite[1].1, vec![80, 300, 1000]);
    assert_eq!(suite[2].0, Gas::Molecule(h2o()));
    assert_eq!(suite[2].1, vec![400, 800, 2000]);
    assert_eq!(suite[3].0, Gas::Mixture(dry_air()));
    assert_eq!(suite[3].1, vec![100, 300, 1000]);
}
