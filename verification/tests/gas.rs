use realgas::compounds::{ar, co2, n2, o2};
use realgas::gas::{Comp, Gas, Mixture, MixtureError};
use realgas::parse::GasParseError;

/// One whole, in fraction units of 1e-12.
const ONE: u64 = 1_000_000_000_000;

fn assert_not_whole(res: Result<Mixture, MixtureError>) {
    assert!(res.is_err());
    assert_eq!(res.unwrap_err(), MixtureError::MixtureNotWhole);
}

#[test]
fn parse_molecule_works() {
    let gas: Gas = Gas::from_str("N2").expect("should parse N2");
    assert_eq!(gas, Gas::from(n2()));
}

#[test]
fn parse_dry_air_works() {
    let parsed_air: Gas =
        Gas::from_str("78.08%N2+20.95%O2+0.93%Ar+CO2").expect("should parse dry air composition");
    let built_air = Gas::Mixture(
        Mixture::new(&[
            Comp::Factor(780_800_000_000, n2().into()),
            Comp::Factor(209_500_000_000, o2().into()),
            Comp::Factor(9_300_000_000, ar().into()),
            Comp::Remainder(co2().into()),
        ])
        .unwrap(),
    );
    // In the exact fraction arithmetic the two descriptions are structurally
    // identical, so any state computed from them is identical too.
    assert_eq!(parsed_air, built_air);
}

#[test]
fn mixture_new_reports_mixture_not_whole() {
    assert_not_whole(Mixture::new(&[]));

    assert_not_whole(Mixture::new(&[
        Comp::Factor(500_000_000_000, n2().into()),
        Comp::Factor(300_000_000_000, o2().into()),
        Comp::Factor(100_000_000_000, ar().into()),
    ]));

    assert_not_whole(Mixture::new(&[
        Comp::Factor(500_000_000_000, n2().into()),
        Comp::Factor(500_000_000_000, o2().into()),
        Comp::Factor(100_000_000_000, ar().into()),
    ]));
}

#[test]
fn can_compare_identical_mixtures_built_in_any_order() {
    let air_n2: u64 = 780_800_000_000;
    let air_o2: u64 = 209_500_000_000;
    let air_ar: u64 = 9_300_000_000;
    let air_co2: u64 = 400_000_000;
    let air = Mixture::new(&[
        Comp::Factor(air_o2, o2().into()),
        Comp::Factor(air_n2, n2().into()),
        Comp::Factor(air_ar, ar().into()),
        Comp::Factor(air_co2, co2().into()),
    ])
    .unwrap();
    let mix1 = Mixture::new(&[
        Comp::Factor(100_000_000_000, o2().into()),
        Comp::Remainder(air.clone().into()),
    ])
    .unwrap();
    let mix2 = Mixture::new(&[
        Comp::Factor(900_000_000_000, air.into()),
        Comp::Remainder(o2().into()),
    ])
    .unwrap();
    let mix3 = Mixture::new(&[
        Comp::Factor(air_n2 / 10 * 9, n2().into()),
        Comp::Factor(air_o2 / 10 * 9 + 100_000_000_000, o2().into()),
        Comp::Factor(air_ar / 10 * 9, ar().into()),
        Comp::Factor(air_co2 / 10 * 9, co2().into()),
    ])
    .unwrap();
    let mix4 = Mixture::new(&[
        Comp::Factor(air_n2 / 10 * 9, n2().into()),
        Comp::Factor(air_o2 / 10 * 9, o2().into()),
        Comp::Factor(air_ar / 10 * 9, ar().into()),
        Comp::Factor(air_co2 / 10 * 9, co2().into()),
        Comp::Factor(100_000_000_000, o2().into()),
    ])
    .unwrap();

    assert_eq!(mix1.components().len(), 4);
    assert_eq!(mix1.components()[0].1, n2());
    assert_eq!(mix1.components()[1].1, o2());
    assert_eq!(mix1.components()[2].1, ar());
    assert_eq!(mix1.components()[3].1, co2());
    assert_eq!(mix1, mix2);
    assert_eq!(mix2, mix3);
    assert_eq!(mix3, mix4);
}

#[test]
fn mixture_order_of_components_does_not_matter() {
    let a = Mixture::new(&[
        Comp::Factor(300_000_000_000, o2().into()),
        Comp::Factor(650_000_000_000, n2().into()),
        Comp::Remainder(ar().into()),
    ])
    .unwrap();
    let b = Mixture::new(&[
        Comp::Remainder(ar().into()),
        Comp::Factor(650_000_000_000, n2().into()),
        Comp::Factor(300_000_000_000, o2().into()),
    ])
    .unwrap();
    assert_eq!(a, b);
}

#[test]
fn mixture_fractions_sum_to_one() {
    let air = realgas::compounds::dry_air();
    let total: u64 = air.components().iter().map(|c| c.0).sum();
    assert_eq!(total, ONE);

    let halves = Mixture::new(&[Comp::Remainder(n2().into()), Comp::Remainder(o2().into())])
        .unwrap();
    let total: u64 = halves.components().iter().map(|c| c.0).sum();
    assert_eq!(total, ONE);
    assert_eq!(halves.components()[0].0, ONE / 2);
}

#[test]
fn mixture_merges_equal_molecules() {
    let m = Mixture::new(&[
        Comp::Factor(500_000_000_000, n2().into()),
        Comp::Factor(500_000_000_000, n2().into()),
    ])
    .unwrap();
    assert_eq!(m.components().len(), 1);
    assert_eq!(m.components()[0], (ONE, n2()));
}

#[test]
fn mixture_rejects_invalid_fractions() {
    let res = Mixture::new(&[Comp::Factor(0, n2().into()), Comp::Remainder(o2().into())]);
    assert_eq!(res.unwrap_err(), MixtureError::InvalidFraction(0));

    let res = Mixture::new(&[
        Comp::Factor(1_500_000_000_000, n2().into()),
        Comp::Remainder(o2().into()),
    ]);
    assert_eq!(res.unwrap_err(), MixtureError::InvalidFraction(1_500_000_000_000));

    let res = Mixture::new(&[Comp::Factor(ONE, n2().into())]);
    assert_eq!(res.unwrap_err(), MixtureError::InvalidFraction(ONE));
}

#[test]
fn single_remainder_is_the_whole() {
    let m = Mixture::new(&[Comp::Remainder(n2().into())]).unwrap();
    assert_eq!(m.components().len(), 1);
    assert_eq!(m.components()[0], (ONE, n2()));
}

#[test]
fn remainder_with_nothing_left_is_rejected() {
    // The fill is already whole, so the remainder's share would be zero,
    // below the resolution of a component fraction.
    assert_not_whole(Mixture::new(&[
        Comp::Factor(500_000_000_000, n2().into()),
        Comp::Factor(500_000_000_000, o2().into()),
        Comp::Remainder(ar().into()),
    ]));
}

#[test]
fn parse_reports_unknown_molecule() {
    match Gas::from_str("XYZ") {
        Err(GasParseError::UnknownMolecule(name)) => {
            assert_eq!(name.iter().collect::<String>(), "XYZ");
        }
        other => panic!("expected an unknown-molecule error, got {:?}", other),
    }
    match Gas::from_str("") {
        Err(GasParseError::UnknownMolecule(name)) => assert!(name.is_empty()),
        other => panic!("expected an unknown-molecule error, got {:?}", other),
    }
    match Gas::from_str("50%N2+50%XYZ") {
        Err(GasParseError::UnknownMolecule(name)) => {
            assert_eq!(name.iter().collect::<String>(), "XYZ");
        }
        other => panic!("expected an unknown-molecule error, got {:?}", other),
    }
}

#[test]
fn parse_reports_bad_percentage() {
    match Gas::from_str("x%N2+O2") {
        Err(GasParseError::Number(t)) => assert_eq!(t.iter().collect::<String>(), "x"),
        other => panic!("expected a number error, got {:?}", other),
    }
    match Gas::from_str("5%5%N2+O2") {
        Err(GasParseError::Other(t)) => assert_eq!(t.iter().collect::<String>(), "5%5%N2"),
        other => panic!("expected an error about the percent signs, got {:?}", other),
    }
}

#[test]
fn parse_reports_mixture_errors() {
    match Gas::from_str("50%N2+30%O2") {
        Err(GasParseError::Mixture(MixtureError::MixtureNotWhole)) => {}
        other => panic!("expected a not-whole error, got {:?}", other),
    }
    match Gas::from_str("150%N2+O2") {
        Err(GasParseError::Mixture(MixtureError::InvalidFraction(f))) => {
            assert_eq!(f, 1_500_000_000_000);
        }
        other => panic!("expected an invalid-fraction error, got {:?}", other),
    }
}

#[test]
fn parse_percentages_exactly() {
    let m = match Gas::from_str("78.08%N2+CO2").unwrap() {
        Gas::Mixture(m) => m,
        Gas::Molecule(_) => panic!("expected a mixture"),
    };
    assert_eq!(m.components()[0], (780_800_000_000, n2()));
    assert_eq!(m.components()[1], (219_200_000_000, co2()));

    // Equal remainders split what the explicit fractions leave.
    let m = match Gas::from_str("N2+O2").unwrap() {
        Gas::Mixture(m) => m,
        Gas::Molecule(_) => panic!("expected a mixture"),
    };
    assert_eq!(m.components()[0].0, ONE / 2);
    assert_eq!(m.components()[1].0, ONE / 2);

    // An eleventh decimal of a percent is below the fraction resolution.
    match Gas::from_str("0.00000000001%N2+O2") {
        Err(GasParseError::Mixture(MixtureError::InvalidFraction(f))) => assert_eq!(f, 0),
        other => panic!("expected an invalid-fraction error, got {:?}", other),
    }
}

#[test]
fn nested_remainder_scales_sub_mixture() {
    // A remainder wrapping a scaled sub-mixture: each of its components is
    // scaled by the inferred void weight.
    let half_half = Mixture::new(&[
        Comp::Remainder(n2().into()),
        Comp::Remainder(o2().into()),
    ])
    .unwrap();
    let m = Mixture::new(&[
        Comp::Factor(500_000_000_000, ar().into()),
        Comp::Remainder(half_half.into()),
    ])
    .unwrap();
    assert_eq!(m.components().len(), 3);
    assert_eq!(m.components()[0], (500_000_000_000, ar()));
    assert_eq!(m.components()[1], (250_000_000_000, o2()));
    assert_eq!(m.components()[2], (250_000_000_000, n2()));
}
