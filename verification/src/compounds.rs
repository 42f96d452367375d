//! The registry of compound constants: the physical properties of about
//! thirty named gas molecules, and the derived dry-air mixture.
//!
//! Units are as on [`Molecule`]: critical pressure in Pa, critical
//! temperature in mK, critical molar volume in 1e-9 m^3/mol, acentric factor
//! in 1e-6, molar mass in 1e-9 kg/mol.

use vstd::prelude::*;

use crate::FRAC_ONE;
use crate::gas::{
    Comp, CriticalState, Gas, Mixture, MixtureError, Molecule, Slot, expand_all, expand_comp,
    fill_of, has_invalid, comp_invalid, mixture_new_spec, resolve_all, void_weight, voids_of,
};
use crate::canon::{entry_le, insert_sorted, merge_adjacent, sort_entries, sum_entries};
use crate::text::{chars_eq_str, str_chars};

verus! {

/// Argon
pub open spec fn ar_spec() -> Molecule {
    Molecule {
        critical_state: CriticalState { p: 4_870_000, t: 150_800, v: 74_900 },
        w: 1_000,
        m: 39_948_000,
    }
}

/// Argon
pub fn ar() -> (r: Molecule)
    ensures
        r == ar_spec(),
{
    Molecule {
        critical_state: CriticalState { p: 4_870_000, t: 150_800, v: 74_900 },
        w: 1_000,
        m: 39_948_000,
    }
}

/// Bromine
pub open spec fn br2_spec() -> Molecule {
    Molecule {
        critical_state: CriticalState { p: 10_340_000, t: 588_000, v: 127_200 },
        w: 108_000,
        m: 159_808_000,
    }
}

/// Bromine
pub fn br2() -> (r: Molecule)
    ensures
        r == br2_spec(),
{
    Molecule {
        critical_state: CriticalState { p: 10_340_000, t: 588_000, v: 127_200 },
        w: 108_000,
        m: 159_808_000,
    }
}

/// Chlorine
pub open spec fn cl2_spec() -> Molecule {
    Molecule {
        critical_state: CriticalState { p: 7_980_000, t: 416_900, v: 123_800 },
        w: 90_000,
        m: 70_906_000,
    }
}

/// Chlorine
pub fn cl2() -> (r: Molecule)
    ensures
        r == cl2_spec(),
{
    Molecule {
        critical_state: CriticalState { p: 7_980_000, t: 416_900, v: 123_800 },
        w: 90_000,
        m: 70_906_000,
    }
}

/// Fluorine
pub open spec fn f2_spec() -> Molecule {
    Molecule {
        critical_state: CriticalState { p: 5_220_000, t: 144_300, v: 66_300 },
        w: 54_000,
        m: 37_996_800,
    }
}

/// Fluorine
pub fn f2() -> (r: Molecule)
    ensures
        r == f2_spec(),
{
    Molecule {
        critical_state: CriticalState { p: 5_220_000, t: 144_300, v: 66_300 },
        w: 54_000,
        m: 37_996_800,
    }
}

/// Helium
pub open spec fn he_spec() -> Molecule {
    Molecule {
        critical_state: CriticalState { p: 227_000, t: 5_190, v: 57_400 },
        w: -365_000i64,
        m: 4_002_602,
    }
}

/// Helium
pub fn he() -> (r: Molecule)
    ensures
        r == he_spec(),
{
    Molecule {
        critical_state: CriticalState { p: 227_000, t: 5_190, v: 57_400 },
        w: -365_000i64,
        m: 4_002_602,
    }
}

/// Hydrogen
pub open spec fn h2_spec() -> Molecule {
    Molecule {
        critical_state: CriticalState { p: 1_290_000, t: 33_000, v: 64_300 },
        w: -216_000i64,
        m: 2_015_880,
    }
}

/// Hydrogen
pub fn h2() -> (r: Molecule)
    ensures
        r == h2_spec(),
{
    Molecule {
        critical_state: CriticalState { p: 1_290_000, t: 33_000, v: 64_300 },
        w: -216_000i64,
        m: 2_015_880,
    }
}

/// Iodine
pub open spec fn i2_spec() -> Molecule {
    Molecule {
        critical_state: CriticalState { p: 11_650_000, t: 819_000, v: 155_000 },
        w: 229_000,
        m: 253_808_940,
    }
}

/// Iodine
pub fn i2() -> (r: Molecule)
    ensures
        r == i2_spec(),
{
    Molecule {
        critical_state: CriticalState { p: 11_650_000, t: 819_000, v: 155_000 },
        w: 229_000,
        m: 253_808_940,
    }
}

/// Krypton
pub open spec fn kr_spec() -> Molecule {
    Molecule {
        critical_state: CriticalState { p: 5_500_000, t: 209_400, v: 91_200 },
        w: 5_000,
        m: 83_798_000,
    }
}

/// Krypton
pub fn kr() -> (r: Molecule)
    ensures
        r == kr_spec(),
{
    Molecule {
        critical_state: CriticalState { p: 5_500_000, t: 209_400, v: 91_200 },
        w: 5_000,
        m: 83_798_000,
    }
}

/// Neon
pub open spec fn ne_spec() -> Molecule {
    Molecule {
        critical_state: CriticalState { p: 2_760_000, t: 44_400, v: 41_600 },
        w: -29_000i64,
        m: 20_179_700,
    }
}

/// Neon
pub fn ne() -> (r: Molecule)
    ensures
        r == ne_spec(),
{
    Molecule {
        critical_state: CriticalState { p: 2_760_000, t: 44_400, v: 41_600 },
        w: -29_000i64,
        m: 20_179_700,
    }
}

/// Nitrogen
pub open spec fn n2_spec() -> Molecule {
    Molecule {
        critical_state: CriticalState { p: 3_390_000, t: 126_200, v: 89_800 },
        w: 39_000,
        m: 28_013_400,
    }
}

/// Nitrogen
pub fn n2() -> (r: Molecule)
    ensures
        r == n2_spec(),
{
    Molecule {
        critical_state: CriticalState { p: 3_390_000, t: 126_200, v: 89_800 },
        w: 39_000,
        m: 28_013_400,
    }
}

/// Oxygen
pub open spec fn o2_spec() -> Molecule {
    Molecule {
        critical_state: CriticalState { p: 5_040_000, t: 154_600, v: 73_400 },
        w: 25_000,
        m: 31_998_800,
    }
}

/// Oxygen
pub fn o2() -> (r: Molecule)
    ensures
        r == o2_spec(),
{
    Molecule {
        critical_state: CriticalState { p: 5_040_000, t: 154_600, v: 73_400 },
        w: 25_000,
        m: 31_998_800,
    }
}

/// Xenon
pub open spec fn xe_spec() -> Molecule {
    Molecule {
        critical_state: CriticalState { p: 5_840_000, t: 289_700, v: 66_300 },
        w: 8_000,
        m: 131_293_000,
    }
}

/// Xenon
pub fn xe() -> (r: Molecule)
    ensures
        r == xe_spec(),
{
    Molecule {
        critical_state: CriticalState { p: 5_840_000, t: 289_700, v: 66_300 },
        w: 8_000,
        m: 131_293_000,
    }
}

/// Acetylene
pub open spec fn c2h2_spec() -> Molecule {
    Molecule {
        critical_state: CriticalState { p: 6_140_000, t: 308_300, v: 112_700 },
        w: 190_000,
        m: 26_037_300,
    }
}

/// Acetylene
pub fn c2h2() -> (r: Molecule)
    ensures
        r == c2h2_spec(),
{
    Molecule {
        critical_state: CriticalState { p: 6_140_000, t: 308_300, v: 112_700 },
        w: 190_000,
        m: 26_037_300,
    }
}

/// Benzene
pub open spec fn c6h6_spec() -> Molecule {
    Molecule {
        critical_state: CriticalState { p: 4_890_000, t: 562_100, v: 259_000 },
        w: 212_000,
        m: 78_111_800,
    }
}

/// Benzene
pub fn c6h6() -> (r: Molecule)
    ensures
        r == c6h6_spec(),
{
    Molecule {
        critical_state: CriticalState { p: 4_890_000, t: 562_100, v: 259_000 },
        w: 212_000,
        m: 78_111_800,
    }
}

/// Butane
pub open spec fn c4h10_spec() -> Molecule {
    Molecule {
        critical_state: CriticalState { p: 3_800_000, t: 425_200, v: 255_000 },
        w: 199_000,
        m: 58_122_200,
    }
}

/// Butane
pub fn c4h10() -> (r: Molecule)
    ensures
        r == c4h10_spec(),
{
    Molecule {
        critical_state: CriticalState { p: 3_800_000, t: 425_200, v: 255_000 },
        w: 199_000,
        m: 58_122_200,
    }
}

/// Cyclobutane
pub open spec fn c4h8_spec() -> Molecule {
    Molecule {
        critical_state: CriticalState { p: 4_990_000, t: 460_000, v: 210_000 },
        w: 181_000,
        m: 56_106_300,
    }
}

/// Cyclobutane
pub fn c4h8() -> (r: Molecule)
    ensures
        r == c4h8_spec(),
{
    Molecule {
        critical_state: CriticalState { p: 4_990_000, t: 460_000, v: 210_000 },
        w: 181_000,
        m: 56_106_300,
    }
}

/// Cyclohexane
pub open spec fn c6h12_spec() -> Molecule {
    Molecule {
        critical_state: CriticalState { p: 4_070_000, t: 553_800, v: 308_000 },
        w: 212_000,
        m: 84_159_500,
    }
}

/// Cyclohexane
pub fn c6h12() -> (r: Molecule)
    ensures
        r == c6h12_spec(),
{
    Molecule {
        critical_state: CriticalState { p: 4_070_000, t: 553_800, v: 308_000 },
        w: 212_000,
        m: 84_159_500,
    }
}

/// Cyclopropane
pub open spec fn c3h6_spec() -> Molecule {
    Molecule {
        critical_state: CriticalState { p: 5_490_000, t: 397_800, v: 163_000 },
        w: 130_000,
        m: 42_079_700,
    }
}

/// Cyclopropane
pub fn c3h6() -> (r: Molecule)
    ensures
        r == c3h6_spec(),
{
    Molecule {
        critical_state: CriticalState { p: 5_490_000, t: 397_800, v: 163_000 },
        w: 130_000,
        m: 42_079_700,
    }
}

/// Ethane
pub open spec fn c2h6_spec() -> Molecule {
    Molecule {
        critical_state: CriticalState { p: 4_880_000, t: 305_400, v: 148_300 },
        w: 99_000,
        m: 30_069_000,
    }
}

/// Ethane
pub fn c2h6() -> (r: Molecule)
    ensures
        r == c2h6_spec(),
{
    Molecule {
        critical_state: CriticalState { p: 4_880_000, t: 305_400, v: 148_300 },
        w: 99_000,
        m: 30_069_000,
    }
}

/// Ethylene
pub open spec fn c2h4_spec() -> Molecule {
    Molecule {
        critical_state: CriticalState { p: 5_040_000, t: 282_400, v: 130_400 },
        w: 89_000,
        m: 28_053_200,
    }
}

/// Ethylene
pub fn c2h4() -> (r: Molecule)
    ensures
        r == c2h4_spec(),
{
    Molecule {
        critical_state: CriticalState { p: 5_040_000, t: 282_400, v: 130_400 },
        w: 89_000,
        m: 28_053_200,
    }
}

/// Ammonia
pub open spec fn nh3_spec() -> Molecule {
    Molecule {
        critical_state: CriticalState { p: 11_350_000, t: 405_500, v: 72_500 },
        w: 250_000,
        m: 17_030_520,
    }
}

/// Ammonia
pub fn nh3() -> (r: Molecule)
    ensures
        r == nh3_spec(),
{
    Molecule {
        critical_state: CriticalState { p: 11_350_000, t: 405_500, v: 72_500 },
        w: 250_000,
        m: 17_030_520,
    }
}

/// Carbon dioxide
pub open spec fn co2_spec() -> Molecule {
    Molecule {
        critical_state: CriticalState { p: 7_380_000, t: 304_100, v: 93_900 },
        w: 239_000,
        m: 44_009_500,
    }
}

/// Carbon dioxide
pub fn co2() -> (r: Molecule)
    ensures
        r == co2_spec(),
{
    Molecule {
        critical_state: CriticalState { p: 7_380_000, t: 304_100, v: 93_900 },
        w: 239_000,
        m: 44_009_500,
    }
}

/// Carbon monoxide
pub open spec fn co_spec() -> Molecule {
    Molecule {
        critical_state: CriticalState { p: 3_500_000, t: 132_900, v: 93_200 },
        w: 66_000,
        m: 28_010_100,
    }
}

/// Carbon monoxide
pub fn co() -> (r: Molecule)
    ensures
        r == co_spec(),
{
    Molecule {
        critical_state: CriticalState { p: 3_500_000, t: 132_900, v: 93_200 },
        w: 66_000,
        m: 28_010_100,
    }
}

/// Nitric oxide
pub open spec fn no_spec() -> Molecule {
    Molecule {
        critical_state: CriticalState { p: 6_480_000, t: 180_000, v: 57_700 },
        w: 588_000,
        m: 30_006_100,
    }
}

/// Nitric oxide
pub fn no() -> (r: Molecule)
    ensures
        r == no_spec(),
{
    Molecule {
        critical_state: CriticalState { p: 6_480_000, t: 180_000, v: 57_700 },
        w: 588_000,
        m: 30_006_100,
    }
}

/// Sulfur dioxide
pub open spec fn so2_spec() -> Molecule {
    Molecule {
        critical_state: CriticalState { p: 7_880_000, t: 430_800, v: 122_200 },
        w: 256_000,
        m: 64_066_000,
    }
}

/// Sulfur dioxide
pub fn so2() -> (r: Molecule)
    ensures
        r == so2_spec(),
{
    Molecule {
        critical_state: CriticalState { p: 7_880_000, t: 430_800, v: 122_200 },
        w: 256_000,
        m: 64_066_000,
    }
}

/// Sulfur trioxide
pub open spec fn so3_spec() -> Molecule {
    Molecule {
        critical_state: CriticalState { p: 8_210_000, t: 491_000, v: 127_300 },
        w: 481_000,
        m: 80_066_000,
    }
}

/// Sulfur trioxide
pub fn so3() -> (r: Molecule)
    ensures
        r == so3_spec(),
{
    Molecule {
        critical_state: CriticalState { p: 8_210_000, t: 491_000, v: 127_300 },
        w: 481_000,
        m: 80_066_000,
    }
}

/// Water
pub open spec fn h2o_spec() -> Molecule {
    Molecule {
        critical_state: CriticalState { p: 22_120_000, t: 647_300, v: 57_100 },
        w: 344_000,
        m: 18_015_280,
    }
}

/// Water
pub fn h2o() -> (r: Molecule)
    ensures
        r == h2o_spec(),
{
    Molecule {
        critical_state: CriticalState { p: 22_120_000, t: 647_300, v: 57_100 },
        w: 344_000,
        m: 18_015_280,
    }
}

/// Acetic acid
pub open spec fn ch3cooh_spec() -> Molecule {
    Molecule {
        critical_state: CriticalState { p: 5_790_000, t: 592_700, v: 66_300 },
        w: 90_000,
        m: 60_052_000,
    }
}

/// Acetic acid
pub fn ch3cooh() -> (r: Molecule)
    ensures
        r == ch3cooh_spec(),
{
    Molecule {
        critical_state: CriticalState { p: 5_790_000, t: 592_700, v: 66_300 },
        w: 90_000,
        m: 60_052_000,
    }
}

/// Acetone
pub open spec fn c3h6o_spec() -> Molecule {
    Molecule {
        critical_state: CriticalState { p: 4_700_000, t: 508_100, v: 209_000 },
        w: 304_000,
        m: 58_079_100,
    }
}

/// Acetone
pub fn c3h6o() -> (r: Molecule)
    ensures
        r == c3h6o_spec(),
{
    Molecule {
        critical_state: CriticalState { p: 4_700_000, t: 508_100, v: 209_000 },
        w: 304_000,
        m: 58_079_100,
    }
}

/// Ethanol
pub open spec fn c2h5oh_spec() -> Molecule {
    Molecule {
        critical_state: CriticalState { p: 6_140_000, t: 513_900, v: 167_100 },
        w: 644_000,
        m: 46_068_440,
    }
}

/// Ethanol
pub fn c2h5oh() -> (r: Molecule)
    ensures
        r == c2h5oh_spec(),
{
    Molecule {
        critical_state: CriticalState { p: 6_140_000, t: 513_900, v: 167_100 },
        w: 644_000,
        m: 46_068_440,
    }
}

/// Methanol
pub open spec fn ch3oh_spec() -> Molecule {
    Molecule {
        critical_state: CriticalState { p: 8_090_000, t: 512_600, v: 118_000 },
        w: 556_000,
        m: 32_042_940,
    }
}

/// Methanol
pub fn ch3oh() -> (r: Molecule)
    ensures
        r == ch3oh_spec(),
{
    Molecule {
        critical_state: CriticalState { p: 8_090_000, t: 512_600, v: 118_000 },
        w: 556_000,
        m: 32_042_940,
    }
}

/// Methyl chloride
pub open spec fn ch3cl_spec() -> Molecule {
    Molecule {
        critical_state: CriticalState { p: 6_700_000, t: 416_300, v: 138_900 },
        w: 153_000,
        m: 50_490_500,
    }
}

/// Methyl chloride
pub fn ch3cl() -> (r: Molecule)
    ensures
        r == ch3cl_spec(),
{
    Molecule {
        critical_state: CriticalState { p: 6_700_000, t: 416_300, v: 138_900 },
        w: 153_000,
        m: 50_490_500,
    }
}

/// The canonical composition of dry air: nitrogen, oxygen, argon and carbon
/// dioxide, by molar fraction.
pub open spec fn dry_air_view() -> Seq<(u64, Molecule)> {
    seq![
        (780_800_000_000u64, n2_spec()),
        (209_500_000_000u64, o2_spec()),
        (9_300_000_000u64, ar_spec()),
        (400_000_000u64, co2_spec()),
    ]
}


/// The builder components of dry air, in registry order.
pub open spec fn dry_air_comps() -> Seq<Comp> {
    seq![
        Comp::Factor(780_800_000_000u64, Gas::Molecule(n2_spec())),
        Comp::Factor(209_500_000_000u64, Gas::Molecule(o2_spec())),
        Comp::Factor(9_300_000_000u64, Gas::Molecule(ar_spec())),
        Comp::Factor(400_000_000u64, Gas::Molecule(co2_spec())),
    ]
}

/// Dry air's four fractions fill the whole exactly, so building it succeeds
/// and, the list being already in canonical order, returns it as given.
#[verifier::rlimit(60)]
proof fn lemma_dry_air_builds()
    ensures
        mixture_new_spec(dry_air_comps()) == Ok::<Seq<(u64, Molecule)>, MixtureError>(
            dry_air_view(),
        ),
{
    let s = dry_air_comps();
    let c0 = Comp::Factor(780_800_000_000u64, Gas::Molecule(n2_spec()));
    let c1 = Comp::Factor(209_500_000_000u64, Gas::Molecule(o2_spec()));
    let c2 = Comp::Factor(9_300_000_000u64, Gas::Molecule(ar_spec()));
    let c3 = Comp::Factor(400_000_000u64, Gas::Molecule(co2_spec()));
    assert(!has_invalid(s)) by {
        if has_invalid(s) {
            let i = choose|i: int| 0 <= i < s.len() && comp_invalid(s[i]);
            assert(i == 0 || i == 1 || i == 2 || i == 3);
        }
    }
    let e0 = Seq::<Comp>::empty();
    let s1 = e0.push(c0);
    let s2 = s1.push(c1);
    let s3 = s2.push(c2);
    let s4 = s3.push(c3);
    crate::gas::lemma_comp_push(e0, c0);
    crate::gas::lemma_comp_push(s1, c1);
    crate::gas::lemma_comp_push(s2, c2);
    crate::gas::lemma_comp_push(s3, c3);
    assert(s =~= s4);
    assert(fill_of(e0) == 0);
    assert(voids_of(e0) == 0);
    assert(expand_all(e0) =~= Seq::<(Slot, Molecule)>::empty());
    assert(fill_of(s) == FRAC_ONE);
    assert(voids_of(s) == 0);
    assert(void_weight(s) == 0);
    let p0 = (Slot::Fixed(780_800_000_000u64), n2_spec());
    let p1 = (Slot::Fixed(209_500_000_000u64), o2_spec());
    let p2 = (Slot::Fixed(9_300_000_000u64), ar_spec());
    let p3 = (Slot::Fixed(400_000_000u64), co2_spec());
    assert(expand_comp(c0) =~= seq![p0]);
    assert(expand_comp(c1) =~= seq![p1]);
    assert(expand_comp(c2) =~= seq![p2]);
    assert(expand_comp(c3) =~= seq![p3]);
    let pend = seq![p0, p1, p2, p3];
    assert(expand_all(s) =~= pend);
    let ghost va: u64 = 0;
    let rs = resolve_all(pend, 0);
    let q0 = (780_800_000_000u128, n2_spec());
    let q1 = (209_500_000_000u128, o2_spec());
    let q2 = (9_300_000_000u128, ar_spec());
    let q3 = (400_000_000u128, co2_spec());
    let t = seq![q0, q1, q2, q3];
    assert(rs =~= t);
    // The list is already in descending canonical order, so sorting keeps it.
    let te = Seq::<(u128, Molecule)>::empty();
    let t1 = seq![q0];
    let t2 = seq![q0, q1];
    let t3 = seq![q0, q1, q2];
    assert(sort_entries(te) =~= te);
    assert(t1.drop_last() =~= te);
    assert(sort_entries(t1) == insert_sorted(q0, sort_entries(te)));
    assert(insert_sorted(q0, te) =~= t1);
    assert(t2.drop_last() =~= t1);
    assert(sort_entries(t2) == insert_sorted(q1, sort_entries(t1)));
    assert(!entry_le(q1, q0));
    assert(t1.drop_first() =~= te);
    assert(insert_sorted(q1, t1) =~= seq![q0] + insert_sorted(q1, te));
    assert(insert_sorted(q1, te) =~= seq![q1]);
    assert(sort_entries(t2) =~= t2);
    assert(t3.drop_last() =~= t2);
    assert(sort_entries(t3) == insert_sorted(q2, sort_entries(t2)));
    assert(!entry_le(q2, q0));
    assert(t2.drop_first() =~= seq![q1]);
    assert(!entry_le(q2, q1));
    assert(seq![q1].drop_first() =~= te);
    assert(insert_sorted(q2, seq![q1]) =~= seq![q1] + insert_sorted(q2, te));
    assert(insert_sorted(q2, te) =~= seq![q2]);
    assert(insert_sorted(q2, t2) =~= seq![q0] + insert_sorted(q2, seq![q1]));
    assert(sort_entries(t3) =~= t3);
    assert(t.drop_last() =~= t3);
    assert(sort_entries(t) == insert_sorted(q3, sort_entries(t3)));
    assert(!entry_le(q3, q0));
    assert(t3.drop_first() =~= t2.drop_first() + seq![q2]);
    assert(t3.drop_first() =~= seq![q1, q2]);
    assert(!entry_le(q3, q1));
    assert(seq![q1, q2].drop_first() =~= seq![q2]);
    assert(!entry_le(q3, q2));
    assert(seq![q2].drop_first() =~= te);
    assert(insert_sorted(q3, seq![q2]) =~= seq![q2] + insert_sorted(q3, te));
    assert(insert_sorted(q3, te) =~= seq![q3]);
    assert(insert_sorted(q3, seq![q1, q2]) =~= seq![q1] + insert_sorted(q3, seq![q2]));
    assert(insert_sorted(q3, t3) =~= seq![q0] + insert_sorted(q3, seq![q1, q2]));
    assert(sort_entries(t) =~= t);
    // All four molecules are distinct, so merging changes nothing.
    assert(t[0].1 != t[1].1);
    assert(merge_adjacent(t) =~= seq![t[0]] + merge_adjacent(t.drop_first()));
    assert(t.drop_first() =~= seq![q1, q2, q3]);
    assert(merge_adjacent(seq![q1, q2, q3]) =~= seq![q1] + merge_adjacent(seq![q2, q3])) by {
        assert(seq![q1, q2, q3][0].1 != seq![q1, q2, q3][1].1);
        assert(seq![q1, q2, q3].drop_first() =~= seq![q2, q3]);
    }
    assert(merge_adjacent(seq![q2, q3]) =~= seq![q2] + merge_adjacent(seq![q3])) by {
        assert(seq![q2, q3][0].1 != seq![q2, q3][1].1);
        assert(seq![q2, q3].drop_first() =~= seq![q3]);
    }
    assert(merge_adjacent(seq![q3]) =~= seq![q3]);
    let canon = crate::canon::canonicalize(resolve_all(expand_all(s), void_weight(s)));
    assert(canon =~= t);
    assert(sum_entries(t) == FRAC_ONE) by {
        assert(t.drop_first() =~= seq![q1, q2, q3]);
        assert(seq![q1, q2, q3].drop_first() =~= seq![q2, q3]);
        assert(seq![q2, q3].drop_first() =~= seq![q3]);
        assert(seq![q3].drop_first() =~= te);
        assert(sum_entries(te) == 0);
        assert(sum_entries(seq![q3]) == q3.0 + sum_entries(te));
        assert(sum_entries(seq![q2, q3]) == q2.0 + sum_entries(seq![q3]));
        assert(sum_entries(seq![q1, q2, q3]) == q1.0 + sum_entries(seq![q2, q3]));
        assert(sum_entries(t) == q0.0 + sum_entries(t.drop_first()));
    }
    assert(crate::canon::all_positive(t)) by {
        assert forall|i: int| 0 <= i < t.len() implies (#[trigger] t[i]).0 > 0 by {
            assert(i == 0 || i == 1 || i == 2 || i == 3);
        }
    }
    assert(canon.map_values(|e: (u128, Molecule)| (e.0 as u64, e.1)) =~= dry_air_view());
}

/// The dry-air mixture, built through the mixture builder.
pub fn dry_air() -> (r: Mixture)
    ensures
        r@ == dry_air_view(),
        r.wf(),
{
    let comps: Vec<Comp> = vec![
        Comp::Factor(780_800_000_000, Gas::Molecule(n2())),
        Comp::Factor(209_500_000_000, Gas::Molecule(o2())),
        Comp::Factor(9_300_000_000, Gas::Molecule(ar())),
        Comp::Factor(400_000_000, Gas::Molecule(co2())),
    ];
    proof {
        assert(comps@ =~= dry_air_comps());
        assert forall|i: int| 0 <= i < comps@.len() implies crate::gas::comp_gas_wf(
            #[trigger] comps@[i],
        ) by {
            assert(i == 0 || i == 1 || i == 2 || i == 3);
        }
        lemma_dry_air_builds();
    }
    match Mixture::new(comps.as_slice()) {
        Ok(m) => m,
        Err(_) => vstd::pervasive::unreached(),
    }
}

/// What the registry holds under each pure-compound name.
pub open spec fn lookup_molecule_spec(n: Seq<char>) -> Option<Molecule> {
    if n == "Ar"@ {
        Some(ar_spec())
    } else if n == "Br2"@ {
        Some(br2_spec())
    } else if n == "Cl2"@ {
        Some(cl2_spec())
    } else if n == "F2"@ {
        Some(f2_spec())
    } else if n == "He"@ {
        Some(he_spec())
    } else if n == "H2"@ {
        Some(h2_spec())
    } else if n == "I2"@ {
        Some(i2_spec())
    } else if n == "Kr"@ {
        Some(kr_spec())
    } else if n == "Ne"@ {
        Some(ne_spec())
    } else if n == "N2"@ {
        Some(n2_spec())
    } else if n == "O2"@ {
        Some(o2_spec())
    } else if n == "Xe"@ {
        Some(xe_spec())
    } else if n == "C2H2"@ {
        Some(c2h2_spec())
    } else if n == "C6H6"@ {
        Some(c6h6_spec())
    } else if n == "C4H10"@ {
        Some(c4h10_spec())
    } else if n == "C4H8"@ {
        Some(c4h8_spec())
    } else if n == "C6H12"@ {
        Some(c6h12_spec())
    } else if n == "C3H6"@ {
        Some(c3h6_spec())
    } else if n == "C2H6"@ {
        Some(c2h6_spec())
    } else if n == "C2H4"@ {
        Some(c2h4_spec())
    } else if n == "NH3"@ {
        Some(nh3_spec())
    } else if n == "CO2"@ {
        Some(co2_spec())
    } else if n == "CO"@ {
        Some(co_spec())
    } else if n == "NO"@ {
        Some(no_spec())
    } else if n == "SO2"@ {
        Some(so2_spec())
    } else if n == "SO3"@ {
        Some(so3_spec())
    } else if n == "H2O"@ {
        Some(h2o_spec())
    } else if n == "CH3COOH"@ {
        Some(ch3cooh_spec())
    } else if n == "C3H6O"@ {
        Some(c3h6o_spec())
    } else if n == "C2H5OH"@ {
        Some(c2h5oh_spec())
    } else if n == "CH3OH"@ {
        Some(ch3oh_spec())
    } else if n == "CH3CL"@ {
        Some(ch3cl_spec())
    } else {
        None
    }
}

/// Looks up a compound by its symbolic name, given as characters: the named
/// molecule, the dry-air mixture under its own name, or nothing.
pub fn lookup_chars(name: &[char]) -> (r: Option<Gas>)
    ensures
        name@ == "dry_air"@ ==> (r matches Some(g) && g matches Gas::Mixture(mx) && mx@
            == dry_air_view() && mx.wf()),
        name@ != "dry_air"@ ==> match lookup_molecule_spec(name@) {
            Some(m) => r == Some(Gas::Molecule(m)),
            None => r is None,
        },
{
    if chars_eq_str(name, "dry_air") {
        return Some(Gas::Mixture(dry_air()));
    }
    if chars_eq_str(name, "Ar") {
        return Some(Gas::Molecule(ar()));
    }
    if chars_eq_str(name, "Br2") {
        return Some(Gas::Molecule(br2()));
    }
    if chars_eq_str(name, "Cl2") {
        return Some(Gas::Molecule(cl2()));
    }
    if chars_eq_str(name, "F2") {
        return Some(Gas::Molecule(f2()));
    }
    if chars_eq_str(name, "He") {
        return Some(Gas::Molecule(he()));
    }
    if chars_eq_str(name, "H2") {
        return Some(Gas::Molecule(h2()));
    }
    if chars_eq_str(name, "I2") {
        return Some(Gas::Molecule(i2()));
    }
    if chars_eq_str(name, "Kr") {
        return Some(Gas::Molecule(kr()));
    }
    if chars_eq_str(name, "Ne") {
        return Some(Gas::Molecule(ne()));
    }
    if chars_eq_str(name, "N2") {
        return Some(Gas::Molecule(n2()));
    }
    if chars_eq_str(name, "O2") {
        return Some(Gas::Molecule(o2()));
    }
    if chars_eq_str(name, "Xe") {
        return Some(Gas::Molecule(xe()));
    }
    if chars_eq_str(name, "C2H2") {
        return Some(Gas::Molecule(c2h2()));
    }
    if chars_eq_str(name, "C6H6") {
        return Some(Gas::Molecule(c6h6()));
    }
    if chars_eq_str(name, "C4H10") {
        return Some(Gas::Molecule(c4h10()));
    }
    if chars_eq_str(name, "C4H8") {
        return Some(Gas::Molecule(c4h8()));
    }
    if chars_eq_str(name, "C6H12") {
        return Some(Gas::Molecule(c6h12()));
    }
    if chars_eq_str(name, "C3H6") {
        return Some(Gas::Molecule(c3h6()));
    }
    if chars_eq_str(name, "C2H6") {
        return Some(Gas::Molecule(c2h6()));
    }
    if chars_eq_str(name, "C2H4") {
        return Some(Gas::Molecule(c2h4()));
    }
    if chars_eq_str(name, "NH3") {
        return Some(Gas::Molecule(nh3()));
    }
    if chars_eq_str(name, "CO2") {
        return Some(Gas::Molecule(co2()));
    }
    if chars_eq_str(name, "CO") {
        return Some(Gas::Molecule(co()));
    }
    if chars_eq_str(name, "NO") {
        return Some(Gas::Molecule(no()));
    }
    if chars_eq_str(name, "SO2") {
        return Some(Gas::Molecule(so2()));
    }
    if chars_eq_str(name, "SO3") {
        return Some(Gas::Molecule(so3()));
    }
    if chars_eq_str(name, "H2O") {
        return Some(Gas::Molecule(h2o()));
    }
    if chars_eq_str(name, "CH3COOH") {
        return Some(Gas::Molecule(ch3cooh()));
    }
    if chars_eq_str(name, "C3H6O") {
        return Some(Gas::Molecule(c3h6o()));
    }
    if chars_eq_str(name, "C2H5OH") {
        return Some(Gas::Molecule(c2h5oh()));
    }
    if chars_eq_str(name, "CH3OH") {
        return Some(Gas::Molecule(ch3oh()));
    }
    if chars_eq_str(name, "CH3CL") {
        return Some(Gas::Molecule(ch3cl()));
    }
    None
}

/// Looks up a compound by its symbolic name.
pub fn lookup(name: &str) -> (r: Option<Gas>)
    ensures
        name@ == "dry_air"@ ==> (r matches Some(g) && g matches Gas::Mixture(mx) && mx@
            == dry_air_view() && mx.wf()),
        name@ != "dry_air"@ ==> match lookup_molecule_spec(name@) {
            Some(m) => r == Some(Gas::Molecule(m)),
            None => r is None,
        },
{
    let cs = str_chars(name);
    lookup_chars(cs.as_slice())
}

} // verus!
