//! Gas descriptions: pure molecules, validated mixtures, and the mixture
//! builder with its canonicalization (flattening, remainder attribution,
//! sorting and merging).
//!
//! All molar fractions are scaled integers in units of `1e-12` (see
//! [`crate::FRAC_ONE`]), so the composition arithmetic here is exact except
//! for the explicit floor divisions of the remainder attribution, whose
//! rounding is bounded by the construction-time tolerance check.

use vstd::prelude::*;

use crate::{FRAC_ONE, FRAC_TOL};

verus! {

/// The critical state of a pure compound.
///
/// Units: `p` in Pa, `t` in mK (millikelvin), `v` in 1e-9 m^3/mol.
#[derive(Debug, Clone, Copy, PartialEq, Eq, Structural)]
pub struct CriticalState {
    /// The critical pressure of the compound, in Pa
    pub p: u64,
    /// The critical temperature of the compound, in mK
    pub t: u64,
    /// The critical molar volume of the compound, in 1e-9 m^3/mol
    pub v: u64,
}

/// A gas molecule, represented by its physical properties.
///
/// Units: `m` in 1e-9 kg/mol, `w` dimensionless in units of 1e-6.
#[derive(Debug, Clone, Copy, PartialEq, Eq, Structural)]
pub struct Molecule {
    /// The molar mass, in 1e-9 kg/mol
    pub m: u64,
    /// The critical state of this molecule
    pub critical_state: CriticalState,
    /// The acentric factor, in units of 1e-6
    pub w: i64,
}

/// A mixture of several gases: a canonicalized list of (molar fraction,
/// molecule) pairs whose fractions sum to the whole within [`FRAC_TOL`].
#[derive(Debug, Clone)]
pub struct Mixture {
    comps: Vec<(u64, Molecule)>,
}

impl View for Mixture {
    type V = Seq<(u64, Molecule)>;

    closed spec fn view(&self) -> Seq<(u64, Molecule)> {
        self.comps@
    }
}

/// A mixture construction error.
#[derive(Debug, Clone, Copy, PartialEq, Eq, Structural)]
pub enum MixtureError {
    /// The fractions do not sum to the whole and no remainder can absorb the gap.
    MixtureNotWhole,
    /// An explicit fraction lies outside (0, 1); carries the offending value.
    InvalidFraction(u64),
}

/// A generic gas, that can be either a molecule or a mixture.
#[derive(Debug, Clone)]
pub enum Gas {
    Molecule(Molecule),
    Mixture(Mixture),
}

/// A component used to build a mixture: either a gas weighted by an explicit
/// molar fraction, or a remainder whose fraction is inferred.
#[derive(Debug, Clone)]
pub enum Comp {
    Factor(u64, Gas),
    Remainder(Gas),
}

/// The pending fraction of one flattened component entry, before remainder
/// attribution: an explicit value, a bare remainder slot, or a remainder
/// slot scaled by a nested mixture's own fraction.
#[derive(Debug, Clone, Copy)]
pub enum Slot {
    Fixed(u64),
    Void,
    Scaled(u64),
}

/// The sum of the fractions of a component list.
pub open spec fn sum_fracs(s: Seq<(u64, Molecule)>) -> int
    decreases s.len(),
{
    if s.len() == 0 {
        0
    } else {
        s[0].0 + sum_fracs(s.drop_first())
    }
}

/// Well-formedness of a mixture's component list: every fraction is positive
/// and the total lies within the tolerance below the whole.
pub open spec fn comps_wf(s: Seq<(u64, Molecule)>) -> bool {
    &&& forall|i: int| 0 <= i < s.len() ==> (#[trigger] s[i]).0 > 0
    &&& FRAC_ONE - FRAC_TOL <= sum_fracs(s) <= FRAC_ONE
}

impl Mixture {
    /// The mixture invariant, established by construction and preserved ever
    /// after: positive fractions summing to 1.0 within the tolerance.
    pub open spec fn wf(&self) -> bool {
        comps_wf(self@)
    }
}

/// Whether a gas is well formed: molecules always are, mixtures carry their
/// invariant.
pub open spec fn gas_wf(g: Gas) -> bool {
    match g {
        Gas::Molecule(_) => true,
        Gas::Mixture(mx) => mx.wf(),
    }
}

/// Whether the gas of a builder component is well formed.
pub open spec fn comp_gas_wf(c: Comp) -> bool {
    match c {
        Comp::Factor(_, g) => gas_wf(g),
        Comp::Remainder(g) => gas_wf(g),
    }
}

pub open spec fn all_comp_gases_wf(s: Seq<Comp>) -> bool {
    forall|i: int| 0 <= i < s.len() ==> comp_gas_wf(#[trigger] s[i])
}

/// The explicit fraction a component contributes to the fill, 0 for remainders.
pub open spec fn explicit_frac(c: Comp) -> int {
    match c {
        Comp::Factor(f, _) => f as int,
        Comp::Remainder(_) => 0,
    }
}

/// The sum of the explicit fractions of a component sequence.
pub open spec fn fill_of(s: Seq<Comp>) -> int
    decreases s.len(),
{
    if s.len() == 0 {
        0
    } else {
        explicit_frac(s[0]) + fill_of(s.drop_first())
    }
}

/// The number of remainder components of a sequence.
pub open spec fn voids_of(s: Seq<Comp>) -> int
    decreases s.len(),
{
    if s.len() == 0 {
        0
    } else {
        (if s[0] is Remainder {
            1int
        } else {
            0int
        }) + voids_of(s.drop_first())
    }
}

/// Whether a component carries an explicit fraction outside (0, 1).
pub open spec fn comp_invalid(c: Comp) -> bool {
    match c {
        Comp::Factor(f, _) => f == 0 || f >= FRAC_ONE,
        Comp::Remainder(_) => false,
    }
}

pub open spec fn has_invalid(s: Seq<Comp>) -> bool {
    exists|i: int| 0 <= i < s.len() && comp_invalid(#[trigger] s[i])
}

/// The fraction value of the first invalid component, the one the builder
/// reports.
pub open spec fn first_invalid(s: Seq<Comp>) -> u64
    decreases s.len(),
{
    if s.len() == 0 {
        0
    } else {
        match s[0] {
            Comp::Factor(f, _) => if f == 0 || f >= FRAC_ONE {
                f
            } else {
                first_invalid(s.drop_first())
            },
            Comp::Remainder(_) => first_invalid(s.drop_first()),
        }
    }
}

/// Floor of a product of two fractions, in fraction units.
pub open spec fn mul_frac(a: int, b: int) -> int {
    (a * b) / (FRAC_ONE as int)
}

/// The flattened pending entries one builder component contributes: a
/// molecule is one entry; a nested mixture contributes each of its own
/// components, scaled now when the factor is explicit, or marked for scaling
/// by the inferred void weight when it is a remainder.
pub open spec fn expand_comp(c: Comp) -> Seq<(Slot, Molecule)> {
    match c {
        Comp::Factor(f, Gas::Molecule(m)) => seq![(Slot::Fixed(f), m)],
        Comp::Factor(f, Gas::Mixture(mx)) => mx@.map_values(
            |e: (u64, Molecule)| (Slot::Fixed(mul_frac(f as int, e.0 as int) as u64), e.1),
        ),
        Comp::Remainder(Gas::Molecule(m)) => seq![(Slot::Void, m)],
        Comp::Remainder(Gas::Mixture(mx)) => mx@.map_values(
            |e: (u64, Molecule)| (Slot::Scaled(e.0), e.1),
        ),
    }
}

/// The flattened pending entries of a whole component sequence, in order.
pub open spec fn expand_all(s: Seq<Comp>) -> Seq<(Slot, Molecule)>
    decreases s.len(),
{
    if s.len() == 0 {
        Seq::empty()
    } else {
        expand_comp(s[0]) + expand_all(s.drop_first())
    }
}

/// The fraction a pending entry resolves to, once the void weight is known.
pub open spec fn resolve_slot(slot: Slot, va: u64) -> u128 {
    match slot {
        Slot::Fixed(f) => f as u128,
        Slot::Void => va as u128,
        Slot::Scaled(c) => mul_frac(c as int, va as int) as u128,
    }
}

/// All pending entries resolved against the void weight.
pub open spec fn resolve_all(s: Seq<(Slot, Molecule)>, va: u64) -> Seq<(u128, Molecule)> {
    s.map_values(|e: (Slot, Molecule)| (resolve_slot(e.0, va), e.1))
}

/// The void weight: what one remainder slot absorbs of the unfilled part.
pub open spec fn void_weight(s: Seq<Comp>) -> u64 {
    (if voids_of(s) > 0 {
        (FRAC_ONE - fill_of(s)) / voids_of(s)
    } else {
        0
    }) as u64
}

/// What building a mixture from a component sequence yields: the first
/// fraction outside (0, 1) is reported; a fill beyond the whole, or short of
/// it with no remainder to absorb the gap, is not whole; otherwise the
/// flattened entries are resolved against the void weight, canonicalized,
/// and accepted when they still sum to the whole within the tolerance with
/// no component rounded down to nothing.
pub open spec fn mixture_new_spec(s: Seq<Comp>) -> Result<Seq<(u64, Molecule)>, MixtureError> {
    if has_invalid(s) {
        Err(MixtureError::InvalidFraction(first_invalid(s)))
    } else if fill_of(s) > FRAC_ONE {
        Err(MixtureError::MixtureNotWhole)
    } else if fill_of(s) != FRAC_ONE && voids_of(s) == 0 {
        Err(MixtureError::MixtureNotWhole)
    } else {
        let canon = crate::canon::canonicalize(resolve_all(expand_all(s), void_weight(s)));
        if crate::canon::sum_entries(canon) < FRAC_ONE - FRAC_TOL || crate::canon::sum_entries(
            canon,
        ) > FRAC_ONE || !crate::canon::all_positive(canon) {
            Err(MixtureError::MixtureNotWhole)
        } else {
            Ok(canon.map_values(|e: (u128, Molecule)| (e.0 as u64, e.1)))
        }
    }
}

/// Every pending entry's payload is bounded by the whole.
pub open spec fn slot_payload(s: Slot) -> int {
    match s {
        Slot::Fixed(f) => f as int,
        Slot::Void => 0,
        Slot::Scaled(c) => c as int,
    }
}

pub open spec fn slots_bounded(s: Seq<(Slot, Molecule)>) -> bool {
    forall|i: int| 0 <= i < s.len() ==> slot_payload((#[trigger] s[i]).0) <= FRAC_ONE
}

/// Appending one component extends the fill, the void count, the invalidity
/// and the flattened entries in the evident way.
pub proof fn lemma_comp_push(s: Seq<Comp>, c: Comp)
    ensures
        fill_of(s.push(c)) == fill_of(s) + explicit_frac(c),
        voids_of(s.push(c)) == voids_of(s) + (if c is Remainder {
            1int
        } else {
            0int
        }),
        expand_all(s.push(c)) == expand_all(s) + expand_comp(c),
        has_invalid(s.push(c)) <==> (has_invalid(s) || comp_invalid(c)),
    decreases s.len(),
{
    if s.len() == 0 {
        assert(s.push(c).drop_first() =~= Seq::<Comp>::empty());
        assert(s.push(c)[0] == c);
        assert(fill_of(Seq::<Comp>::empty()) == 0);
        assert(voids_of(Seq::<Comp>::empty()) == 0);
        assert(expand_all(Seq::<Comp>::empty()) =~= Seq::<(Slot, Molecule)>::empty());
        assert(expand_all(s.push(c)) =~= expand_all(s) + expand_comp(c));
        if comp_invalid(c) {
            assert(comp_invalid(s.push(c)[0]));
        }
        if has_invalid(s.push(c)) {
            let i = choose|i: int| 0 <= i < s.push(c).len() && comp_invalid(s.push(c)[i]);
            assert(i == 0);
        }
        if has_invalid(s) {
            let i = choose|i: int| 0 <= i < s.len() && comp_invalid(s[i]);
            assert(false);
        }
    } else {
        assert(s.push(c).drop_first() =~= s.drop_first().push(c));
        assert(s.push(c)[0] == s[0]);
        lemma_comp_push(s.drop_first(), c);
        assert(expand_all(s.push(c)) =~= expand_all(s) + expand_comp(c));
        if has_invalid(s.push(c)) {
            let i = choose|i: int| 0 <= i < s.push(c).len() && comp_invalid(s.push(c)[i]);
            if i < s.len() {
                assert(comp_invalid(s[i]));
                assert(has_invalid(s));
            } else {
                assert(comp_invalid(c));
            }
        }
        if has_invalid(s) {
            let i = choose|i: int| 0 <= i < s.len() && comp_invalid(s[i]);
            assert(comp_invalid(s.push(c)[i]));
            assert(has_invalid(s.push(c)));
        }
        if comp_invalid(c) {
            assert(comp_invalid(s.push(c)[s.len() as int]));
            assert(has_invalid(s.push(c)));
        }
    }
}

/// The reported invalid fraction is the first one in input order.
pub proof fn lemma_first_invalid_at(s: Seq<Comp>, i: int, f: u64)
    requires
        0 <= i < s.len(),
        !has_invalid(s.take(i)),
        s[i] matches Comp::Factor(g, _) && g == f,
        f == 0 || f >= FRAC_ONE,
    ensures
        first_invalid(s) == f,
        has_invalid(s),
    decreases i,
{
    assert(comp_invalid(s[i]));
    assert(has_invalid(s));
    if i == 0 {
    } else {
        assert(!comp_invalid(s[0])) by {
            assert(s.take(i)[0] == s[0]);
        }
        assert(s.drop_first().take(i - 1) =~= s.take(i).drop_first());
        assert(!has_invalid(s.drop_first().take(i - 1))) by {
            if has_invalid(s.take(i).drop_first()) {
                let j = choose|j: int|
                    0 <= j < s.take(i).drop_first().len() && comp_invalid(
                        s.take(i).drop_first()[j],
                    );
                assert(comp_invalid(s.take(i)[j + 1]));
            }
        }
        assert(s.drop_first()[i - 1] == s[i]);
        lemma_first_invalid_at(s.drop_first(), i - 1, f);
    }
}

/// Without invalid fractions, the fill is bounded by the component count.
pub proof fn lemma_fill_bound(s: Seq<Comp>)
    requires
        !has_invalid(s),
    ensures
        0 <= fill_of(s) <= s.len() * (FRAC_ONE - 1),
    decreases s.len(),
{
    if s.len() == 0 {
    } else {
        assert(!comp_invalid(s[0]));
        assert(!has_invalid(s.drop_first())) by {
            if has_invalid(s.drop_first()) {
                let j = choose|j: int|
                    0 <= j < s.drop_first().len() && comp_invalid(s.drop_first()[j]);
                assert(comp_invalid(s[j + 1]));
            }
        }
        lemma_fill_bound(s.drop_first());
        assert(explicit_frac(s[0]) <= FRAC_ONE - 1);
        assert(s.len() * (FRAC_ONE - 1) == (s.drop_first().len() * (FRAC_ONE - 1)) + (FRAC_ONE
            - 1)) by (nonlinear_arith)
            requires
                s.len() == s.drop_first().len() + 1,
        ;
    }
}

/// The void count is bounded by the component count.
pub proof fn lemma_voids_bound(s: Seq<Comp>)
    ensures
        0 <= voids_of(s) <= s.len(),
    decreases s.len(),
{
    if s.len() > 0 {
        lemma_voids_bound(s.drop_first());
    }
}

/// Every fraction of a component list is at most the list's sum.
pub proof fn lemma_frac_le_sum(s: Seq<(u64, Molecule)>, i: int)
    requires
        0 <= i < s.len(),
    ensures
        s[i].0 <= sum_fracs(s),
    decreases s.len(),
{
    lemma_sum_fracs_nonneg(s.drop_first());
    if i > 0 {
        lemma_frac_le_sum(s.drop_first(), i - 1);
    }
}

pub proof fn lemma_sum_fracs_nonneg(s: Seq<(u64, Molecule)>)
    ensures
        sum_fracs(s) >= 0,
    decreases s.len(),
{
    if s.len() > 0 {
        lemma_sum_fracs_nonneg(s.drop_first());
    }
}

impl Mixture {
    /// The canonicalized components of this mixture, in order: (molar
    /// fraction, molecule) pairs.
    pub fn components(&self) -> (r: &Vec<(u64, Molecule)>)
        ensures
            r@ == self@,
    {
        &self.comps
    }

    /// Builds a mixture from a list of components, validating, flattening
    /// and canonicalizing it, exactly as [`mixture_new_spec`] lays out.
    ///
    /// Any explicit fraction outside (0, 1) is rejected as
    /// [`MixtureError::InvalidFraction`]; a composition that does not fill
    /// the whole and cannot be completed by remainder components is
    /// [`MixtureError::MixtureNotWhole`]. Nested mixtures are expected to
    /// carry their construction invariant, as every mixture this crate
    /// hands out does.
    pub fn new(comps: &[Comp]) -> (r: Result<Mixture, MixtureError>)
        requires
            all_comp_gases_wf(comps@),
        ensures
            match (r, mixture_new_spec(comps@)) {
                (Ok(m), Ok(cs)) => m@ == cs && m.wf(),
                (Err(e1), Err(e2)) => e1 == e2,
                _ => false,
            },
    {
        let ghost whole = comps@;
        let mut tmp: Vec<(Slot, Molecule)> = Vec::new();
        let mut fill: u128 = 0;
        let mut num_voids: usize = 0;
        let mut i: usize = 0;
        proof {
            assert(whole.take(0) =~= Seq::<Comp>::empty());
            assert(expand_all(Seq::<Comp>::empty()) =~= Seq::<(Slot, Molecule)>::empty());
        }
        while i < comps.len()
            invariant
                all_comp_gases_wf(whole),
                comps@ == whole,
                0 <= i <= whole.len(),
                !has_invalid(whole.take(i as int)),
                fill == fill_of(whole.take(i as int)),
                num_voids == voids_of(whole.take(i as int)),
                tmp@ == expand_all(whole.take(i as int)),
                slots_bounded(tmp@),
            decreases whole.len() - i,
        {
            let ghost pre = whole.take(i as int);
            proof {
                assert(whole.take(i as int + 1) =~= pre.push(whole[i as int]));
                lemma_comp_push(pre, whole[i as int]);
                lemma_fill_bound(pre);
                lemma_voids_bound(pre);
            }
            match &comps[i] {
                Comp::Factor(f, g) => {
                    let f = *f;
                    if f == 0 || f >= FRAC_ONE {
                        proof {
                            lemma_first_invalid_at(whole, i as int, f);
                        }
                        return Err(MixtureError::InvalidFraction(f));
                    }
                    fill = fill + (f as u128);
                    match g {
                        Gas::Molecule(m) => {
                            tmp.push((Slot::Fixed(f), *m));
                            proof {
                                assert(expand_comp(whole[i as int]) =~= seq![
                                    (Slot::Fixed(f), *m),
                                ]);
                                assert(tmp@ =~= expand_all(whole.take(i as int + 1)));
                            }
                        },
                        Gas::Mixture(mx) => {
                            let ghost t0 = tmp@;
                            let ghost exp = expand_comp(whole[i as int]);
                            let n = mx.comps.len();
                            let mut j: usize = 0;
                            proof {
                                assert(t0 + exp.take(0) =~= t0);
                            }
                            while j < n
                                invariant
                                    0 <= j <= n,
                                    n == mx.comps@.len(),
                                    mx.wf(),
                                    0 < f < FRAC_ONE,
                                    exp == expand_comp(
                                        Comp::Factor(f, Gas::Mixture(*mx)),
                                    ),
                                    whole[i as int] == Comp::Factor(f, Gas::Mixture(*mx)),
                                    0 <= i < whole.len(),
                                    tmp@ == t0 + exp.take(j as int),
                                    slots_bounded(tmp@),
                                decreases n - j,
                            {
                                let (cf, cm) = mx.comps[j];
                                proof {
                                    lemma_frac_le_sum(mx@, j as int);
                                }
                                let nf = mul_frac_exec(f, cf);
                                tmp.push((Slot::Fixed(nf), cm));
                                proof {
                                    assert(exp[j as int] == (
                                        Slot::Fixed(mul_frac(f as int, cf as int) as u64),
                                        cm,
                                    ));
                                    assert(nf == mul_frac(f as int, cf as int) as u64);
                                    assert(tmp@ =~= t0 + exp.take(j as int + 1));
                                }
                                j = j + 1;
                            }
                            proof {
                                assert(exp.take(n as int) =~= exp);
                                assert(tmp@ =~= expand_all(whole.take(i as int + 1)));
                            }
                        },
                    }
                },
                Comp::Remainder(g) => {
                    num_voids = num_voids + 1;
                    match g {
                        Gas::Molecule(m) => {
                            tmp.push((Slot::Void, *m));
                            proof {
                                assert(expand_comp(whole[i as int]) =~= seq![(Slot::Void, *m)]);
                                assert(tmp@ =~= expand_all(whole.take(i as int + 1)));
                            }
                        },
                        Gas::Mixture(mx) => {
                            let ghost t0 = tmp@;
                            let ghost exp = expand_comp(whole[i as int]);
                            let n = mx.comps.len();
                            let mut j: usize = 0;
                            proof {
                                assert(t0 + exp.take(0) =~= t0);
                            }
                            while j < n
                                invariant
                                    0 <= j <= n,
                                    n == mx.comps@.len(),
                                    mx.wf(),
                                    exp == expand_comp(Comp::Remainder(Gas::Mixture(*mx))),
                                    whole[i as int] == Comp::Remainder(Gas::Mixture(*mx)),
                                    0 <= i < whole.len(),
                                    tmp@ == t0 + exp.take(j as int),
                                    slots_bounded(tmp@),
                                decreases n - j,
                            {
                                let (cf, cm) = mx.comps[j];
                                proof {
                                    lemma_frac_le_sum(mx@, j as int);
                                }
                                tmp.push((Slot::Scaled(cf), cm));
                                proof {
                                    assert(exp[j as int] == (Slot::Scaled(cf), cm));
                                    assert(tmp@ =~= t0 + exp.take(j as int + 1));
                                }
                                j = j + 1;
                            }
                            proof {
                                assert(exp.take(n as int) =~= exp);
                                assert(tmp@ =~= expand_all(whole.take(i as int + 1)));
                            }
                        },
                    }
                },
            }
            i = i + 1;
        }
        proof {
            assert(whole.take(whole.len() as int) =~= whole);
        }
        if fill > FRAC_ONE as u128 {
            return Err(MixtureError::MixtureNotWhole);
        }
        if fill != FRAC_ONE as u128 && num_voids == 0 {
            return Err(MixtureError::MixtureNotWhole);
        }
        let va: u64 = if num_voids > 0 {
            proof {
                assert((FRAC_ONE - fill_of(whole)) / voids_of(whole) <= FRAC_ONE - fill_of(
                    whole,
                )) by (nonlinear_arith)
                    requires
                        FRAC_ONE - fill_of(whole) >= 0,
                        voids_of(whole) >= 1,
                ;
                assert((FRAC_ONE - fill_of(whole)) / voids_of(whole) >= 0) by (nonlinear_arith)
                    requires
                        FRAC_ONE - fill_of(whole) >= 0,
                        voids_of(whole) >= 1,
                ;
            }
            ((FRAC_ONE as u128 - fill) / (num_voids as u128)) as u64
        } else {
            0
        };
        proof {
            assert(va == void_weight(whole));
        }
        let mut resolved: Vec<(u128, Molecule)> = Vec::new();
        let mut k: usize = 0;
        proof {
            assert(resolve_all(tmp@.take(0), va) =~= Seq::<(u128, Molecule)>::empty());
        }
        while k < tmp.len()
            invariant
                0 <= k <= tmp@.len(),
                va <= FRAC_ONE,
                slots_bounded(tmp@),
                resolved@ == resolve_all(tmp@.take(k as int), va),
                crate::canon::entries_bounded(resolved@),
            decreases tmp@.len() - k,
        {
            let (slot, m) = tmp[k];
            let fr: u128 = match slot {
                Slot::Fixed(f) => f as u128,
                Slot::Void => va as u128,
                Slot::Scaled(c) => {
                    proof {
                        assert((c as int) * (va as int) <= (FRAC_ONE as int) * (FRAC_ONE as int))
                            by (nonlinear_arith)
                            requires
                                0 <= c <= FRAC_ONE,
                                0 <= va <= FRAC_ONE,
                        ;
                        assert(slot_payload(tmp@[k as int].0) == c as int);
                    }
                    ((c as u128) * (va as u128)) / (FRAC_ONE as u128)
                },
            };
            proof {
                assert(fr as int == resolve_slot(slot, va) as int);
                if let Slot::Scaled(c) = slot {
                    assert(slot_payload(tmp@[k as int].0) == c as int);
                    assert(mul_frac(c as int, va as int) <= va as int) by (nonlinear_arith)
                        requires
                            0 <= c <= FRAC_ONE,
                            0 <= va,
                    ;
                }
                assert(fr <= FRAC_ONE);
            }
            resolved.push((fr, m));
            proof {
                assert(tmp@.take(k as int + 1) =~= tmp@.take(k as int).push(tmp@[k as int]));
                assert(resolved@ =~= resolve_all(tmp@.take(k as int + 1), va));
            }
            k = k + 1;
        }
        proof {
            assert(tmp@.take(tmp@.len() as int) =~= tmp@);
        }
        let sorted = crate::canon::sort_canonical(&resolved);
        let sorted_len = sorted.len();
        proof {
            crate::canon::lemma_sort_entries_multiset(resolved@);
            crate::canon::lemma_bounded_from_multiset(resolved@, sorted@);
            crate::canon::lemma_sum_entries_le_len(sorted@);
            assert(sorted@.len() == sorted_len);
            assert((sorted@.len() as int) * (FRAC_ONE as int) <= (0x1_0000_0000_0000_0000int)
                * (FRAC_ONE as int)) by (nonlinear_arith)
                requires
                    sorted@.len() < 0x1_0000_0000_0000_0000,
            ;
        }
        let merged = crate::canon::merge_canonical(&sorted);
        let ghost canon = crate::canon::canonicalize(resolve_all(expand_all(whole), va));
        proof {
            assert(merged@ == canon);
        }
        let mut total: u128 = 0;
        let mut k2: usize = 0;
        proof {
            assert(merged@.take(0) =~= Seq::<(u128, Molecule)>::empty());
        }
        while k2 < merged.len()
            invariant
                0 <= k2 <= merged@.len(),
                total == crate::canon::sum_entries(merged@.take(k2 as int)),
                crate::canon::sum_entries(merged@)
                    < 0x1_0000_0000_0000_0000_0000_0000_0000_0000,
            decreases merged@.len() - k2,
        {
            proof {
                crate::canon::lemma_sum_entries_take_skip(merged@, k2 as int);
                crate::canon::lemma_entry_le_sum(merged@.skip(k2 as int), 0);
                crate::canon::lemma_sum_entries_nonneg(merged@.skip(k2 as int));
                assert(merged@.skip(k2 as int)[0] == merged@[k2 as int]);
                assert(merged@.take(k2 as int + 1) =~= merged@.take(k2 as int).push(
                    merged@[k2 as int],
                ));
                crate::canon::lemma_sum_entries_push(merged@.take(k2 as int), merged@[k2 as int]);
                assert(merged@.skip(k2 as int).drop_first() =~= merged@.skip(k2 as int + 1));
                crate::canon::lemma_sum_entries_nonneg(merged@.skip(k2 as int + 1));
            }
            total = total + merged[k2].0;
            k2 = k2 + 1;
        }
        proof {
            assert(merged@.take(merged@.len() as int) =~= merged@);
            assert(total == crate::canon::sum_entries(canon));
        }
        if total < (FRAC_ONE - FRAC_TOL) as u128 || total > FRAC_ONE as u128 {
            return Err(MixtureError::MixtureNotWhole);
        }
        let mut out: Vec<(u64, Molecule)> = Vec::new();
        let mut k3: usize = 0;
        proof {
            assert(canon.take(0).map_values(|e: (u128, Molecule)| (e.0 as u64, e.1))
                =~= Seq::<(u64, Molecule)>::empty());
            assert(sum_fracs(Seq::<(u64, Molecule)>::empty()) == 0);
        }
        while k3 < merged.len()
            invariant
                0 <= k3 <= merged@.len(),
                merged@ == canon,
                comps@ == whole,
                !has_invalid(whole),
                fill_of(whole) <= FRAC_ONE,
                fill_of(whole) == FRAC_ONE || voids_of(whole) > 0,
                canon == crate::canon::canonicalize(
                    resolve_all(expand_all(whole), void_weight(whole)),
                ),
                FRAC_ONE - FRAC_TOL <= crate::canon::sum_entries(canon) <= FRAC_ONE,
                out@ == canon.take(k3 as int).map_values(
                    |e: (u128, Molecule)| (e.0 as u64, e.1),
                ),
                forall|q: int| 0 <= q < k3 ==> (#[trigger] canon[q]).0 > 0,
                sum_fracs(out@) == crate::canon::sum_entries(canon.take(k3 as int)),
                forall|q: int| 0 <= q < out@.len() ==> (#[trigger] out@[q]).0 > 0,
            decreases merged@.len() - k3,
        {
            let (fr, m) = merged[k3];
            if fr == 0 {
                proof {
                    assert(!crate::canon::all_positive(canon));
                }
                return Err(MixtureError::MixtureNotWhole);
            }
            proof {
                crate::canon::lemma_entry_le_sum(canon, k3 as int);
            }
            let ghost before = out@;
            out.push((fr as u64, m));
            proof {
                assert(canon.take(k3 as int + 1) =~= canon.take(k3 as int).push(
                    canon[k3 as int],
                ));
                assert(out@ =~= canon.take(k3 as int + 1).map_values(
                    |e: (u128, Molecule)| (e.0 as u64, e.1),
                ));
                crate::canon::lemma_sum_entries_push(canon.take(k3 as int), canon[k3 as int]);
                lemma_sum_fracs_push(before, ((fr as u64), m));
                assert(out@ =~= before.push(((fr as u64), m)));
                assert((fr as u64) as int == canon[k3 as int].0 as int);
            }
            k3 = k3 + 1;
        }
        proof {
            assert(canon.take(canon.len() as int) =~= canon);
            assert(crate::canon::all_positive(canon));
            assert(mixture_new_spec(whole) == Ok::<Seq<(u64, Molecule)>, MixtureError>(
                canon.map_values(|e: (u128, Molecule)| (e.0 as u64, e.1)),
            ));
        }
        Ok(Mixture { comps: out })
    }
}

/// Removing one component splits off its own contribution to the fill, the
/// void count and the flattened entries.
proof fn lemma_comp_remove(s: Seq<Comp>, j: int)
    requires
        0 <= j < s.len(),
    ensures
        fill_of(s) == explicit_frac(s[j]) + fill_of(s.remove(j)),
        voids_of(s) == (if s[j] is Remainder {
            1int
        } else {
            0int
        }) + voids_of(s.remove(j)),
        expand_all(s).to_multiset() == expand_comp(s[j]).to_multiset().add(
            expand_all(s.remove(j)).to_multiset(),
        ),
    decreases j,
{
    broadcast use vstd::seq_lib::group_to_multiset_ensures;
    broadcast use vstd::multiset::group_multiset_axioms;

    if j == 0 {
        assert(s.remove(0) =~= s.drop_first());
        vstd::seq_lib::lemma_multiset_commutative(expand_comp(s[0]), expand_all(
            s.drop_first(),
        ));
    } else {
        assert(s.remove(j).drop_first() =~= s.drop_first().remove(j - 1));
        assert(s.remove(j)[0] == s[0]);
        assert(s.drop_first()[j - 1] == s[j]);
        lemma_comp_remove(s.drop_first(), j - 1);
        assert(expand_all(s) == expand_comp(s[0]) + expand_all(s.drop_first()));
        assert(expand_all(s.remove(j)) == expand_comp(s[0]) + expand_all(
            s.drop_first().remove(j - 1),
        ));
        vstd::seq_lib::lemma_multiset_commutative(expand_comp(s[0]), expand_all(
            s.drop_first(),
        ));
        vstd::seq_lib::lemma_multiset_commutative(expand_comp(s[0]), expand_all(
            s.drop_first().remove(j - 1),
        ));
        let a = expand_comp(s[0]).to_multiset();
        let b = expand_comp(s[j]).to_multiset();
        let c = expand_all(s.drop_first().remove(j - 1)).to_multiset();
        assert(expand_all(s).to_multiset() == a.add(b.add(c)));
        assert(expand_all(s.remove(j)).to_multiset() == a.add(c));
        assert forall|y: (Slot, Molecule)| true implies a.add(b.add(c)).count(y) == b.add(
            a.add(c),
        ).count(y) by {
            assert(a.add(b.add(c)).count(y) == a.count(y) + b.count(y) + c.count(y));
            assert(b.add(a.add(c)).count(y) == b.count(y) + a.count(y) + c.count(y));
        }
        assert(a.add(b.add(c)) =~= b.add(a.add(c)));
    }
}

/// The fill, the void count and the multiset of flattened entries depend
/// only on the multiset of components, not on their order.
proof fn lemma_build_permutation(s: Seq<Comp>, t: Seq<Comp>)
    requires
        s.to_multiset() == t.to_multiset(),
    ensures
        fill_of(s) == fill_of(t),
        voids_of(s) == voids_of(t),
        expand_all(s).to_multiset() == expand_all(t).to_multiset(),
    decreases s.len(),
{
    broadcast use vstd::seq_lib::group_to_multiset_ensures;
    broadcast use vstd::multiset::group_multiset_axioms;

    if s.len() == 0 {
        s.to_multiset_ensures();
        t.to_multiset_ensures();
        assert(t.len() == 0);
        assert(t =~= s);
    } else {
        let x = s[0];
        assert(s.contains(x));
        assert(t.to_multiset().count(x) > 0);
        assert(t.contains(x));
        let j = choose|j: int| 0 <= j < t.len() && t[j] == x;
        assert(s.remove(0) =~= s.drop_first());
        assert(s.remove(0).to_multiset() == s.to_multiset().remove(x));
        assert(t.remove(j).to_multiset() == t.to_multiset().remove(x));
        lemma_build_permutation(s.drop_first(), t.remove(j));
        lemma_comp_remove(t, j);
        assert(expand_all(s) == expand_comp(x) + expand_all(s.drop_first()));
        vstd::seq_lib::lemma_multiset_commutative(expand_comp(x), expand_all(s.drop_first()));
        assert(expand_all(s).to_multiset() == expand_comp(x).to_multiset().add(
            expand_all(s.drop_first()).to_multiset(),
        ));
        assert(expand_all(t).to_multiset() == expand_comp(x).to_multiset().add(
            expand_all(t.remove(j)).to_multiset(),
        ));
        assert(expand_all(s).to_multiset() =~= expand_all(t).to_multiset());
    }
}

/// Whether some component is invalid depends only on the multiset.
proof fn lemma_has_invalid_permutation(s: Seq<Comp>, t: Seq<Comp>)
    requires
        s.to_multiset() == t.to_multiset(),
    ensures
        has_invalid(s) == has_invalid(t),
{
    broadcast use vstd::seq_lib::group_to_multiset_ensures;

    if has_invalid(s) {
        let i = choose|i: int| 0 <= i < s.len() && comp_invalid(s[i]);
        assert(s.contains(s[i]));
        assert(t.to_multiset().count(s[i]) > 0);
        assert(t.contains(s[i]));
        let j = choose|j: int| 0 <= j < t.len() && t[j] == s[i];
        assert(comp_invalid(t[j]));
    }
    if has_invalid(t) {
        let i = choose|i: int| 0 <= i < t.len() && comp_invalid(t[i]);
        assert(t.contains(t[i]));
        assert(s.to_multiset().count(t[i]) > 0);
        assert(s.contains(t[i]));
        let j = choose|j: int| 0 <= j < s.len() && s[j] == t[i];
        assert(comp_invalid(s[j]));
    }
}

/// Resolving pending entries is one-for-one, so a rearrangement of the
/// pending entries only rearranges the resolved ones.
proof fn lemma_resolve_all_permutation(s: Seq<(Slot, Molecule)>, t: Seq<(Slot, Molecule)>, va: u64)
    requires
        s.to_multiset() == t.to_multiset(),
    ensures
        resolve_all(s, va).to_multiset() == resolve_all(t, va).to_multiset(),
    decreases s.len(),
{
    broadcast use vstd::seq_lib::group_to_multiset_ensures;
    broadcast use vstd::multiset::group_multiset_axioms;

    if s.len() == 0 {
        s.to_multiset_ensures();
        t.to_multiset_ensures();
        assert(t.len() == 0);
        assert(t =~= s);
    } else {
        let x = s[0];
        assert(s.contains(x));
        assert(t.to_multiset().count(x) > 0);
        assert(t.contains(x));
        let j = choose|j: int| 0 <= j < t.len() && t[j] == x;
        assert(s.remove(0) =~= s.drop_first());
        assert(s.remove(0).to_multiset() == s.to_multiset().remove(x));
        assert(t.remove(j).to_multiset() == t.to_multiset().remove(x));
        lemma_resolve_all_permutation(s.drop_first(), t.remove(j), va);
        let f = |e: (Slot, Molecule)| (resolve_slot(e.0, va), e.1);
        assert(resolve_all(s, va).remove(0) =~= resolve_all(s.drop_first(), va));
        assert(resolve_all(t, va).remove(j) =~= resolve_all(t.remove(j), va));
        assert(resolve_all(s, va).to_multiset().remove(f(x)) == resolve_all(
            s.drop_first(),
            va,
        ).to_multiset());
        assert(resolve_all(t, va).to_multiset().remove(f(x)) == resolve_all(
            t.remove(j),
            va,
        ).to_multiset()) by {
            assert(resolve_all(t, va)[j] == f(x));
        }
        assert(resolve_all(s, va).contains(f(x))) by {
            assert(resolve_all(s, va)[0] == f(x));
        }
        assert(resolve_all(t, va).contains(f(x))) by {
            assert(resolve_all(t, va)[j] == f(x));
        }
        assert(resolve_all(s, va).to_multiset() =~= resolve_all(t, va).to_multiset()) by {
            let m1 = resolve_all(s, va).to_multiset();
            let m2 = resolve_all(t, va).to_multiset();
            assert(m1.count(f(x)) > 0);
            assert(m2.count(f(x)) > 0);
            assert(m1.remove(f(x)) =~= m2.remove(f(x)));
            assert forall|y: (u128, Molecule)| true implies m1.count(y) == m2.count(y) by {
                if y == f(x) {
                    assert(m1.remove(f(x)).count(y) == m1.count(y) - 1);
                    assert(m2.remove(f(x)).count(y) == m2.count(y) - 1);
                } else {
                    assert(m1.remove(f(x)).count(y) == m1.count(y));
                    assert(m2.remove(f(x)).count(y) == m2.count(y));
                }
            }
        }
    }
}

/// Mixture construction is order-independent: however the same multiset of
/// components is listed, the builder accepts or rejects it alike, a rejection
/// as not-whole is reproduced exactly, and on success the resulting
/// component lists are structurally identical. (Only the reported value of
/// an invalid-fraction rejection depends on the order, since the first
/// offender is named.)
pub proof fn lemma_new_order_independent(c1: Seq<Comp>, c2: Seq<Comp>)
    requires
        c1.to_multiset() == c2.to_multiset(),
    ensures
        mixture_new_spec(c1) is Ok <==> mixture_new_spec(c2) is Ok,
        mixture_new_spec(c1) is Ok ==> mixture_new_spec(c1) == mixture_new_spec(c2),
        mixture_new_spec(c1) == Err::<Seq<(u64, Molecule)>, MixtureError>(
            MixtureError::MixtureNotWhole,
        ) <==> mixture_new_spec(c2) == Err::<Seq<(u64, Molecule)>, MixtureError>(
            MixtureError::MixtureNotWhole,
        ),
{
    lemma_build_permutation(c1, c2);
    lemma_has_invalid_permutation(c1, c2);
    lemma_voids_bound(c1);
    lemma_voids_bound(c2);
    if !has_invalid(c1) && fill_of(c1) <= FRAC_ONE && (fill_of(c1) == FRAC_ONE || voids_of(c1)
        > 0) {
        let va = void_weight(c1);
        assert(va == void_weight(c2));
        lemma_resolve_all_permutation(expand_all(c1), expand_all(c2), va);
        crate::canon::lemma_sort_entries_permutation(
            resolve_all(expand_all(c1), va),
            resolve_all(expand_all(c2), va),
        );
    }
}

pub proof fn lemma_sum_fracs_push(s: Seq<(u64, Molecule)>, x: (u64, Molecule))
    ensures
        sum_fracs(s.push(x)) == sum_fracs(s) + x.0,
    decreases s.len(),
{
    if s.len() == 0 {
        assert(s.push(x).drop_first() =~= Seq::<(u64, Molecule)>::empty());
        assert(sum_fracs(Seq::<(u64, Molecule)>::empty()) == 0);
        assert(s.push(x)[0] == x);
        assert(sum_fracs(s.push(x)) == x.0 + sum_fracs(Seq::<(u64, Molecule)>::empty()));
    } else {
        assert(s.push(x).drop_first() =~= s.drop_first().push(x));
        lemma_sum_fracs_push(s.drop_first(), x);
        assert(s.push(x)[0] == s[0]);
        assert(sum_fracs(s.push(x)) == s[0].0 + sum_fracs(s.drop_first().push(x)));
    }
}

/// The molar mass of a component list: the fraction-weighted sum of the
/// molecules' molar masses, in units of 1e-21 kg/mol (fraction scale times
/// molar-mass scale).
pub open spec fn molar_mass_sum(s: Seq<(u64, Molecule)>) -> int
    decreases s.len(),
{
    if s.len() == 0 {
        0
    } else {
        s[0].0 * s[0].1.m + molar_mass_sum(s.drop_first())
    }
}

proof fn lemma_molar_mass_bound(s: Seq<(u64, Molecule)>)
    ensures
        0 <= molar_mass_sum(s) <= sum_fracs(s) * 0xffff_ffff_ffff_ffffu64,
    decreases s.len(),
{
    if s.len() == 0 {
    } else {
        lemma_molar_mass_bound(s.drop_first());
        assert(s[0].0 * s[0].1.m <= s[0].0 * 0xffff_ffff_ffff_ffffu64 && s[0].0 * s[0].1.m
            >= 0) by (nonlinear_arith)
            requires
                0 <= s[0].0,
                0 <= s[0].1.m <= 0xffff_ffff_ffff_ffffu64,
        ;
        assert(sum_fracs(s) * 0xffff_ffff_ffff_ffffu64 == s[0].0 * 0xffff_ffff_ffff_ffffu64
            + sum_fracs(s.drop_first()) * 0xffff_ffff_ffff_ffffu64) by (nonlinear_arith)
            requires
                sum_fracs(s) == s[0].0 + sum_fracs(s.drop_first()),
        ;
    }
}

proof fn lemma_sum_fracs_take_skip(s: Seq<(u64, Molecule)>, k: int)
    requires
        0 <= k <= s.len(),
    ensures
        sum_fracs(s) == sum_fracs(s.take(k)) + sum_fracs(s.skip(k)),
    decreases k,
{
    if k == 0 {
        assert(s.take(0) =~= Seq::empty());
        assert(s.skip(0) =~= s);
    } else {
        lemma_sum_fracs_take_skip(s, k - 1);
        assert(s.take(k) =~= s.take(k - 1).push(s[k - 1]));
        lemma_sum_fracs_push(s.take(k - 1), s[k - 1]);
        assert(s.skip(k - 1)[0] == s[k - 1]);
        assert(s.skip(k - 1).drop_first() =~= s.skip(k));
        assert(sum_fracs(s.skip(k - 1)) == s[k - 1].0 + sum_fracs(s.skip(k)));
    }
}

proof fn lemma_molar_mass_push(s: Seq<(u64, Molecule)>, x: (u64, Molecule))
    ensures
        molar_mass_sum(s.push(x)) == molar_mass_sum(s) + x.0 * x.1.m,
    decreases s.len(),
{
    if s.len() == 0 {
        assert(s.push(x).drop_first() =~= Seq::<(u64, Molecule)>::empty());
        assert(molar_mass_sum(Seq::<(u64, Molecule)>::empty()) == 0);
        assert(s.push(x)[0] == x);
    } else {
        assert(s.push(x).drop_first() =~= s.drop_first().push(x));
        lemma_molar_mass_push(s.drop_first(), x);
        assert(s.push(x)[0] == s[0]);
    }
}

impl Molecule {
    /// The molar mass of the molecule, in 1e-9 kg/mol.
    pub fn molar_mass(&self) -> (r: u64)
        ensures
            r == self.m,
    {
        self.m
    }
}

impl Mixture {
    /// The molar mass of the mixture: the fraction-weighted sum of its
    /// components' molar masses, in units of 1e-21 kg/mol.
    pub fn molar_mass(&self) -> (r: u128)
        requires
            self.wf(),
        ensures
            r == molar_mass_sum(self@),
    {
        let ghost s = self@;
        let mut acc: u128 = 0;
        let mut k: usize = 0;
        proof {
            assert(s.take(0) =~= Seq::<(u64, Molecule)>::empty());
            assert(molar_mass_sum(Seq::<(u64, Molecule)>::empty()) == 0);
            assert(sum_fracs(Seq::<(u64, Molecule)>::empty()) == 0);
        }
        while k < self.comps.len()
            invariant
                0 <= k <= s.len(),
                self@ == s,
                comps_wf(s),
                acc == molar_mass_sum(s.take(k as int)),
            decreases s.len() - k,
        {
            let (f, m) = self.comps[k];
            proof {
                lemma_molar_mass_bound(s.take(k as int + 1));
                lemma_sum_fracs_take_skip(s, k as int + 1);
                lemma_sum_fracs_nonneg(s.skip(k as int + 1));
                assert(s.take(k as int + 1) =~= s.take(k as int).push(s[k as int]));
                lemma_molar_mass_push(s.take(k as int), s[k as int]);
                lemma_sum_fracs_push(s.take(k as int), s[k as int]);
                assert(sum_fracs(s.take(k as int + 1)) * 0xffff_ffff_ffff_ffffu64 <= FRAC_ONE
                    * 0xffff_ffff_ffff_ffffu64) by (nonlinear_arith)
                    requires
                        sum_fracs(s.take(k as int + 1)) <= FRAC_ONE,
                ;
            }
            acc = acc + (f as u128) * (m.m as u128);
            k = k + 1;
        }
        proof {
            assert(s.take(s.len() as int) =~= s);
        }
        acc
    }
}

/// The molar mass of a gas, in units of 1e-21 kg/mol, whichever shape it has.
pub open spec fn gas_molar_mass(g: Gas) -> int {
    match g {
        Gas::Molecule(m) => m.m * FRAC_ONE,
        Gas::Mixture(mx) => molar_mass_sum(mx@),
    }
}

impl Gas {
    /// The molar mass of the gas, in units of 1e-21 kg/mol.
    pub fn molar_mass(&self) -> (r: u128)
        requires
            gas_wf(*self),
        ensures
            r == gas_molar_mass(*self),
    {
        match self {
            Gas::Molecule(m) => (m.molar_mass() as u128) * (FRAC_ONE as u128),
            Gas::Mixture(mx) => mx.molar_mass(),
        }
    }
}

impl PartialEq for Mixture {
    /// Structural equality: same components with the same fractions in the
    /// same order.
    fn eq(&self, other: &Self) -> (r: bool) {
        if self.comps.len() != other.comps.len() {
            return false;
        }
        let mut k: usize = 0;
        while k < self.comps.len()
            invariant
                0 <= k <= self@.len(),
                self@.len() == other@.len(),
                forall|q: int| 0 <= q < k ==> self@[q] == other@[q],
            decreases self@.len() - k,
        {
            let (fa, ma) = self.comps[k];
            let (fb, mb) = other.comps[k];
            if fa != fb || ma != mb {
                return false;
            }
            k = k + 1;
        }
        proof {
            assert(self@ =~= other@);
        }
        true
    }
}

impl vstd::std_specs::cmp::PartialEqSpecImpl for Mixture {
    open spec fn obeys_eq_spec() -> bool {
        true
    }

    open spec fn eq_spec(&self, other: &Mixture) -> bool {
        self@ == other@
    }
}

/// Structural equality of two gases: the same shape with equal contents.
pub open spec fn gas_eq(a: Gas, b: Gas) -> bool {
    match (a, b) {
        (Gas::Molecule(x), Gas::Molecule(y)) => x == y,
        (Gas::Mixture(x), Gas::Mixture(y)) => x@ == y@,
        _ => false,
    }
}

impl PartialEq for Gas {
    /// Structural equality: molecules by their fields, mixtures by their
    /// component lists.
    fn eq(&self, other: &Self) -> (r: bool) {
        match (self, other) {
            (Gas::Molecule(x), Gas::Molecule(y)) => *x == *y,
            (Gas::Mixture(x), Gas::Mixture(y)) => x == y,
            _ => false,
        }
    }
}

impl vstd::std_specs::cmp::PartialEqSpecImpl for Gas {
    open spec fn obeys_eq_spec() -> bool {
        true
    }

    open spec fn eq_spec(&self, other: &Gas) -> bool {
        gas_eq(*self, *other)
    }
}

impl From<Molecule> for Gas {
    /// Wraps a molecule as a gas.
    fn from(value: Molecule) -> (r: Gas) {
        Gas::Molecule(value)
    }
}

impl vstd::std_specs::convert::FromSpecImpl<Molecule> for Gas {
    open spec fn obeys_from_spec() -> bool {
        true
    }

    open spec fn from_spec(value: Molecule) -> Gas {
        Gas::Molecule(value)
    }
}

impl From<Mixture> for Gas {
    /// Wraps a mixture as a gas.
    fn from(value: Mixture) -> (r: Gas) {
        Gas::Mixture(value)
    }
}

impl vstd::std_specs::convert::FromSpecImpl<Mixture> for Gas {
    open spec fn obeys_from_spec() -> bool {
        true
    }

    open spec fn from_spec(value: Mixture) -> Gas {
        Gas::Mixture(value)
    }
}

/// Multiplies two fractions, rounding down.
fn mul_frac_exec(a: u64, b: u64) -> (r: u64)
    requires
        a <= FRAC_ONE,
        b <= FRAC_ONE,
    ensures
        r as int == mul_frac(a as int, b as int),
        r <= b,
        r <= FRAC_ONE,
{
    proof {
        assert((a as int) * (b as int) <= (FRAC_ONE as int) * (b as int)) by (nonlinear_arith)
            requires
                a <= FRAC_ONE,
                b >= 0,
        ;
        assert((FRAC_ONE as int) * (b as int) / (FRAC_ONE as int) == b) by (nonlinear_arith)
            requires
                b >= 0,
        ;
        assert((a as int) * (b as int) / (FRAC_ONE as int) <= (FRAC_ONE as int) * (b as int) / (
        FRAC_ONE as int)) by (nonlinear_arith)
            requires
                (a as int) * (b as int) <= (FRAC_ONE as int) * (b as int),
        ;
        assert((a as int) * (b as int) >= 0) by (nonlinear_arith)
            requires
                a >= 0,
                b >= 0,
        ;
    }
    (((a as u128) * (b as u128)) / (FRAC_ONE as u128)) as u64
}

} // verus!
