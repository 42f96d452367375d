//! The gas-description grammar: a composition is compound names joined by
//! `+`, each optionally weighted by a percentage, as in
//! `78.08%N2+20.95%O2+0.93%Ar+CO2`; a component without a percentage is the
//! remainder. Percentages are decimal numbers, parsed exactly into fraction
//! units of 1e-12 (digits beyond the resolution are dropped, values beyond
//! the representable range saturate — both far outside anything a valid
//! fraction allows, since anything at or over 100% is rejected by the
//! mixture builder).

use vstd::prelude::*;

use crate::compounds::{dry_air_view, lookup_chars, lookup_molecule_spec};
use crate::gas::{
    Comp, Gas, Mixture, MixtureError, all_comp_gases_wf, comp_gas_wf, gas_wf, mixture_new_spec,
};
use crate::text::{find_char, split_chars, split_exec, str_chars};

verus! {

/// A gas-description parse error.
#[derive(Debug, Clone)]
pub enum GasParseError {
    /// The named compound is not in the registry; carries the name's characters.
    UnknownMolecule(Vec<char>),
    /// The composition does not form a valid mixture.
    Mixture(MixtureError),
    /// A percentage is not a decimal number; carries its characters.
    Number(Vec<char>),
    /// A component has more than one percent sign; carries its characters.
    Other(Vec<char>),
}

pub open spec fn digit_val(c: char) -> int {
    (c as u32) - 48
}

pub open spec fn is_digit(c: char) -> bool {
    48 <= (c as u32) <= 57
}

pub open spec fn all_digits(s: Seq<char>) -> bool {
    forall|i: int| 0 <= i < s.len() ==> is_digit(#[trigger] s[i])
}

/// The value of a digit string read as a decimal integer.
pub open spec fn int_digits_val(s: Seq<char>) -> int
    decreases s.len(),
{
    if s.len() == 0 {
        0
    } else {
        int_digits_val(s.drop_last()) * 10 + digit_val(s.last())
    }
}

pub open spec fn pow10(k: int) -> int
    decreases k,
{
    if k <= 0 {
        1
    } else {
        10 * pow10(k - 1)
    }
}

/// The value of the digits after the decimal point, from position `k` on,
/// in units of 1e-10 percent: the first digit weighs 1e9, the tenth 1, and
/// anything beyond the tenth is below the resolution and dropped.
pub open spec fn frac_digits_val(s: Seq<char>, k: int) -> int
    decreases 10 - k,
{
    if k < 0 || k >= 10 || k >= s.len() {
        0
    } else {
        digit_val(s[k]) * pow10(9 - k) + frac_digits_val(s, k + 1)
    }
}

/// A percentage is digits with at most one decimal point and at least one
/// digit.
pub open spec fn valid_frac_chars(s: Seq<char>) -> bool {
    let d = find_char(s, '.');
    &&& all_digits(s.take(d))
    &&& (d < s.len() ==> all_digits(s.skip(d + 1)))
    &&& (if d < s.len() {
        s.len() >= 2
    } else {
        s.len() >= 1
    })
}

/// The fraction a percentage string denotes, in units of 1e-12: the percent
/// value scaled by 1e10.
pub open spec fn frac_value(s: Seq<char>) -> int {
    let d = find_char(s, '.');
    int_digits_val(s.take(d)) * pow10(10) + (if d < s.len() {
        frac_digits_val(s.skip(d + 1), 0)
    } else {
        0
    })
}

pub open spec fn sat64(v: int) -> u64 {
    if v > u64::MAX {
        u64::MAX
    } else if v < 0 {
        0
    } else {
        v as u64
    }
}

/// What parsing a percentage yields: its exact fraction value, saturated to
/// the representable range, or nothing when it is not a decimal number.
pub open spec fn frac_parse(s: Seq<char>) -> Option<u64> {
    if valid_frac_chars(s) {
        Some(sat64(frac_value(s)))
    } else {
        None
    }
}

proof fn lemma_pow10_vals()
    ensures
        pow10(0) == 1,
        pow10(1) == 10,
        pow10(2) == 100,
        pow10(3) == 1000,
        pow10(4) == 10000,
        pow10(5) == 100000,
        pow10(6) == 1000000,
        pow10(7) == 10000000,
        pow10(8) == 100000000,
        pow10(9) == 1000000000,
        pow10(10) == 10000000000,
{
    assert(pow10(0) == 1);
    assert(pow10(1) == 10);
    assert(pow10(2) == 100);
    assert(pow10(3) == 1000);
    assert(pow10(4) == 10000);
    assert(pow10(5) == 100000);
    assert(pow10(6) == 1000000);
    assert(pow10(7) == 10000000);
    assert(pow10(8) == 100000000);
    assert(pow10(9) == 1000000000);
    assert(pow10(10) == 10000000000);
}

proof fn lemma_int_digits_nonneg(s: Seq<char>)
    requires
        all_digits(s),
    ensures
        int_digits_val(s) >= 0,
    decreases s.len(),
{
    if s.len() > 0 {
        assert(all_digits(s.drop_last())) by {
            assert forall|i: int| 0 <= i < s.drop_last().len() implies is_digit(
                #[trigger] s.drop_last()[i],
            ) by {
                assert(s.drop_last()[i] == s[i]);
            }
        }
        lemma_int_digits_nonneg(s.drop_last());
        assert(int_digits_val(s.drop_last()) * 10 >= 0) by (nonlinear_arith)
            requires
                int_digits_val(s.drop_last()) >= 0,
        ;
    }
}

proof fn lemma_frac_digits_nonneg(s: Seq<char>, k: int)
    requires
        all_digits(s),
    ensures
        frac_digits_val(s, k) >= 0,
    decreases 10 - k,
{
    lemma_pow10_vals();
    if !(k < 0 || k >= 10 || k >= s.len()) {
        lemma_frac_digits_nonneg(s, k + 1);
        assert(pow10(9 - k) >= 0) by {
            lemma_pow10_nonneg(9 - k);
        }
        assert(digit_val(s[k]) * pow10(9 - k) >= 0) by (nonlinear_arith)
            requires
                digit_val(s[k]) >= 0,
                pow10(9 - k) >= 0,
        ;
    }
}

proof fn lemma_pow10_nonneg(k: int)
    ensures
        pow10(k) >= 1,
    decreases k,
{
    if k > 0 {
        lemma_pow10_nonneg(k - 1);
    }
}

/// Ten to a small power.
fn pow10u(k: usize) -> (r: u64)
    requires
        k <= 9,
    ensures
        r as int == pow10(k as int),
        r <= 1_000_000_000,
{
    proof {
        lemma_pow10_vals();
    }
    if k == 0 {
        1
    } else if k == 1 {
        10
    } else if k == 2 {
        100
    } else if k == 3 {
        1000
    } else if k == 4 {
        10000
    } else if k == 5 {
        100000
    } else if k == 6 {
        1000000
    } else if k == 7 {
        10000000
    } else if k == 8 {
        100000000
    } else {
        1000000000
    }
}

/// Parses a percentage into fraction units, exactly as [`frac_parse`] lays
/// out.
pub fn parse_frac(t: &[char]) -> (r: Option<u64>)
    ensures
        r == frac_parse(t@),
{
    proof {
        lemma_pow10_vals();
        crate::text::lemma_find_char_bounds(t@, '.');
    }
    let n = t.len();
    // Locate the decimal point.
    let mut dj: usize = 0;
    while dj < n && t[dj] != '.'
        invariant
            0 <= dj <= n,
            n == t@.len(),
            forall|q: int| 0 <= q < dj ==> t@[q] != '.',
        decreases n - dj,
    {
        dj = dj + 1;
    }
    proof {
        crate::text::lemma_find_char_at(t@, '.', dj as int);
    }
    if dj == n {
        if n == 0 {
            return None;
        }
    } else {
        if n < 2 {
            return None;
        }
    }
    // The integer part, clamped far above any valid percentage.
    let ghost ipart = t@.take(dj as int);
    let mut acc: u128 = 0;
    let mut k: usize = 0;
    proof {
        assert(ipart.take(0) =~= Seq::<char>::empty());
    }
    while k < dj
        invariant
            0 <= k <= dj <= n,
            n == t@.len(),
            ipart == t@.take(dj as int),
            find_char(t@, '.') == dj,
            all_digits(ipart.take(k as int)),
            acc <= 20_000_000_000_000_000_000u128,
            (acc < 20_000_000_000_000_000_000u128 && acc == int_digits_val(
                ipart.take(k as int),
            )) || (acc == 20_000_000_000_000_000_000u128 && int_digits_val(ipart.take(k as int))
                >= 20_000_000_000_000_000_000),
        decreases dj - k,
    {
        let c = t[k];
        let u = c as u32;
        if u < 48 || u > 57 {
            proof {
                assert(ipart[k as int] == t@[k as int]);
                assert(!is_digit(ipart[k as int]));
                assert(!valid_frac_chars(t@));
            }
            return None;
        }
        let ghost pk = ipart.take(k as int);
        proof {
            assert(ipart.take(k as int + 1) =~= pk.push(t@[k as int]));
            assert(ipart.take(k as int + 1).drop_last() =~= pk);
            assert(int_digits_val(ipart.take(k as int + 1)) == int_digits_val(pk) * 10
                + digit_val(t@[k as int]));
            if acc == 20_000_000_000_000_000_000u128 {
                assert(int_digits_val(pk) * 10 >= 200_000_000_000_000_000_000) by (
                nonlinear_arith)
                    requires
                        int_digits_val(pk) >= 20_000_000_000_000_000_000,
                ;
            }
            assert(all_digits(ipart.take(k as int + 1)));
        }
        acc = acc * 10 + ((u - 48) as u128);
        if acc > 20_000_000_000_000_000_000u128 {
            acc = 20_000_000_000_000_000_000u128;
        }
        k = k + 1;
    }
    proof {
        assert(ipart.take(dj as int) =~= ipart);
    }
    // The fractional part: the first ten digits carry value, the rest only
    // have to be digits.
    let ghost fpart = t@.skip(dj as int + 1);
    let mut fac: u64 = 0;
    if dj < n {
        let mut k2: usize = dj + 1;
        proof {
            assert(fpart.take(0) =~= Seq::<char>::empty());
        }
        while k2 < n
            invariant
                dj < n == t@.len(),
                dj + 1 <= k2 <= n,
                fpart == t@.skip(dj as int + 1),
                find_char(t@, '.') == dj,
                all_digits(fpart.take(k2 - dj - 1)),
                fac + frac_digits_val(fpart, k2 - dj - 1) == frac_digits_val(fpart, 0),
                k2 - dj - 1 <= 10 ==> fac <= pow10(10) - pow10(10 - (k2 - dj - 1)),
                k2 - dj - 1 > 10 ==> fac <= pow10(10) - 1,
            decreases n - k2,
        {
            let idx: usize = k2 - dj - 1;
            let c = t[k2];
            let u = c as u32;
            proof {
                assert(fpart[idx as int] == t@[k2 as int]);
            }
            if u < 48 || u > 57 {
                proof {
                    assert(!is_digit(fpart[idx as int]));
                    assert(!valid_frac_chars(t@));
                }
                return None;
            }
            proof {
                assert(fpart.take(idx as int + 1) =~= fpart.take(idx as int).push(
                    fpart[idx as int],
                ));
                assert(all_digits(fpart.take(idx as int + 1)));
            }
            if idx < 10 {
                let d = (u - 48) as u64;
                let p = pow10u(9 - idx);
                proof {
                    lemma_pow10_vals();
                    lemma_pow10_nonneg(9 - idx as int);
                    lemma_pow10_nonneg(10 - idx as int);
                    assert(d * p <= 9 * p) by (nonlinear_arith)
                        requires
                            d <= 9,
                            p >= 0,
                    ;
                    assert(pow10(10 - idx as int) == 10 * pow10(9 - idx as int));
                    assert(d as int == digit_val(fpart[idx as int]));
                    assert(frac_digits_val(fpart, idx as int) == digit_val(fpart[idx as int])
                        * pow10(9 - idx as int) + frac_digits_val(fpart, idx as int + 1));
                }
                fac = fac + d * p;
            } else {
                proof {
                    assert(frac_digits_val(fpart, idx as int) == frac_digits_val(
                        fpart,
                        idx as int + 1,
                    ));
                }
            }
            k2 = k2 + 1;
        }
        proof {
            assert(frac_digits_val(fpart, n - dj - 1) == 0);
            assert(fpart.take(n - dj - 1) =~= fpart);
        }
    }
    proof {
        assert(valid_frac_chars(t@));
    }
    // Combine, saturating anything beyond the representable range.
    let total: u128 = acc * 10_000_000_000u128 + (fac as u128);
    proof {
        if acc == 20_000_000_000_000_000_000u128 {
            assert(int_digits_val(ipart) * pow10(10) >= 20_000_000_000_000_000_000
                * 10_000_000_000) by (nonlinear_arith)
                requires
                    int_digits_val(ipart) >= 20_000_000_000_000_000_000,
                    pow10(10) == 10_000_000_000,
            ;
            if dj < n {
                lemma_frac_digits_nonneg(fpart, 0);
            }
        } else {
            assert(acc as int * pow10(10) == acc as int * 10_000_000_000) by (nonlinear_arith)
                requires
                    pow10(10) == 10_000_000_000,
            ;
        }
    }
    if total > 0xFFFF_FFFF_FFFF_FFFFu128 {
        Some(0xFFFF_FFFF_FFFF_FFFFu64)
    } else {
        Some(total as u64)
    }
}

/// Whether a name is in the registry.
pub open spec fn known_name(n: Seq<char>) -> bool {
    n == "dry_air"@ || lookup_molecule_spec(n) is Some
}

/// Whether a gas value is what the registry holds under a name.
pub open spec fn gas_matches_name(g: Gas, n: Seq<char>) -> bool {
    if n == "dry_air"@ {
        g matches Gas::Mixture(mx) && mx@ == dry_air_view() && mx.wf()
    } else {
        match lookup_molecule_spec(n) {
            Some(m) => g == Gas::Molecule(m),
            None => false,
        }
    }
}

/// Whether one `+`-separated piece of a composition is well formed: at most
/// one percent sign, a registered name, and a parsable percentage where one
/// is given.
pub open spec fn piece_ok(p: Seq<char>) -> bool {
    let parts = split_chars(p, '%');
    &&& parts.len() <= 2
    &&& known_name(parts.last())
    &&& (parts.len() == 2 ==> frac_parse(parts[0]) is Some)
}

/// Whether a builder component is what a piece describes: a remainder of
/// the named gas, or the named gas weighted by the parsed fraction.
pub open spec fn comp_matches_piece(c: Comp, p: Seq<char>) -> bool {
    let parts = split_chars(p, '%');
    if parts.len() == 1 {
        c matches Comp::Remainder(g) && gas_matches_name(g, parts[0])
    } else if parts.len() == 2 {
        c matches Comp::Factor(f, g) && frac_parse(parts[0]) == Some(f) && gas_matches_name(
            g,
            parts[1],
        )
    } else {
        false
    }
}

/// The index of the first ill-formed piece.
pub open spec fn first_bad_piece(ps: Seq<Seq<char>>) -> int
    decreases ps.len(),
{
    if ps.len() == 0 {
        0
    } else if !piece_ok(ps[0]) {
        0
    } else {
        1 + first_bad_piece(ps.drop_first())
    }
}

proof fn lemma_first_bad_piece_at(ps: Seq<Seq<char>>, i: int)
    requires
        0 <= i < ps.len(),
        forall|q: int| 0 <= q < i ==> piece_ok(#[trigger] ps[q]),
        !piece_ok(ps[i]),
    ensures
        first_bad_piece(ps) == i,
    decreases i,
{
    if i == 0 {
    } else {
        assert(piece_ok(ps[0]));
        assert forall|q: int| 0 <= q < i - 1 implies piece_ok(#[trigger] ps.drop_first()[q]) by {
            assert(ps.drop_first()[q] == ps[q + 1]);
        }
        assert(ps.drop_first()[i - 1] == ps[i]);
        lemma_first_bad_piece_at(ps.drop_first(), i - 1);
    }
}

impl Gas {
    /// Parses a gas description: either a single registered name, or a
    /// `+`-separated composition of percentage-weighted names with at most
    /// one remainder, handed to the mixture builder.
    ///
    /// The first offence is reported: an unknown name, an unparsable
    /// percentage, a component with several percent signs — each carrying
    /// the offending characters — or the mixture builder's own rejection.
    pub fn from_str(s: &str) -> (r: Result<Gas, GasParseError>)
        ensures
            ({
                let pieces = split_chars(s@, '+');
                &&& (pieces.len() == 1 ==> {
                    &&& (known_name(s@) ==> (r matches Ok(g) && gas_matches_name(g, s@)))
                    &&& (!known_name(s@) ==> (r matches Err(e) && e matches
                        GasParseError::UnknownMolecule(t) && t@ == s@))
                })
                &&& ((pieces.len() > 1 && (exists|i: int|
                    0 <= i < pieces.len() && !piece_ok(#[trigger] pieces[i]))) ==> {
                    let bad = pieces[first_bad_piece(pieces)];
                    let parts = split_chars(bad, '%');
                    &&& (parts.len() > 2 ==> (r matches Err(e) && e matches GasParseError::Other(
                        t,
                    ) && t@ == bad))
                    &&& ((parts.len() <= 2 && !known_name(parts.last())) ==> (r matches Err(e)
                        && e matches GasParseError::UnknownMolecule(t) && t@ == parts.last()))
                    &&& ((parts.len() == 2 && known_name(parts.last()) && frac_parse(parts[0])
                        is None) ==> (r matches Err(e) && e matches GasParseError::Number(t)
                        && t@ == parts[0]))
                })
                &&& ((pieces.len() > 1 && (forall|i: int|
                    0 <= i < pieces.len() ==> piece_ok(#[trigger] pieces[i]))) ==> (exists|
                    cs: Seq<Comp>,
                |
                    #![auto]
                    {
                        &&& cs.len() == pieces.len()
                        &&& (forall|i: int|
                            0 <= i < cs.len() ==> comp_matches_piece(
                                #[trigger] cs[i],
                                pieces[i],
                            ))
                        &&& match mixture_new_spec(cs) {
                            Ok(v) => r matches Ok(g) && g matches Gas::Mixture(mx) && mx@ == v
                                && mx.wf(),
                            Err(e) => r == Err::<Gas, GasParseError>(GasParseError::Mixture(e)),
                        }
                    }))
            }),
    {
        let cs = str_chars(s);
        let mut pieces = split_exec(cs.as_slice(), '+');
        let ghost piecesv = split_chars(s@, '+');
        proof {
            assert(pieces@.map_values(|v: Vec<char>| v@) == piecesv);
            assert(pieces@.len() == piecesv.len());
        }
        if pieces.len() == 1 {
            proof {
                crate::text::lemma_find_char_bounds(s@, '+');
                assert(piecesv[0] == s@) by {
                    if 0 <= find_char(s@, '+') < s@.len() {
                        crate::text::lemma_split_chars_len(
                            s@.skip(find_char(s@, '+') + 1),
                            '+',
                        );
                    }
                }
                assert(pieces@[0]@ == piecesv[0]);
            }
            match lookup_chars(pieces[0].as_slice()) {
                Some(g) => Ok(g),
                None => Err(GasParseError::UnknownMolecule(pieces.remove(0))),
            }
        } else {
            let np = pieces.len();
            let mut comps: Vec<Comp> = Vec::new();
            let mut i: usize = 0;
            while i < np
                invariant
                    0 <= i <= np,
                    np == pieces@.len(),
                    np == piecesv.len(),
                    np > 1,
                    pieces@.map_values(|v: Vec<char>| v@) == piecesv,
                    piecesv == split_chars(s@, '+'),
                    comps@.len() == i,
                    forall|q: int| 0 <= q < i ==> piece_ok(#[trigger] piecesv[q]),
                    forall|q: int|
                        0 <= q < i ==> comp_matches_piece(#[trigger] comps@[q], piecesv[q]),
                    all_comp_gases_wf(comps@),
                decreases np - i,
            {
                let ghost pv = piecesv[i as int];
                proof {
                    assert(pieces@[i as int]@ == pv);
                }
                let mut parts = split_exec(pieces[i].as_slice(), '%');
                let ghost partsv = split_chars(pv, '%');
                proof {
                    assert(parts@.map_values(|v: Vec<char>| v@) == partsv);
                }
                if parts.len() > 2 {
                    proof {
                        assert(!piece_ok(pv));
                        lemma_first_bad_piece_at(piecesv, i as int);
                    }
                    return Err(GasParseError::Other(pieces.remove(i)));
                }
                let last = parts.len() - 1;
                proof {
                    assert(parts@[last as int]@ == partsv.last());
                }
                let g_opt = lookup_chars(parts[last].as_slice());
                match g_opt {
                    None => {
                        proof {
                            assert(!known_name(partsv.last()));
                            assert(!piece_ok(pv));
                            lemma_first_bad_piece_at(piecesv, i as int);
                        }
                        return Err(GasParseError::UnknownMolecule(parts.remove(last)));
                    },
                    Some(g) => {
                        proof {
                            assert(gas_matches_name(g, partsv.last()));
                            assert(gas_wf(g));
                        }
                        if parts.len() == 1 {
                            let c = Comp::Remainder(g);
                            proof {
                                assert(comp_matches_piece(c, pv));
                                assert(comp_gas_wf(c));
                            }
                            comps.push(c);
                        } else {
                            proof {
                                assert(parts@[0]@ == partsv[0]);
                            }
                            match parse_frac(parts[0].as_slice()) {
                                None => {
                                    proof {
                                        assert(frac_parse(partsv[0]) is None);
                                        assert(!piece_ok(pv));
                                        lemma_first_bad_piece_at(piecesv, i as int);
                                    }
                                    return Err(GasParseError::Number(parts.remove(0)));
                                },
                                Some(f) => {
                                    let c = Comp::Factor(f, g);
                                    proof {
                                        assert(comp_matches_piece(c, pv));
                                        assert(comp_gas_wf(c));
                                    }
                                    comps.push(c);
                                },
                            }
                        }
                        proof {
                            assert(piece_ok(pv));
                        }
                    },
                }
                i = i + 1;
            }
            let ghost csv = comps@;
            match Mixture::new(comps.as_slice()) {
                Ok(m) => {
                    proof {
                        assert(mixture_new_spec(csv) matches Ok(v) && m@ == v);
                    }
                    Ok(Gas::Mixture(m))
                },
                Err(e) => {
                    proof {
                        assert(mixture_new_spec(csv) == Err::<Seq<(u64, crate::gas::Molecule)>,
                            MixtureError,
                        >(e));
                    }
                    Err(GasParseError::Mixture(e))
                },
            }
        }
    }
}

} // verus!
