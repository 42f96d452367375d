//! Character-level helpers over `&str`: the compound registry and the gas
//! grammar work on sequences of characters.

use vstd::prelude::*;

verus! {

broadcast use vstd::string::group_string_axioms;

use vstd::std_specs::iter::IteratorSpec;

/// The characters of a string, as a vector.
pub fn str_chars(s: &str) -> (r: Vec<char>)
    ensures
        r@ == s@,
{
    let mut it = s.chars();
    let mut out: Vec<char> = Vec::new();
    proof {
        assert(Seq::<char>::empty() + s@ =~= s@);
    }
    loop
        invariant
            it.obeys_prophetic_iter_laws(),
            out@ + it.remaining() == s@,
            out@.len() <= s@.len(),
        ensures
            out@ == s@,
        decreases s@.len() - out@.len(),
    {
        let ghost pre = it;
        match it.next() {
            Some(c) => {
                proof {
                    assert(out@.push(c) + pre.remaining().drop_first() =~= out@
                        + pre.remaining());
                }
                out.push(c);
            },
            None => {
                proof {
                    assert(out@ + it.remaining() =~= out@);
                }
                break ;
            },
        }
    }
    out
}

/// The index of the first occurrence of `sep`, or the length when absent.
pub open spec fn find_char(s: Seq<char>, sep: char) -> int
    decreases s.len(),
{
    if s.len() == 0 {
        0
    } else if s[0] == sep {
        0
    } else {
        1 + find_char(s.drop_first(), sep)
    }
}

pub proof fn lemma_find_char_at(s: Seq<char>, sep: char, j: int)
    requires
        0 <= j <= s.len(),
        forall|q: int| 0 <= q < j ==> s[q] != sep,
        j < s.len() ==> s[j] == sep,
    ensures
        find_char(s, sep) == j,
    decreases j,
{
    if s.len() == 0 {
    } else if j == 0 {
    } else {
        assert(s[0] != sep);
        assert forall|q: int| 0 <= q < j - 1 implies s.drop_first()[q] != sep by {
            assert(s.drop_first()[q] == s[q + 1]);
        }
        assert(j - 1 < s.drop_first().len() ==> s.drop_first()[j - 1] == s[j]);
        lemma_find_char_at(s.drop_first(), sep, j - 1);
    }
}

/// The pieces of a character sequence split on a separator, the separator
/// itself dropped; always at least one piece, and empty pieces kept.
pub open spec fn split_chars(s: Seq<char>, sep: char) -> Seq<Seq<char>>
    decreases s.len(),
{
    let f = find_char(s, sep);
    if !(0 <= f < s.len()) {
        seq![s]
    } else {
        seq![s.take(f)] + split_chars(s.skip(f + 1), sep)
    }
}

pub proof fn lemma_find_char_bounds(s: Seq<char>, sep: char)
    ensures
        0 <= find_char(s, sep) <= s.len(),
    decreases s.len(),
{
    if s.len() > 0 && s[0] != sep {
        lemma_find_char_bounds(s.drop_first(), sep);
    }
}

pub proof fn lemma_split_chars_len(s: Seq<char>, sep: char)
    ensures
        split_chars(s, sep).len() >= 1,
    decreases s.len(),
{
    lemma_find_char_bounds(s, sep);
    if 0 <= find_char(s, sep) < s.len() {
        lemma_split_chars_len(s.skip(find_char(s, sep) + 1), sep);
    }
}

/// An owned copy of a range of a character slice.
pub fn chars_range(cs: &[char], a: usize, b: usize) -> (r: Vec<char>)
    requires
        a <= b <= cs@.len(),
    ensures
        r@ == cs@.subrange(a as int, b as int),
{
    let mut out: Vec<char> = Vec::new();
    let mut i: usize = a;
    proof {
        assert(out@ =~= cs@.subrange(a as int, a as int));
    }
    while i < b
        invariant
            a <= i <= b <= cs@.len(),
            out@ == cs@.subrange(a as int, i as int),
        decreases b - i,
    {
        out.push(cs[i]);
        proof {
            assert(out@ =~= cs@.subrange(a as int, i as int + 1));
        }
        i = i + 1;
    }
    out
}

/// Splits a character slice on a separator.
pub fn split_exec(cs: &[char], sep: char) -> (r: Vec<Vec<char>>)
    ensures
        r@.map_values(|v: Vec<char>| v@) == split_chars(cs@, sep),
        r@.len() >= 1,
{
    let s = cs;
    let mut out: Vec<Vec<char>> = Vec::new();
    let mut pos: usize = 0;
    proof {
        assert(out@.map_values(|v: Vec<char>| v@) =~= Seq::<Seq<char>>::empty());
        assert(cs@.skip(0) =~= cs@);
    }
    loop
        invariant_except_break
            0 <= pos <= cs@.len(),
            split_chars(cs@, sep) == out@.map_values(|v: Vec<char>| v@) + split_chars(
                cs@.skip(pos as int),
                sep,
            ),
        ensures
            out@.map_values(|v: Vec<char>| v@) == split_chars(cs@, sep),
            out@.len() >= 1,
        decreases cs@.len() - pos,
    {
        let ghost rest = cs@.skip(pos as int);
        let mut j: usize = pos;
        while j < cs.len() && cs[j] != sep
            invariant
                pos <= j <= cs@.len(),
                forall|q: int| pos <= q < j ==> cs@[q] != sep,
            decreases cs@.len() - j,
        {
            j = j + 1;
        }
        proof {
            assert forall|q: int| 0 <= q < j - pos implies rest[q] != sep by {
                assert(rest[q] == cs@[pos + q]);
            }
            assert(j < cs@.len() ==> rest[j - pos] == sep);
            lemma_find_char_at(rest, sep, j as int - pos as int);
        }
        let piece = chars_range(cs, pos, j);
        let ghost before = out@;
        out.push(piece);
        proof {
            assert(piece@ =~= rest.take(j as int - pos as int));
            assert(out@.map_values(|v: Vec<char>| v@) =~= before.map_values(
                |v: Vec<char>| v@,
            ).push(piece@));
        }
        if j == cs.len() {
            proof {
                assert(find_char(rest, sep) == rest.len());
                assert(split_chars(rest, sep) == seq![rest]);
                assert(rest.take(j as int - pos as int) =~= rest);
                assert(before.map_values(|v: Vec<char>| v@) + seq![rest]
                    =~= out@.map_values(|v: Vec<char>| v@));
            }
            break ;
        }
        proof {
            assert(0 <= find_char(rest, sep) < rest.len());
            assert(split_chars(rest, sep) == seq![rest.take(j as int - pos as int)]
                + split_chars(rest.skip(j as int - pos as int + 1), sep));
            assert(rest.skip(j as int - pos as int + 1) =~= cs@.skip(j as int + 1));
            assert(before.map_values(|v: Vec<char>| v@).push(piece@) =~= before.map_values(
                |v: Vec<char>| v@,
            ) + seq![rest.take(j as int - pos as int)]);
            assert(split_chars(cs@, sep) == out@.map_values(|v: Vec<char>| v@) + split_chars(
                cs@.skip(j as int + 1),
                sep,
            ));
        }
        pos = j + 1;
    }
    out
}

/// Whether a character slice spells exactly the given string.
pub fn chars_eq_str(a: &[char], b: &str) -> (r: bool)
    ensures
        r == (a@ == b@),
{
    let mut it = b.chars();
    let n = a.len();
    let mut i: usize = 0;
    proof {
        assert(b@.skip(0) =~= b@);
    }
    loop
        invariant
            it.obeys_prophetic_iter_laws(),
            0 <= i <= n,
            n == a@.len(),
            it.remaining() == b@.skip(i as int),
            i <= b@.len(),
            forall|q: int| 0 <= q < i ==> a@[q] == b@[q],
        ensures
            i == n && i == b@.len() && forall|q: int| 0 <= q < i ==> a@[q] == b@[q],
        decreases n - i,
    {
        let ghost pre = it;
        match it.next() {
            Some(c) => {
                if i >= n {
                    // The string has more characters than the slice.
                    proof {
                        assert(a@.len() < b@.len());
                    }
                    return false;
                }
                if a[i] != c {
                    proof {
                        assert(b@.skip(i as int)[0] == b@[i as int]);
                        assert(a@[i as int] != b@[i as int]);
                    }
                    return false;
                }
                proof {
                    assert(b@.skip(i as int)[0] == b@[i as int]);
                    assert(pre.remaining().drop_first() =~= b@.skip(i as int + 1));
                }
                i = i + 1;
            },
            None => {
                proof {
                    assert(b@.skip(i as int).len() == 0);
                    assert(b@.len() == i);
                }
                if i < n {
                    // The slice has more characters than the string.
                    return false;
                }
                break ;
            },
        }
    }
    proof {
        assert(a@ =~= b@);
    }
    true
}

} // verus!
