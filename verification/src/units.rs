//! Decimal token amounts: parsing "1.5"-style strings into base units.
use crate::u256::U256;
use vstd::prelude::*;

verus! {

/// The number of wei that `alloy_primitives::utils::parse_ether` gives for `s`, or `None`
/// where it fails.
pub uninterp spec fn ether_parse(s: Seq<char>) -> Option<nat>;

/// The 256-bit value, in base units, that `alloy_primitives::utils::parse_units` gives for
/// `s` with `decimals` decimals, taken as a `U256` (for a negative amount, its two's
/// complement bits), or `None` where it fails.
pub uninterp spec fn units_parse(s: Seq<char>, decimals: u8) -> Option<nat>;

/// The number of bytes of `c` in UTF-8.
pub open spec fn char_utf8_len(c: char) -> nat {
    if (c as u32) < 0x80 {
        1
    } else if (c as u32) < 0x800 {
        2
    } else if (c as u32) < 0x10000 {
        3
    } else {
        4
    }
}

/// The number of bytes of `s` in UTF-8.
pub open spec fn utf8_len(s: Seq<char>) -> nat
    decreases s.len(),
{
    if s.len() == 0 {
        0
    } else {
        char_utf8_len(s[0]) + utf8_len(s.skip(1))
    }
}

/// What follows the first `.` of `s`; empty where `s` has none.
pub open spec fn fraction_digits(s: Seq<char>) -> Seq<char>
    decreases s.len(),
{
    if s.len() == 0 {
        s
    } else if s[0] == '.' {
        s.skip(1)
    } else {
        fraction_digits(s.skip(1))
    }
}

/// Where the part after the point is longer than `exponent` bytes, the parser cuts it to its
/// first `exponent` bytes; the cut must fall between two characters. It always does for
/// ASCII text.
pub open spec fn cut_on_char_boundary(s: Seq<char>, exponent: nat) -> bool {
    let d = fraction_digits(s);
    utf8_len(d) > exponent ==> exists|j: int| 0 <= j <= d.len() && #[trigger] utf8_len(d.take(j)) == exponent
}

/// Every character of `s` is ASCII.
pub open spec fn all_ascii(s: Seq<char>) -> bool {
    forall|i: int| 0 <= i < s.len() ==> (#[trigger] s[i] as u32) < 128
}

proof fn lemma_ascii_utf8_len(s: Seq<char>)
    requires
        all_ascii(s),
    ensures
        utf8_len(s) == s.len(),
    decreases s.len(),
{
    if s.len() > 0 {
        assert((s[0] as u32) < 128);
        assert(all_ascii(s.skip(1))) by {
            assert forall|i: int| 0 <= i < s.skip(1).len() implies (#[trigger] s.skip(1)[i] as u32)
                < 128 by {
                assert(s.skip(1)[i] == s[i + 1]);
            }
        }
        lemma_ascii_utf8_len(s.skip(1));
    }
}

proof fn lemma_ascii_fraction(s: Seq<char>)
    requires
        all_ascii(s),
    ensures
        all_ascii(fraction_digits(s)),
    decreases s.len(),
{
    if s.len() > 0 {
        assert(all_ascii(s.skip(1))) by {
            assert forall|i: int| 0 <= i < s.skip(1).len() implies (#[trigger] s.skip(1)[i] as u32)
                < 128 by {
                assert(s.skip(1)[i] == s[i + 1]);
            }
        }
        if s[0] != '.' {
            lemma_ascii_fraction(s.skip(1));
        }
    }
}

/// On ASCII text the parser's cut always falls between two characters.
pub proof fn lemma_ascii_cuts_on_boundary(s: Seq<char>, exponent: nat)
    requires
        all_ascii(s),
    ensures
        cut_on_char_boundary(s, exponent),
{
    let d = fraction_digits(s);
    lemma_ascii_fraction(s);
    lemma_ascii_utf8_len(d);
    if utf8_len(d) > exponent {
        let t = d.take(exponent as int);
        assert(all_ascii(t)) by {
            assert forall|i: int| 0 <= i < t.len() implies (#[trigger] t[i] as u32) < 128 by {
                assert(t[i] == d[i]);
            }
        }
        lemma_ascii_utf8_len(t);
        assert(utf8_len(d.take(exponent as int)) == exponent);
    }
}

/// `alloy_primitives::utils::parse_ether`: a decimal ether amount in wei. Its result is
/// named by `ether_parse`; the grammar it accepts is not stated. It slices the text by
/// bytes where it has more than 18 decimals, and panics where that slice would split a
/// character, so such text is left out.
#[verifier::external_body]
pub(crate) fn parse_ether(s: &str) -> (r: Option<U256>)
    requires
        cut_on_char_boundary(s@, 18),
    ensures
        r matches Some(v) ==> ether_parse(s@) == Some(v.value()),
        r is None ==> ether_parse(s@) is None,
{
    alloy_primitives::utils::parse_ether(s).ok().map(|v| U256::from_limbs(v.into_limbs()))
}

/// `alloy_primitives::utils::parse_units` followed by its conversion to `U256` (which keeps
/// the bits of a negative amount's two's complement): a decimal amount in base units of `decimals` decimals. Its result is
/// named by `units_parse`; the grammar it accepts is not stated. A unit above 77 decimals
/// is refused before any parsing; otherwise it slices the text by bytes where it has more
/// than `decimals` decimals, and panics where that slice would split a character, so such
/// text is left out.
#[verifier::external_body]
pub(crate) fn parse_units(s: &str, decimals: u8) -> (r: Option<U256>)
    requires
        decimals <= 77 ==> cut_on_char_boundary(s@, decimals as nat),
    ensures
        r matches Some(v) ==> units_parse(s@, decimals) == Some(v.value()),
        r is None ==> units_parse(s@, decimals) is None,
{
    alloy_primitives::utils::parse_units(s, decimals).ok().map(|v| {
        let u: alloy_primitives::U256 = v.into();
        U256::from_limbs(u.into_limbs())
    })
}

proof fn lemma_utf8_len_append(a: Seq<char>, b: Seq<char>)
    ensures
        utf8_len(a + b) == utf8_len(a) + utf8_len(b),
    decreases a.len(),
{
    if a.len() == 0 {
        assert(a + b =~= b);
    } else {
        assert((a + b).skip(1) =~= a.skip(1) + b);
        assert((a + b)[0] == a[0]);
        lemma_utf8_len_append(a.skip(1), b);
    }
}

proof fn lemma_utf8_len_prefix(d: Seq<char>, j: int)
    requires
        0 <= j < d.len(),
    ensures
        utf8_len(d.take(j + 1)) == utf8_len(d.take(j)) + char_utf8_len(d[j]),
{
    assert(d.take(j + 1) =~= d.take(j) + seq![d[j]]);
    lemma_utf8_len_append(d.take(j), seq![d[j]]);
    assert(seq![d[j]].skip(1) =~= Seq::<char>::empty());
    assert(utf8_len(seq![d[j]].skip(1)) == 0);
    assert(utf8_len(seq![d[j]]) == char_utf8_len(d[j]));
}

proof fn lemma_utf8_len_monotone(d: Seq<char>, j: int, k: int)
    requires
        0 <= j <= k <= d.len(),
    ensures
        utf8_len(d.take(j)) <= utf8_len(d.take(k)),
{
    assert(d.take(k) =~= d.take(j) + d.subrange(j, k));
    lemma_utf8_len_append(d.take(j), d.subrange(j, k));
}

proof fn lemma_fraction_from(s: Seq<char>, k: int)
    requires
        0 <= k <= s.len(),
        forall|i: int| 0 <= i < k ==> s[i] != '.',
    ensures
        fraction_digits(s) == fraction_digits(s.skip(k)),
    decreases k,
{
    if k > 0 {
        assert(s.skip(1).skip(k - 1) =~= s.skip(k));
        assert forall|i: int| 0 <= i < k - 1 implies s.skip(1)[i] != '.' by {
            assert(s.skip(1)[i] == s[i + 1]);
        }
        lemma_fraction_from(s.skip(1), k - 1);
    } else {
        assert(s.skip(0) =~= s);
    }
}

/// Whether the parser, cutting the part of `s` after the point to `exponent` bytes where it
/// is longer, would cut between two characters (and so not panic).
pub fn cut_falls_between_chars(s: &str, exponent: u8) -> (r: bool)
    ensures
        r == cut_on_char_boundary(s@, exponent as nat),
{
    let cs = crate::text::chars_of(s);
    let mut p: usize = 0;
    while p < cs.len() && cs[p] != '.'
        invariant
            p <= cs.len(),
            forall|i: int| 0 <= i < p ==> cs@[i] != '.',
        decreases cs.len() - p,
    {
        p = p + 1;
    }
    proof {
        lemma_fraction_from(cs@, p as int);
        if p < cs.len() {
            assert(fraction_digits(cs@.skip(p as int)) == cs@.skip(p as int).skip(1));
            assert(cs@.skip(p as int).skip(1) =~= cs@.skip(p + 1));
        } else {
            assert(cs@.skip(p as int).len() == 0);
        }
    }
    let mut d: Vec<char> = Vec::new();
    if p < cs.len() {
        let mut q: usize = p + 1;
        while q < cs.len()
            invariant
                p < cs.len(),
                p + 1 <= q <= cs.len(),
                d@ == cs@.subrange(p + 1, q as int),
            decreases cs.len() - q,
        {
            d.push(cs[q]);
            q = q + 1;
            assert(d@ =~= cs@.subrange(p + 1, q as int));
        }
        assert(d@ =~= cs@.skip(p + 1));
    }
    assert(d@ == fraction_digits(s@));
    let e: u64 = exponent as u64;
    let mut acc: u64 = 0;
    let mut found: bool = e == 0;
    let mut j: usize = 0;
    assert(d@.take(0) =~= Seq::<char>::empty());
    assert(utf8_len(d@.take(0)) == 0);
    assert(found == exists|k: int| 0 <= k <= 0 && #[trigger] utf8_len(d@.take(k)) == e) by {
        if exists|k: int| 0 <= k <= 0 && #[trigger] utf8_len(d@.take(k)) == e {
            let k = choose|k: int| 0 <= k <= 0 && #[trigger] utf8_len(d@.take(k)) == e;
            assert(k == 0);
        }
    }
    while j < d.len() && acc <= e
        invariant
            j <= d.len(),
            e == exponent,
            acc as nat == utf8_len(d@.take(j as int)),
            acc <= e + 4,
            found == exists|k: int| 0 <= k <= j && #[trigger] utf8_len(d@.take(k)) == e,
        decreases d.len() - j,
    {
        let c = d[j];
        let n: u64 = if (c as u32) < 0x80 {
            1
        } else if (c as u32) < 0x800 {
            2
        } else if (c as u32) < 0x10000 {
            3
        } else {
            4
        };
        proof {
            lemma_utf8_len_prefix(d@, j as int);
        }
        acc = acc + n;
        j = j + 1;
        if acc == e {
            found = true;
        }
        assert(found == exists|k: int| 0 <= k <= j && #[trigger] utf8_len(d@.take(k)) == e) by {
            if exists|k: int| 0 <= k <= j && #[trigger] utf8_len(d@.take(k)) == e {
                let k = choose|k: int| 0 <= k <= j && #[trigger] utf8_len(d@.take(k)) == e;
                if k < j {
                }
            }
        }
    }
    if acc <= e {
        assert(d@.take(j as int) =~= d@);
        return true;
    }
    proof {
        lemma_utf8_len_monotone(d@, j as int, d@.len() as int);
        assert(d@.take(d@.len() as int) =~= d@);
        assert forall|k: int| j < k <= d@.len() implies #[trigger] utf8_len(d@.take(k)) != e by {
            lemma_utf8_len_monotone(d@, j as int, k);
        }
    }
    found
}

} // verus!
