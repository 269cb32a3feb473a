//! Decimal rendering of numbers and thousands separators.
use vstd::prelude::*;

verus! {

/// `c` is one of the ASCII digits `0`..`9`.
pub open spec fn is_digit(c: char) -> bool {
    '0' <= c && c <= '9'
}

/// Numeric value of an ASCII digit.
pub open spec fn digit_value(c: char) -> nat {
    (c as int - '0' as int) as nat
}

/// The ASCII digit for `d < 10`.
pub open spec fn digit_char(d: nat) -> char {
    (('0' as int) + d) as char
}

/// Every character of `s` is an ASCII digit.
pub open spec fn all_digits(s: Seq<char>) -> bool {
    forall|i: int| 0 <= i < s.len() ==> #[trigger] is_digit(s[i])
}

/// Every character of `s` is the digit `0` (true of the empty sequence).
pub open spec fn all_zeros(s: Seq<char>) -> bool {
    forall|i: int| 0 <= i < s.len() ==> #[trigger] s[i] == '0'
}

/// The number written by the decimal digits `s` (0 for the empty sequence).
pub open spec fn decimal_value(s: Seq<char>) -> nat
    decreases s.len(),
{
    if s.len() == 0 {
        0
    } else {
        decimal_value(s.drop_last()) * 10 + digit_value(s.last())
    }
}

/// The canonical decimal rendering of `n`: no sign, no leading zeros, and `"0"` for zero.
pub open spec fn decimal_digits(n: nat) -> Seq<char>
    decreases n,
{
    if n < 10 {
        seq![digit_char(n)]
    } else {
        decimal_digits(n / 10).push(digit_char(n % 10))
    }
}

/// 10^k.
pub open spec fn pow10(k: nat) -> nat
    decreases k,
{
    if k == 0 {
        1
    } else {
        10 * pow10((k - 1) as nat)
    }
}

/// `a` comes before `b` in the order of Rust strings (lexicographic by character, which on
/// ASCII text is the order of the bytes): a proper prefix comes first.
pub open spec fn text_less(a: Seq<char>, b: Seq<char>) -> bool
    decreases a.len(),
{
    if a.len() == 0 {
        b.len() > 0
    } else if b.len() == 0 {
        false
    } else if a[0] != b[0] {
        a[0] < b[0]
    } else {
        text_less(a.skip(1), b.skip(1))
    }
}

/// A number written with `s.len()` digits is below 10^len.
pub proof fn lemma_value_below_pow10(s: Seq<char>)
    requires
        all_digits(s),
    ensures
        decimal_value(s) < pow10(s.len()),
    decreases s.len(),
{
    if s.len() > 0 {
        let t = s.drop_last();
        assert(all_digits(t)) by {
            assert forall|i: int| 0 <= i < t.len() implies #[trigger] is_digit(t[i]) by {
                assert(t[i] == s[i]);
            }
        }
        lemma_value_below_pow10(t);
        assert(is_digit(s[s.len() - 1]));
        let p = pow10(t.len());
        let v = decimal_value(t);
        let d = digit_value(s.last());
        assert(v * 10 + d < 10 * p) by (nonlinear_arith)
            requires
                v < p,
                d < 10,
        ;
    }
}

/// The value of digits is the first digit times its weight plus the value of the rest.
pub proof fn lemma_value_first_digit(s: Seq<char>)
    requires
        s.len() >= 1,
    ensures
        decimal_value(s) == digit_value(s[0]) * pow10((s.len() - 1) as nat) + decimal_value(
            s.skip(1),
        ),
    decreases s.len(),
{
    if s.len() == 1 {
        assert(s.drop_last() =~= Seq::<char>::empty());
        assert(s.skip(1) =~= Seq::<char>::empty());
        assert(decimal_value(s.drop_last()) == 0);
        assert(decimal_value(s.skip(1)) == 0);
        assert(pow10(0) == 1);
        assert(decimal_value(s) == digit_value(s[0]));
    } else {
        let t = s.drop_last();
        lemma_value_first_digit(t);
        assert(decimal_value(s) == decimal_value(t) * 10 + digit_value(s.last()));
        assert(s.skip(1).drop_last() =~= t.skip(1));
        assert(s.skip(1).last() == s.last());
        assert(t[0] == s[0]);
        let d0 = digit_value(s[0]);
        let p = pow10((t.len() - 1) as nat);
        assert(pow10((s.len() - 1) as nat) == 10 * p);
        let r = decimal_value(t.skip(1));
        assert(decimal_value(s.skip(1)) == r * 10 + digit_value(s.last()));
        assert((d0 * p + r) * 10 == d0 * (10 * p) + r * 10) by (nonlinear_arith);
    }
}

/// Digit strings of one length are in the order of their values.
pub proof fn lemma_text_order_digits(a: Seq<char>, b: Seq<char>)
    requires
        all_digits(a),
        all_digits(b),
        a.len() == b.len(),
    ensures
        text_less(a, b) <==> decimal_value(a) < decimal_value(b),
    decreases a.len(),
{
    if a.len() > 0 {
        let ta = a.skip(1);
        let tb = b.skip(1);
        assert(all_digits(ta)) by {
            assert forall|i: int| 0 <= i < ta.len() implies #[trigger] is_digit(ta[i]) by {
                assert(ta[i] == a[i + 1]);
            }
        }
        assert(all_digits(tb)) by {
            assert forall|i: int| 0 <= i < tb.len() implies #[trigger] is_digit(tb[i]) by {
                assert(tb[i] == b[i + 1]);
            }
        }
        lemma_value_first_digit(a);
        lemma_value_first_digit(b);
        lemma_value_below_pow10(ta);
        lemma_value_below_pow10(tb);
        lemma_text_order_digits(ta, tb);
        assert(is_digit(a[0]));
        assert(is_digit(b[0]));
        let p = pow10(ta.len());
        let da = digit_value(a[0]);
        let db = digit_value(b[0]);
        let va = decimal_value(ta);
        let vb = decimal_value(tb);
        if da < db {
            assert(da * p + va < db * p + vb) by (nonlinear_arith)
                requires
                    da < db,
                    va < p,
            ;
        } else if db < da {
            assert(db * p + vb < da * p + va) by (nonlinear_arith)
                requires
                    db < da,
                    vb < p,
            ;
        }
    } else {
        assert(decimal_value(a) == 0 && decimal_value(b) == 0);
    }
}

/// A number below 10^k has at most k digits.
pub proof fn lemma_digits_len(n: nat, k: nat)
    requires
        k >= 1,
        n < pow10(k),
    ensures
        decimal_digits(n).len() <= k,
    decreases k,
{
    if n >= 10 {
        assert(k >= 2) by {
            if k == 1 {
                assert(pow10(1) == 10 * pow10(0));
            }
        }
        assert(n / 10 < pow10((k - 1) as nat)) by {
            assert(pow10(k) == 10 * pow10((k - 1) as nat));
        }
        lemma_digits_len(n / 10, (k - 1) as nat);
    }
}

/// `s` with a comma inserted in front of every complete group of three characters,
/// counting from the right, except at the very front.
pub open spec fn group_thousands(s: Seq<char>) -> Seq<char>
    decreases s.len(),
{
    if s.len() <= 3 {
        s
    } else {
        group_thousands(s.take(s.len() - 3)).push(',') + s.skip(s.len() - 3)
    }
}

/// The decimal rendering of `n` with thousands separators.
pub open spec fn with_commas(n: nat) -> Seq<char> {
    group_thousands(decimal_digits(n))
}

/// The canonical decimal rendering is made of digits, reads back as `n`, and starts with
/// a non-zero digit unless it is `"0"`.
pub proof fn lemma_decimal_digits(n: nat)
    ensures
        all_digits(decimal_digits(n)),
        decimal_value(decimal_digits(n)) == n,
        decimal_digits(n).len() >= 1,
        n > 0 ==> decimal_digits(n)[0] != '0',
        n == 0 ==> decimal_digits(n) == seq!['0'],
    decreases n,
{
    if n < 10 {
        let s = decimal_digits(n);
        assert(s.drop_last() =~= Seq::<char>::empty());
        assert(decimal_value(s.drop_last()) == 0);
    } else {
        lemma_decimal_digits(n / 10);
        let s = decimal_digits(n);
        assert(s.drop_last() =~= decimal_digits(n / 10));
        assert(all_digits(s)) by {
            assert forall|i: int| 0 <= i < s.len() implies #[trigger] is_digit(s[i]) by {
                if i < s.len() - 1 {
                    assert(s[i] == decimal_digits(n / 10)[i]);
                }
            }
        }
        assert(s[0] == decimal_digits(n / 10)[0]);
    }
}

/// A sequence of digits whose first digit is not `0` (or that is exactly `"0"`) is the
/// canonical rendering of its value.
pub proof fn lemma_canonical_digits(s: Seq<char>)
    requires
        all_digits(s),
        s.len() >= 1,
        s[0] != '0' || s.len() == 1,
    ensures
        decimal_digits(decimal_value(s)) == s,
    decreases s.len(),
{
    if s.len() == 1 {
        assert(s.drop_last() =~= Seq::<char>::empty());
        assert(is_digit(s[0]));
        assert(s.last() == s[0]);
        assert(digit_value(s[0]) < 10);
        assert(digit_char(digit_value(s[0])) == s[0]);
        assert(decimal_value(s.drop_last()) == 0);
        assert(decimal_value(s) == digit_value(s[0]));
        assert(decimal_digits(digit_value(s[0])) == seq![digit_char(digit_value(s[0]))]);
        assert(decimal_digits(decimal_value(s)) =~= s);
    } else {
        let t = s.drop_last();
        assert(is_digit(s[0]));
        assert(t[0] == s[0]);
        assert(all_digits(t)) by {
            assert forall|i: int| 0 <= i < t.len() implies #[trigger] is_digit(t[i]) by {
                assert(t[i] == s[i]);
            }
        }
        lemma_canonical_digits(t);
        lemma_value_positive(t);
        assert(is_digit(s.last()));
        let v = decimal_value(s);
        assert(v == decimal_value(t) * 10 + digit_value(s.last()));
        assert(v / 10 == decimal_value(t));
        assert(v % 10 == digit_value(s.last()));
        assert(decimal_digits(v) =~= s);
    }
}

/// Digits that do not start with `0` have a positive value.
pub proof fn lemma_value_positive(s: Seq<char>)
    requires
        all_digits(s),
        s.len() >= 1,
        s[0] != '0',
    ensures
        decimal_value(s) > 0,
    decreases s.len(),
{
    if s.len() == 1 {
        assert(s.drop_last() =~= Seq::<char>::empty());
        assert(is_digit(s[0]));
        assert(s.last() == s[0]);
    } else {
        let t = s.drop_last();
        assert(t[0] == s[0]);
        assert(all_digits(t)) by {
            assert forall|i: int| 0 <= i < t.len() implies #[trigger] is_digit(t[i]) by {
                assert(t[i] == s[i]);
            }
        }
        lemma_value_positive(t);
    }
}

/// Leading zeros do not change the value of a digit sequence.
pub proof fn lemma_value_leading_zeros(z: Seq<char>, s: Seq<char>)
    requires
        all_zeros(z),
    ensures
        decimal_value(z + s) == decimal_value(s),
    decreases s.len() + z.len(),
{
    if s.len() == 0 {
        assert(z + s =~= z);
        if z.len() > 0 {
            let z1 = z.drop_last();
            assert(all_zeros(z1)) by {
                assert forall|i: int| 0 <= i < z1.len() implies #[trigger] z1[i] == '0' by {
                    assert(z1[i] == z[i]);
                }
            }
            lemma_value_leading_zeros(z1, s);
            assert(z1 + s =~= z1);
            assert(z[z.len() - 1] == '0');
        }
    } else {
        assert((z + s).drop_last() =~= z + s.drop_last());
        lemma_value_leading_zeros(z, s.drop_last());
    }
}

/// Prepending one character to a sequence whose length is `k` adds a comma after it
/// exactly when `k` is a positive multiple of three.
pub proof fn lemma_group_prepend(c: char, t: Seq<char>)
    ensures
        group_thousands(seq![c] + t) == if t.len() % 3 == 0 && t.len() > 0 {
            seq![c, ','] + group_thousands(t)
        } else {
            seq![c] + group_thousands(t)
        },
    decreases t.len(),
{
    let s = seq![c] + t;
    if s.len() <= 3 {
        assert(group_thousands(t) == t);
        assert(group_thousands(s) =~= seq![c] + group_thousands(t));
    } else if t.len() == 3 {
        assert(s.take(s.len() - 3) =~= seq![c]);
        assert(s.skip(s.len() - 3) =~= t);
        assert(group_thousands(seq![c]) == seq![c]);
        assert(group_thousands(s) =~= seq![c, ','] + group_thousands(t));
    } else {
        let t1 = t.take(t.len() - 3);
        assert(s.take(s.len() - 3) =~= seq![c] + t1);
        assert(s.skip(s.len() - 3) =~= t.skip(t.len() - 3));
        lemma_group_prepend(c, t1);
        if t.len() % 3 == 0 {
            assert(group_thousands(s) =~= seq![c, ','] + group_thousands(t));
        } else {
            assert(group_thousands(s) =~= seq![c] + group_thousands(t));
        }
    }
}

/// `s` without its commas.
pub open spec fn strip_commas(s: Seq<char>) -> Seq<char>
    decreases s.len(),
{
    if s.len() == 0 {
        Seq::empty()
    } else if s.last() == ',' {
        strip_commas(s.drop_last())
    } else {
        strip_commas(s.drop_last()).push(s.last())
    }
}

/// Removing commas from two joined sequences removes them from each.
proof fn lemma_strip_commas_add(a: Seq<char>, b: Seq<char>)
    ensures
        strip_commas(a + b) == strip_commas(a) + strip_commas(b),
    decreases b.len(),
{
    if b.len() == 0 {
        assert(a + b =~= a);
        assert(strip_commas(a) + strip_commas(b) =~= strip_commas(a));
    } else {
        assert((a + b).drop_last() =~= a + b.drop_last());
        lemma_strip_commas_add(a, b.drop_last());
        if b.last() == ',' {
        } else {
            assert(strip_commas(a + b) =~= strip_commas(a) + strip_commas(b));
        }
    }
}

/// A sequence without commas is left as it is.
proof fn lemma_strip_no_commas(s: Seq<char>)
    requires
        forall|i: int| 0 <= i < s.len() ==> s[i] != ',',
    ensures
        strip_commas(s) == s,
    decreases s.len(),
{
    if s.len() > 0 {
        lemma_strip_no_commas(s.drop_last());
        assert(strip_commas(s) =~= s);
    }
}

/// Removing the thousands separators from a grouped sequence without commas gives it back.
pub proof fn lemma_group_thousands_strip(s: Seq<char>)
    requires
        forall|i: int| 0 <= i < s.len() ==> s[i] != ',',
    ensures
        strip_commas(group_thousands(s)) == s,
    decreases s.len(),
{
    if s.len() <= 3 {
        lemma_strip_no_commas(s);
    } else {
        let head = s.take(s.len() - 3);
        let tail = s.skip(s.len() - 3);
        lemma_group_thousands_strip(head);
        lemma_strip_commas_add(group_thousands(head).push(','), tail);
        lemma_strip_no_commas(tail);
        let gh = group_thousands(head);
        assert(gh.push(',').drop_last() =~= gh);
        assert(gh.push(',').last() == ',');
        assert(strip_commas(gh.push(',')) == strip_commas(gh));
        assert(head + tail =~= s);
    }
}

/// A number written with thousands separators reads, without them, as its decimal digits.
pub proof fn lemma_with_commas_digits(n: nat)
    ensures
        strip_commas(with_commas(n)) == decimal_digits(n),
{
    lemma_decimal_digits(n);
    let d = decimal_digits(n);
    assert forall|i: int| 0 <= i < d.len() implies d[i] != ',' by {
        assert(is_digit(d[i]));
    }
    lemma_group_thousands_strip(d);
}

/// In a grouped sequence, the commas stand three characters apart, counted from the right:
/// the part after the last comma has three characters.
pub proof fn lemma_group_thousands_tail(s: Seq<char>)
    requires
        s.len() > 3,
    ensures
        group_thousands(s).len() >= 4,
        group_thousands(s)[group_thousands(s).len() - 4] == ',',
        group_thousands(s).skip(group_thousands(s).len() - 3) == s.skip(s.len() - 3),
{
    let head = s.take(s.len() - 3);
    let g = group_thousands(head).push(',') + s.skip(s.len() - 3);
    assert(g[g.len() - 4] == ',');
    assert(g.skip(g.len() - 3) =~= s.skip(s.len() - 3));
}

/// A copy of the characters of `s`.
#[verifier::external_body]
pub(crate) fn chars_of(s: &str) -> (v: Vec<char>)
    ensures
        v@ == s@,
{
    s.chars().collect()
}

/// A string made of the characters `v`.
#[verifier::external_body]
pub(crate) fn string_of(v: &Vec<char>) -> (s: String)
    ensures
        s@ == v@,
{
    v.iter().collect()
}

/// The ASCII digit for `d`.
pub fn digit_to_char(d: u64) -> (c: char)
    requires
        d < 10,
    ensures
        c == digit_char(d as nat),
        is_digit(c),
{
    if d == 0 {
        '0'
    } else if d == 1 {
        '1'
    } else if d == 2 {
        '2'
    } else if d == 3 {
        '3'
    } else if d == 4 {
        '4'
    } else if d == 5 {
        '5'
    } else if d == 6 {
        '6'
    } else if d == 7 {
        '7'
    } else if d == 8 {
        '8'
    } else {
        '9'
    }
}

/// The canonical decimal digits of `n`.
pub fn u64_digits(n: u64) -> (v: Vec<char>)
    ensures
        v@ == decimal_digits(n as nat),
{
    let mut v: Vec<char> = Vec::new();
    v.push(digit_to_char(n % 10));
    let mut m: u64 = n / 10;
    assert(n < 10 ==> decimal_digits(n as nat) =~= v@);
    assert(n >= 10 ==> decimal_digits(n as nat) =~= decimal_digits(m as nat) + v@);
    while m > 0
        invariant
            decimal_digits(n as nat) == (if m == 0 {
                Seq::<char>::empty()
            } else {
                decimal_digits(m as nat)
            }) + v@,
        decreases m,
    {
        let ghost old_v = v@;
        v.insert(0, digit_to_char(m % 10));
        let ghost m_old = m;
        m = m / 10;
        proof {
            if m_old < 10 {
                assert(decimal_digits(m_old as nat) =~= seq![digit_char(m_old as nat)]);
                assert(m == 0);
                assert(v@ =~= seq![digit_char(m_old as nat)] + old_v);
            } else {
                assert(decimal_digits(m_old as nat) == decimal_digits(m as nat).push(
                    digit_char((m_old % 10) as nat),
                ));
                assert(v@ =~= seq![digit_char((m_old % 10) as nat)] + old_v);
            }
        }
    }
    assert(v@ =~= Seq::<char>::empty() + v@);
    v
}

/// Inserts thousands separators into `s`, as `group_thousands` describes.
pub fn insert_commas(s: &Vec<char>) -> (r: Vec<char>)
    ensures
        r@ == group_thousands(s@),
{
    let mut result: Vec<char> = Vec::new();
    let mut count: usize = 0;
    let n = s.len();
    let mut i: usize = n;
    assert(s@.subrange(n as int, n as int) =~= Seq::<char>::empty());
    while i > 0
        invariant
            i <= n,
            n == s.len(),
            result@ == group_thousands(s@.subrange(i as int, n as int)),
            (n - i) == 0 ==> count == 0,
            (n - i) > 0 ==> count == (if (n - i) % 3 == 0 {
                3
            } else {
                ((n - i) % 3) as usize
            }),
        decreases i,
    {
        let ghost old_t = s@.subrange(i as int, n as int);
        i = i - 1;
        let ch = s[i];
        assert(s@.subrange(i as int, n as int) =~= seq![ch] + old_t);
        proof {
            lemma_group_prepend(ch, old_t);
        }
        if count == 3 {
            result.insert(0, ',');
            count = 0;
        }
        result.insert(0, ch);
        count = count + 1;
        assert(result@ =~= group_thousands(s@.subrange(i as int, n as int)));
    }
    assert(s@.subrange(0, n as int) =~= s@);
    result
}

/// Format a u64 number with comma separators.
pub fn format_with_commas(num: u64) -> (s: String)
    ensures
        s@ == with_commas(num as nat),
{
    let digits = u64_digits(num);
    let grouped = insert_commas(&digits);
    string_of(&grouped)
}

} // verus!
