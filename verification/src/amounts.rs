//! Rendering of 256-bit token amounts and work values, and their zero-padded storage form.
use crate::text::{
    all_digits, all_zeros, chars_of, decimal_digits, decimal_value, group_thousands, insert_commas, is_digit, lemma_canonical_digits, lemma_decimal_digits, lemma_value_leading_zeros, string_of, with_commas, pow10, text_less, lemma_text_order_digits, lemma_digits_len,
};
use crate::u256::{u256_modulus, u256_parse, U256};
use vstd::prelude::*;

verus! {

/// 10^18: ZKC has 18 decimals.
pub open spec fn zkc_unit() -> nat {
    1_000_000_000_000_000_000
}

/// Width of the zero-padded storage form: 2^256 has 78 decimal digits.
pub const PADDED_WIDTH: usize = 78;

/// A human-readable ZKC amount for a wei string: the whole ZKC with thousands separators and
/// ` ZKC`, or `0 ZKC` where the string does not parse.
pub open spec fn zkc_display(wei: Seq<char>) -> Seq<char> {
    match u256_parse(wei) {
        Some(v) => with_commas(v / zkc_unit()) + seq![' ', 'Z', 'K', 'C'],
        None => seq!['0', ' ', 'Z', 'K', 'C'],
    }
}

/// A human-readable cycle count: the count with thousands separators and ` cycles`, or
/// `0 cycles` where the string does not parse.
pub open spec fn cycles_display(cycles: Seq<char>) -> Seq<char> {
    match u256_parse(cycles) {
        Some(v) => with_commas(v) + seq![' ', 'c', 'y', 'c', 'l', 'e', 's'],
        None => seq!['0', ' ', 'c', 'y', 'c', 'l', 'e', 's'],
    }
}

/// `n` copies of the digit `0`.
pub open spec fn zeros(n: nat) -> Seq<char> {
    Seq::new(n, |i: int| '0')
}

/// The decimal digits of `v`, zero-padded on the left to 78 characters.
pub open spec fn padded(v: nat) -> Seq<char> {
    let d = decimal_digits(v);
    if d.len() < PADDED_WIDTH {
        zeros((PADDED_WIDTH - d.len()) as nat) + d
    } else {
        d
    }
}

/// The number of leading `0` characters of `s`.
pub open spec fn leading_zeros(s: Seq<char>) -> nat
    decreases s.len(),
{
    if s.len() > 0 && s[0] == '0' {
        1 + leading_zeros(s.drop_first())
    } else {
        0
    }
}

/// `s` without its leading `0` characters.
pub open spec fn trim_leading_zeros(s: Seq<char>) -> Seq<char> {
    s.skip(leading_zeros(s) as int)
}

/// The value stored as `s`: for digits, their value where it fits in 256 bits; otherwise
/// what `U256::from_str` makes of `s` without its leading zeros, with 0 for a string of
/// zeros alone; `None` where neither applies.
pub open spec fn unpadded(s: Seq<char>) -> Option<nat> {
    if all_digits(s) {
        if decimal_value(s) < u256_modulus() {
            Some(decimal_value(s))
        } else {
            None
        }
    } else {
        match u256_parse(trim_leading_zeros(s)) {
            Some(v) => Some(v),
            None => if all_zeros(s) {
                Some(0)
            } else {
                None
            },
        }
    }
}

/// The characters of `Invalid U256 string: ` followed by `s`.
pub open spec fn invalid_u256_message(s: Seq<char>) -> Seq<char> {
    seq![
        'I', 'n', 'v', 'a', 'l', 'i', 'd', ' ', 'U', '2', '5', '6', ' ', 's', 't', 'r', 'i', 'n', 'g',
        ':', ' ',
    ] + s
}

/// An error of the database layer.
#[derive(Clone, Debug, PartialEq, Eq)]
pub enum DbError {
    /// A stored value is malformed; the message says which.
    BadTransaction(String),
}

/// Leading zeros lemma: the trimmed rest starts with a non-zero character (or is empty),
/// and the dropped part is made of zeros.
pub proof fn lemma_trim(s: Seq<char>)
    ensures
        leading_zeros(s) <= s.len(),
        all_zeros(s.take(leading_zeros(s) as int)),
        trim_leading_zeros(s).len() == 0 || trim_leading_zeros(s)[0] != '0',
        s == s.take(leading_zeros(s) as int) + trim_leading_zeros(s),
    decreases s.len(),
{
    if s.len() > 0 && s[0] == '0' {
        lemma_trim(s.drop_first());
        let k = leading_zeros(s.drop_first()) as int;
        assert(s.take(k + 1) =~= seq!['0'] + s.drop_first().take(k));
        assert(s.skip(k + 1) =~= s.drop_first().skip(k));
        assert(all_zeros(s.take(k + 1))) by {
            assert forall|i: int| 0 <= i < k + 1 implies #[trigger] s.take(k + 1)[i] == '0' by {
                if i > 0 {
                    assert(s.take(k + 1)[i] == s.drop_first().take(k)[i - 1]);
                }
            }
        }
    }
    assert(s =~= s.take(leading_zeros(s) as int) + trim_leading_zeros(s));
}

/// A digit string without its leading zeros is a digit string with the same value.
pub proof fn lemma_trim_digits(s: Seq<char>)
    requires
        all_digits(s),
    ensures
        all_digits(trim_leading_zeros(s)),
        decimal_value(trim_leading_zeros(s)) == decimal_value(s),
{
    lemma_trim(s);
    let t = trim_leading_zeros(s);
    let k = leading_zeros(s) as int;
    assert forall|i: int| 0 <= i < t.len() implies #[trigger] is_digit(t[i]) by {
        assert(t[i] == s[k + i]);
    }
    lemma_value_leading_zeros(s.take(k), t);
}

/// Reading back the storage form of a value gives that value.
pub proof fn lemma_pad_unpad(v: U256)
    ensures
        unpadded(padded(v.value())) == Some(v.value()),
{
    let d = decimal_digits(v.value());
    lemma_decimal_digits(v.value());
    v.lemma_value_bounds();
    let p = padded(v.value());
    if d.len() < PADDED_WIDTH {
        let z = zeros((PADDED_WIDTH - d.len()) as nat);
        assert(all_zeros(z));
        lemma_value_leading_zeros(z, d);
        assert forall|i: int| 0 <= i < p.len() implies #[trigger] is_digit(p[i]) by {
            if i < z.len() {
                assert(p[i] == '0');
            } else {
                assert(p[i] == d[i - z.len()]);
            }
        }
    }
}

proof fn lemma_pow10_add(a: nat, b: nat)
    ensures
        pow10(a + b) == pow10(a) * pow10(b),
    decreases a,
{
    if a > 0 {
        lemma_pow10_add((a - 1) as nat, b);
        let x = pow10((a - 1) as nat);
        let y = pow10(b);
        assert(pow10(a + b) == 10 * pow10(((a - 1) + b) as nat));
        assert(pow10(a) == 10 * x);
        assert(10 * (x * y) == (10 * x) * y) by (nonlinear_arith);
        assert(pow10(((a - 1) + b) as nat) == x * y);
    } else {
        assert(pow10(a) == 1);
        assert(a + b == b);
    }
}

/// 2^256 is below 10^78, so a 256-bit value has at most 78 digits.
proof fn lemma_modulus_below_pow10_78()
    ensures
        u256_modulus() < pow10(78),
{
    assert(pow10(13) == 10000000000000nat) by {
        reveal_with_fuel(pow10, 14);
    }
    lemma_pow10_add(13, 13);
    lemma_pow10_add(26, 26);
    lemma_pow10_add(52, 26);
    assert(pow10(26) == 100000000000000000000000000nat);
    assert(100000000000000000000000000nat * 100000000000000000000000000nat
        == 10000000000000000000000000000000000000000000000000000nat) by (nonlinear_arith);
    assert(pow10(52) == 10000000000000000000000000000000000000000000000000000nat);
    assert(10000000000000000000000000000000000000000000000000000nat * 100000000000000000000000000nat
        == 1000000000000000000000000000000000000000000000000000000000000000000000000000000nat)
        by (nonlinear_arith);
    assert(pow10(78)
        == 1000000000000000000000000000000000000000000000000000000000000000000000000000000nat);
    assert(u256_modulus()
        == 115792089237316195423570985008687907853269984665640564039457584007913129639936nat);
}

/// The storage form of a value is made of 78 digits and reads back as the value.
proof fn lemma_padded_shape(v: U256)
    ensures
        padded(v.value()).len() == PADDED_WIDTH,
        all_digits(padded(v.value())),
        decimal_value(padded(v.value())) == v.value(),
{
    let d = decimal_digits(v.value());
    lemma_decimal_digits(v.value());
    v.lemma_value_bounds();
    lemma_modulus_below_pow10_78();
    lemma_digits_len(v.value(), 78);
    let p = padded(v.value());
    if d.len() < PADDED_WIDTH {
        let z = zeros((PADDED_WIDTH - d.len()) as nat);
        assert(all_zeros(z));
        lemma_value_leading_zeros(z, d);
        assert forall|i: int| 0 <= i < p.len() implies #[trigger] is_digit(p[i]) by {
            if i < z.len() {
                assert(p[i] == '0');
            } else {
                assert(p[i] == d[i - z.len()]);
            }
        }
    }
}

/// The storage form of every value is 78 digits long, and the storage forms of two values
/// are in the same order as text as the values are as numbers, so that ordering the stored
/// text orders the values.
pub proof fn lemma_padded_order(a: U256, b: U256)
    ensures
        padded(a.value()).len() == PADDED_WIDTH,
        all_digits(padded(a.value())),
        a.value() < b.value() <==> text_less(padded(a.value()), padded(b.value())),
{
    lemma_padded_shape(a);
    lemma_padded_shape(b);
    lemma_text_order_digits(padded(a.value()), padded(b.value()));
}

/// Renders `num` with thousands separators.
pub fn format_with_commas_u256(num: U256) -> (s: String)
    ensures
        s@ == with_commas(num.value()),
{
    let digits = num.to_decimal();
    let chars = chars_of(digits.as_str());
    let grouped = insert_commas(&chars);
    string_of(&grouped)
}

/// The characters of `v` followed by those of `suffix`.
fn with_suffix(v: Vec<char>, suffix: &Vec<char>) -> (r: Vec<char>)
    ensures
        r@ == v@ + suffix@,
{
    let mut r = v;
    let mut i: usize = 0;
    let ghost start = r@;
    while i < suffix.len()
        invariant
            i <= suffix.len(),
            r@ == start + suffix@.take(i as int),
        decreases suffix.len() - i,
    {
        r.push(suffix[i]);
        i = i + 1;
        assert(r@ =~= start + suffix@.take(i as int));
    }
    assert(suffix@.take(suffix.len() as int) =~= suffix@);
    r
}

/// Format a wei amount as human-readable ZKC with commas (18 decimals, rounded down).
pub fn format_zkc(wei_str: &str) -> (s: String)
    ensures
        s@ == zkc_display(wei_str@),
        all_digits(wei_str@) && decimal_value(wei_str@) < u256_modulus() ==> s@ == with_commas(
            decimal_value(wei_str@) / zkc_unit(),
        ) + seq![' ', 'Z', 'K', 'C'],
{
    let suffix: Vec<char> = vec![' ', 'Z', 'K', 'C'];
    match U256::parse(wei_str) {
        Some(wei) => {
            let divisor = U256::from_u64(10).pow(U256::from_u64(18));
            proof {
                reveal_with_fuel(vstd::arithmetic::power::pow, 20);
                assert(vstd::arithmetic::power::pow(10, 18) == zkc_unit());
                vstd::arithmetic::div_mod::lemma_small_mod(zkc_unit(), u256_modulus());
            }
            let zkc = wei.wrapping_div(divisor);
            let digits = chars_of(zkc.to_decimal().as_str());
            let grouped = insert_commas(&digits);
            string_of(&with_suffix(grouped, &suffix))
        },
        None => {
            let zero: Vec<char> = vec!['0'];
            string_of(&with_suffix(zero, &suffix))
        },
    }
}

/// Format a work amount as human-readable cycles with commas.
pub fn format_cycles(cycles_str: &str) -> (s: String)
    ensures
        s@ == cycles_display(cycles_str@),
        all_digits(cycles_str@) && decimal_value(cycles_str@) < u256_modulus() ==> s@
            == with_commas(decimal_value(cycles_str@)) + seq![' ', 'c', 'y', 'c', 'l', 'e', 's'],
{
    let suffix: Vec<char> = vec![' ', 'c', 'y', 'c', 'l', 'e', 's'];
    match U256::parse(cycles_str) {
        Some(cycles) => {
            let digits = chars_of(cycles.to_decimal().as_str());
            let grouped = insert_commas(&digits);
            string_of(&with_suffix(grouped, &suffix))
        },
        None => {
            let zero: Vec<char> = vec!['0'];
            string_of(&with_suffix(zero, &suffix))
        },
    }
}

/// Convert a value to a zero-padded string of 78 digits, so that stored strings sort as
/// the numbers do.
pub fn pad_u256(value: U256) -> (s: String)
    ensures
        s@ == padded(value.value()),
{
    let digits = chars_of(value.to_decimal().as_str());
    let mut out: Vec<char> = Vec::new();
    let mut k: usize = 0;
    let n = digits.len();
    let fill: usize = if n < PADDED_WIDTH {
        PADDED_WIDTH - n
    } else {
        0
    };
    while k < fill
        invariant
            k <= fill,
            out@ == zeros(k as nat),
        decreases fill - k,
    {
        out.push('0');
        k = k + 1;
        assert(out@ =~= zeros(k as nat));
    }
    let r = with_suffix(out, &digits);
    assert(n >= PADDED_WIDTH ==> r@ =~= digits@);
    string_of(&r)
}

/// Convert a zero-padded string back to a value; a string of zeros alone is 0.
pub fn unpad_u256(s: &str) -> (r: Result<U256, DbError>)
    ensures
        r matches Ok(v) ==> unpadded(s@) == Some(v.value()),
        r matches Err(DbError::BadTransaction(msg)) ==> unpadded(s@) is None && msg@
            == invalid_u256_message(s@),
{
    let chars = chars_of(s);
    let mut k: usize = 0;
    while k < chars.len() && chars[k] == '0'
        invariant
            k <= chars.len(),
            chars@ == s@,
            forall|i: int| 0 <= i < k ==> #[trigger] chars@[i] == '0',
        decreases chars.len() - k,
    {
        k = k + 1;
    }
    let mut rest: Vec<char> = Vec::new();
    let mut i: usize = k;
    while i < chars.len()
        invariant
            k <= i <= chars.len(),
            rest@ == chars@.subrange(k as int, i as int),
        decreases chars.len() - i,
    {
        rest.push(chars[i]);
        i = i + 1;
        assert(rest@ =~= chars@.subrange(k as int, i as int));
    }
    proof {
        lemma_trim(s@);
        lemma_leading_zeros_count(s@, k as int);
        assert(rest@ =~= trim_leading_zeros(s@));
    }
    let trimmed = string_of(&rest);
    let all_zero = k == chars.len();
    proof {
        if all_zero {
            assert(all_zeros(s@));
        } else {
            assert(chars@[k as int] != '0');
            assert(!all_zeros(s@));
        }
        if all_digits(s@) {
            lemma_trim_digits(s@);
        }
    }
    match U256::parse(trimmed.as_str()) {
        Some(v) => Ok(v),
        None => {
            if all_zero {
                proof {
                    if all_digits(s@) {
                        assert(trim_leading_zeros(s@) =~= Seq::<char>::empty());
                        assert(decimal_value(trim_leading_zeros(s@)) == 0);
                    }
                }
                Ok(U256::zero())
            } else {
                let prefix: Vec<char> = vec![
                    'I', 'n', 'v', 'a', 'l', 'i', 'd', ' ', 'U', '2', '5', '6', ' ', 's', 't', 'r', 'i',
                    'n', 'g', ':', ' ',
                ];
                let msg = with_suffix(prefix, &chars);
                Err(DbError::BadTransaction(string_of(&msg)))
            }
        },
    }
}

/// The scan for leading zeros stops exactly at their count.
pub proof fn lemma_leading_zeros_count(s: Seq<char>, k: int)
    requires
        0 <= k <= s.len(),
        forall|i: int| 0 <= i < k ==> #[trigger] s[i] == '0',
        k == s.len() || s[k] != '0',
    ensures
        leading_zeros(s) == k,
    decreases s.len(),
{
    if k > 0 {
        let t = s.drop_first();
        assert forall|i: int| 0 <= i < k - 1 implies #[trigger] t[i] == '0' by {
            assert(t[i] == s[i + 1]);
        }
        if k - 1 < t.len() {
            assert(t[k - 1] == s[k]);
        }
        lemma_leading_zeros_count(t, k - 1);
    }
}

} // verus!
