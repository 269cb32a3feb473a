//! Account addresses and 32-byte digests, and their lowercase hex rendering.
use vstd::prelude::*;

verus! {

/// A 20-byte account address (an Ethereum address or a PoVW work log ID), held as a
/// big-endian number: the first 4 bytes in `hi`, the last 16 in `lo`.
#[derive(Clone, Copy, Debug, PartialEq, Eq, Structural)]
pub struct Address {
    pub hi: u32,
    pub lo: u128,
}

/// A 32-byte digest (a work log commit), held big-endian in two halves.
#[derive(Clone, Copy, Debug, PartialEq, Eq, Structural)]
pub struct Digest {
    pub hi: u128,
    pub lo: u128,
}

/// The lowercase hex digit for `d < 16`.
pub open spec fn hex_char(d: nat) -> char {
    if d < 10 {
        (('0' as int) + d) as char
    } else {
        (('a' as int) + d - 10) as char
    }
}

/// The `w` lowest hex digits of `n`, most significant first, zero-padded.
pub open spec fn hex_fixed(n: nat, w: nat) -> Seq<char>
    decreases w,
{
    if w == 0 {
        Seq::empty()
    } else {
        hex_fixed(n / 16, (w - 1) as nat).push(hex_char(n % 16))
    }
}

/// 2^128, the weight of the high part of an address.
pub open spec fn two_pow_128() -> nat {
    0x1_0000_0000_0000_0000_0000_0000_0000_0000nat
}

/// The address holding the 160-bit number `n`.
pub open spec fn address_of(n: nat) -> Address {
    Address { hi: (n / two_pow_128()) as u32, lo: (n % two_pow_128()) as u128 }
}

impl Address {
    /// The address `0x` followed by its 40 lowercase hex digits, as `{:#x}` renders it.
    pub open spec fn hex(self) -> Seq<char> {
        seq!['0', 'x'] + hex_fixed(self.hi as nat, 8) + hex_fixed(self.lo as nat, 32)
    }

    /// Renders the address as `0x` and 40 lowercase hex digits.
    pub fn to_hex(&self) -> (s: Vec<char>)
        ensures
            s@ == self.hex(),
    {
        let mut s: Vec<char> = Vec::new();
        s.push('0');
        s.push('x');
        let a = hex_digits(self.hi as u128, 8);
        let b = hex_digits(self.lo, 32);
        let mut out = s;
        let mut i: usize = 0;
        while i < a.len()
            invariant
                i <= a.len(),
                out@ == seq!['0', 'x'] + a@.take(i as int),
            decreases a.len() - i,
        {
            out.push(a[i]);
            i = i + 1;
            assert(a@.take(i as int) =~= a@.take((i - 1) as int).push(a@[i - 1]));
        }
        assert(a@.take(a.len() as int) =~= a@);
        let mut j: usize = 0;
        while j < b.len()
            invariant
                j <= b.len(),
                out@ == seq!['0', 'x'] + a@ + b@.take(j as int),
            decreases b.len() - j,
        {
            out.push(b[j]);
            j = j + 1;
            assert(b@.take(j as int) =~= b@.take((j - 1) as int).push(b@[j - 1]));
        }
        assert(b@.take(b.len() as int) =~= b@);
        out
    }
}

/// The lowercase hex digit for `d`.
pub fn hex_digit(d: u128) -> (c: char)
    requires
        d < 16,
    ensures
        c == hex_char(d as nat),
{
    if d == 0 {
        '0'
    } else if d == 1 {
        '1'
    } else if d == 2 {
        '2'
    } else if d == 3 {
        '3'
    } else if d == 4 {
        '4'
    } else if d == 5 {
        '5'
    } else if d == 6 {
        '6'
    } else if d == 7 {
        '7'
    } else if d == 8 {
        '8'
    } else if d == 9 {
        '9'
    } else if d == 10 {
        'a'
    } else if d == 11 {
        'b'
    } else if d == 12 {
        'c'
    } else if d == 13 {
        'd'
    } else if d == 14 {
        'e'
    } else {
        'f'
    }
}

/// The `w` lowest hex digits of `n`, zero-padded.
pub fn hex_digits(n: u128, w: usize) -> (v: Vec<char>)
    ensures
        v@ == hex_fixed(n as nat, w as nat),
{
    let mut v: Vec<char> = Vec::new();
    let mut m: u128 = n;
    let mut k: usize = w;
    while k > 0
        invariant
            k <= w,
            hex_fixed(n as nat, w as nat) == hex_fixed(m as nat, k as nat) + v@,
        decreases k,
    {
        let ghost old_v = v@;
        let ghost old_m = m;
        v.insert(0, hex_digit(m % 16));
        m = m / 16;
        k = k - 1;
        assert(hex_fixed(old_m as nat, (k + 1) as nat) == hex_fixed(m as nat, k as nat).push(
            hex_char((old_m % 16) as nat),
        ));
        assert(v@ =~= seq![hex_char((old_m % 16) as nat)] + old_v);
        assert(hex_fixed(m as nat, k as nat) + v@ =~= hex_fixed(m as nat, k as nat).push(
            hex_char((old_m % 16) as nat),
        ) + old_v);
    }
    assert(hex_fixed(m as nat, 0) + v@ =~= v@);
    v
}

} // verus!
