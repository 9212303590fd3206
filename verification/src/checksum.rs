//! The Internet checksum: a ones' complement sum of 16-bit words.

use vstd::arithmetic::div_mod::lemma_fundamental_div_mod;
use vstd::arithmetic::div_mod::lemma_mod_multiples_vanish;
use vstd::prelude::*;

verus! {

/// The plain sum of the 16-bit words that `s` writes in network order. A last odd byte
/// counts as the high byte of a word whose low byte is zero.
pub open spec fn word_sum(s: Seq<u8>) -> nat
    decreases s.len(),
{
    if s.len() == 0 {
        0
    } else if s.len() % 2 == 1 {
        word_sum(s.drop_last()) + s.last() as nat * 256
    } else {
        word_sum(s.take(s.len() - 2)) + s[s.len() - 2] as nat * 256 + s[s.len() - 1] as nat
    }
}

/// A sum folded into 16 bits with end-around carry: zero stays zero, any other sum lands
/// in `1..=0xFFFF`.
pub open spec fn ones_fold(n: nat) -> u16 {
    if n == 0 {
        0
    } else {
        ((n - 1) % 65535 + 1) as u16
    }
}

/// The ones' complement sum of two folded sums.
pub open spec fn ones_add(a: u16, b: u16) -> u16 {
    ones_fold(a as nat + b as nat)
}

/// The ones' complement of a folded sum.
pub open spec fn ones_neg(a: u16) -> u16 {
    (0xFFFF - a) as u16
}

/// The ones' complement difference of two folded sums.
pub open spec fn ones_sub(a: u16, b: u16) -> u16 {
    ones_add(a, ones_neg(b))
}

/// Folding commutes with adding: folding a partial sum first changes nothing.
pub proof fn lemma_fold_add(x: nat, y: nat)
    ensures
        ones_fold(ones_fold(x) as nat + y) == ones_fold(x + y),
{
    if x > 0 {
        let q = (x - 1) / 65535;
        let r = (x - 1) % 65535;
        lemma_fundamental_div_mod(x - 1, 65535);
        assert(x - 1 == 65535 * q + r);
        assert(ones_fold(x) == r + 1);
        lemma_mod_multiples_vanish(q, r + y, 65535);
        assert(x + y - 1 == 65535 * q + (r + y));
    }
}

/// A running ones' complement sum. The checksum that goes on the wire is its complement.
#[derive(Clone, Copy, Debug, PartialEq, Eq, Structural)]
pub struct Checksum {
    pub inner: u16,
}

impl View for Checksum {
    type V = u16;

    open spec fn view(&self) -> u16 {
        self.inner
    }
}

fn fold_step(acc: u16, word: u16) -> (r: u16)
    ensures
        r == ones_add(acc, word),
{
    let s: u32 = acc as u32 + word as u32;
    if s > 0xFFFF {
        (s - 0xFFFF) as u16
    } else {
        s as u16
    }
}

impl Checksum {
    /// The empty sum.
    pub fn new() -> (r: Checksum)
        ensures
            r@ == 0,
    {
        Checksum { inner: 0 }
    }

    /// The sum whose complement is the wire checksum `field`.
    pub fn from_field(field: u16) -> (r: Checksum)
        ensures
            r@ == ones_neg(field),
    {
        Checksum { inner: 0xFFFF - field }
    }

    /// The sum of the words of `bytes[from..to]`.
    pub fn compute_range(bytes: &[u8], from: usize, to: usize) -> (r: Checksum)
        requires
            from <= to <= bytes.len(),
        ensures
            r@ == ones_fold(word_sum(bytes@.subrange(from as int, to as int))),
    {
        let ghost s = bytes@.subrange(from as int, to as int);
        let mut acc: u16 = 0;
        let mut i: usize = from;
        assert(s.take(0) =~= Seq::<u8>::empty());
        while to - i >= 2
            invariant
                from <= i <= to <= bytes.len(),
                (i - from) % 2 == 0,
                s == bytes@.subrange(from as int, to as int),
                acc == ones_fold(word_sum(s.take(i - from))),
            decreases to - i,
        {
            let w: u16 = (bytes[i] as u16) * 256 + (bytes[i + 1] as u16);
            proof {
                let t = s.take(i - from + 2);
                assert(t.take(t.len() - 2) =~= s.take(i - from));
                assert(t[t.len() - 2] == bytes[i as int]);
                assert(t[t.len() - 1] == bytes[i + 1]);
                lemma_fold_add(word_sum(s.take(i - from)), w as nat);
            }
            acc = fold_step(acc, w);
            i = i + 2;
        }
        if i < to {
            let w: u16 = (bytes[i] as u16) * 256;
            proof {
                let t = s.take(i - from + 1);
                assert(t =~= s);
                assert(t.drop_last() =~= s.take(i - from));
                lemma_fold_add(word_sum(s.take(i - from)), w as nat);
            }
            acc = fold_step(acc, w);
        } else {
            assert(s.take(i - from) =~= s);
        }
        Checksum { inner: acc }
    }

    /// The sum of the words of `bytes`.
    pub fn compute(bytes: &[u8]) -> (r: Checksum)
        ensures
            r@ == ones_fold(word_sum(bytes@)),
    {
        assert(bytes@.subrange(0, bytes@.len() as int) =~= bytes@);
        Checksum::compute_range(bytes, 0, bytes.len())
    }

    /// This sum with `other` added.
    pub fn add(self, other: Checksum) -> (r: Checksum)
        ensures
            r@ == ones_add(self@, other@),
    {
        Checksum { inner: fold_step(self.inner, other.inner) }
    }

    /// This sum with `other` taken out.
    pub fn sub(self, other: Checksum) -> (r: Checksum)
        ensures
            r@ == ones_sub(self@, other@),
    {
        Checksum { inner: fold_step(self.inner, 0xFFFF - other.inner) }
    }

    /// This sum with the 16-bit word `w` added.
    pub fn add_u16(self, w: u16) -> (r: Checksum)
        ensures
            r@ == ones_add(self@, w),
    {
        Checksum { inner: fold_step(self.inner, w) }
    }

    /// This sum with both halves of the 32-bit number `v` added.
    pub fn add_u32(self, v: u32) -> (r: Checksum)
        ensures
            r == self.spec_add_u32(v),
    {
        self.add_u16((v / 65536) as u16).add_u16((v % 65536) as u16)
    }

    /// This sum with the four 16-bit words of `v` added.
    pub fn add_u64(self, v: u64) -> (r: Checksum)
        ensures
            r == self.spec_add_u64(v),
    {
        self.add_u32((v / 4294967296) as u32).add_u32((v % 4294967296) as u32)
    }

    /// This sum with the eight 16-bit words of `v` added.
    pub fn add_u128(self, v: u128) -> (r: Checksum)
        ensures
            r == self.spec_add_u128(v),
    {
        self.add_u64((v / 18446744073709551616) as u64).add_u64((v % 18446744073709551616) as u64)
    }

    /// This sum with the 16-bit word `w` added.
    pub open spec fn spec_add_u16(self, w: u16) -> Checksum {
        Checksum { inner: ones_add(self@, w) }
    }

    /// This sum with both halves of `v` added.
    pub open spec fn spec_add_u32(self, v: u32) -> Checksum {
        self.spec_add_u16((v / 65536) as u16).spec_add_u16((v % 65536) as u16)
    }

    /// This sum with the four 16-bit words of `v` added.
    pub open spec fn spec_add_u64(self, v: u64) -> Checksum {
        self.spec_add_u32((v / 4294967296) as u32).spec_add_u32((v % 4294967296) as u32)
    }

    /// This sum with the eight 16-bit words of `v` added.
    pub open spec fn spec_add_u128(self, v: u128) -> Checksum {
        self.spec_add_u64((v / 18446744073709551616) as u64).spec_add_u64(
            (v % 18446744073709551616) as u64,
        )
    }

    /// This sum with `other` added.
    pub open spec fn spec_add(self, other: Checksum) -> Checksum {
        Checksum { inner: ones_add(self@, other@) }
    }

    /// This sum with `other` taken out.
    pub open spec fn spec_sub(self, other: Checksum) -> Checksum {
        Checksum { inner: ones_sub(self@, other@) }
    }

    /// The sum of the words of `s`.
    pub open spec fn of(s: Seq<u8>) -> Checksum {
        Checksum { inner: ones_fold(word_sum(s)) }
    }

    /// The checksum that goes on the wire: the complement of the sum.
    pub fn finalize(self) -> (r: u16)
        ensures
            r == ones_neg(self@),
    {
        0xFFFF - self.inner
    }
}

} // verus!
