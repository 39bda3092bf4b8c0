//! Unsigned 256-bit words as they appear on the wire, and the
//! twos-complement correction that recovers the magnitude of a negative
//! pool delta from its raw unsigned encoding.

use vstd::prelude::*;

verus! {

/// 2^64, the weight of the second limb.
pub open spec fn pow_64() -> int {
    0x1_0000_0000_0000_0000int
}

/// 2^128, the weight of the third limb.
pub open spec fn pow_128() -> int {
    0x1_0000_0000_0000_0000_0000_0000_0000_0000int
}

/// 2^192, the weight of the fourth limb.
pub open spec fn pow_192() -> int {
    0x1_0000_0000_0000_0000_0000_0000_0000_0000_0000_0000_0000_0000int
}

/// 2^256, the modulus of the wire encoding.
pub open spec fn pow_256() -> int {
    0x1_0000_0000_0000_0000_0000_0000_0000_0000_0000_0000_0000_0000_0000_0000_0000_0000int
}

/// An unsigned 256-bit word, stored least-significant limb first.
#[derive(Clone, Copy, PartialEq, Eq, Structural, Debug)]
pub struct U256 {
    pub l0: u64,
    pub l1: u64,
    pub l2: u64,
    pub l3: u64,
}

impl U256 {
    /// The mathematical value of the word.
    pub open spec fn as_nat(self) -> int {
        self.l0 + self.l1 * pow_64() + self.l2 * pow_128() + self.l3 * pow_192()
    }

    /// Builds a word from its four limbs, least significant first.
    pub fn new(l0: u64, l1: u64, l2: u64, l3: u64) -> (r: U256)
        ensures
            r == (U256 { l0, l1, l2, l3 }),
    {
        U256 { l0, l1, l2, l3 }
    }

    /// The zero word.
    pub fn zero() -> (r: U256)
        ensures
            r.as_nat() == 0,
    {
        U256 { l0: 0, l1: 0, l2: 0, l3: 0 }
    }

    /// Builds a word from a 128-bit value.
    pub fn from_u128(x: u128) -> (r: U256)
        ensures
            r.as_nat() == x,
    {
        proof {
            assert(x & 0xFFFF_FFFF_FFFF_FFFF <= 0xFFFF_FFFF_FFFF_FFFF) by (bit_vector);
            assert(x >> 64 <= 0xFFFF_FFFF_FFFF_FFFF) by (bit_vector);
            assert((x & 0xFFFF_FFFF_FFFF_FFFF) + (x >> 64) * 0x1_0000_0000_0000_0000 == x)
                by (bit_vector);
        }
        let lo: u64 = (x & 0xFFFF_FFFF_FFFF_FFFF) as u64;
        let hi: u64 = (x >> 64) as u64;
        U256 { l0: lo, l1: hi, l2: 0, l3: 0 }
    }
}

/// An unsigned value of at most 257 bits: a 256-bit word and one carry
/// limb weighted `2^256`. The twos-complement recovery `2^256 - value`
/// needs it: at the zero word the result is `2^256` itself, which no bare
/// 256-bit word can hold.
#[derive(Clone, Copy, PartialEq, Eq, Structural, Debug)]
pub struct U257 {
    pub carry: bool,
    pub word: U256,
}

impl U257 {
    /// The mathematical value: the carry counts `2^256`.
    pub open spec fn as_nat(self) -> int {
        self.word.as_nat() + if self.carry {
            pow_256()
        } else {
            0
        }
    }

    /// Widens a 256-bit word, keeping its value.
    pub fn from_word(word: U256) -> (r: U257)
        ensures
            r.as_nat() == word.as_nat(),
    {
        U257 { carry: false, word }
    }
}

/// Recovers the magnitude of a raw unsigned word that encodes a negative
/// twos-complement quantity: `2^256 - value`, for every word. The zero
/// word recovers to `2^256` itself, carried by the extra limb.
pub fn twos_complement(value: &U256) -> (r: U257)
    ensures
        r.as_nat() == pow_256() - value.as_nat(),
{
    let n0: u64 = !value.l0;
    let n1: u64 = !value.l1;
    let n2: u64 = !value.l2;
    let n3: u64 = !value.l3;
    proof {
        assert(forall|x: u64| !x == u64::MAX - x) by (bit_vector);
    }
    let (r0, c1): (u64, bool) = if n0 == u64::MAX {
        (0, true)
    } else {
        (n0 + 1, false)
    };
    let (r1, c2): (u64, bool) = if c1 && n1 == u64::MAX {
        (0, true)
    } else if c1 {
        (n1 + 1, false)
    } else {
        (n1, false)
    };
    let (r2, c3): (u64, bool) = if c2 && n2 == u64::MAX {
        (0, true)
    } else if c2 {
        (n2 + 1, false)
    } else {
        (n2, false)
    };
    let (r3, c4): (u64, bool) = if c3 && n3 == u64::MAX {
        (0, true)
    } else if c3 {
        (n3 + 1, false)
    } else {
        (n3, false)
    };
    let r = U256 { l0: r0, l1: r1, l2: r2, l3: r3 };
    proof {
        assert(r0 + (if c1 { pow_64() } else { 0 }) == n0 + 1);
        assert(r1 * pow_64() + (if c2 { pow_128() } else { 0 }) == n1 * pow_64() + (if c1 {
            pow_64()
        } else {
            0
        }));
        assert(r2 * pow_128() + (if c3 { pow_192() } else { 0 }) == n2 * pow_128() + (if c2 {
            pow_128()
        } else {
            0
        }));
        assert(r3 * pow_192() + (if c4 { pow_256() } else { 0 }) == n3 * pow_192() + (if c3 {
            pow_192()
        } else {
            0
        }));
        assert(r.as_nat() + (if c4 { pow_256() } else { 0 }) == pow_256() - value.as_nat());
    }
    U257 { carry: c4, word: r }
}

/// Compares two words as unsigned integers.
pub fn u256_gt(a: &U256, b: &U256) -> (r: bool)
    ensures
        r == (a.as_nat() > b.as_nat()),
{
    if a.l3 != b.l3 {
        a.l3 > b.l3
    } else if a.l2 != b.l2 {
        a.l2 > b.l2
    } else if a.l1 != b.l1 {
        a.l1 > b.l1
    } else {
        a.l0 > b.l0
    }
}

} // verus!
