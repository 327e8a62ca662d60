//! Bit-serial CRC-8 with a caller-chosen generator polynomial.
use vstd::prelude::*;

verus! {

/// One bit round: remember the top bit of the register, shift the register left,
/// feed the top bit of the input into its bottom bit, and xor in the polynomial
/// when the remembered bit was set.
pub open spec fn crc_round(reg: u8, poly: u8, byte: u8) -> u8 {
    let sel: u8 = if reg & 0x80u8 != 0 { poly } else { 0u8 };
    let shifted: u8 = (reg & 0x7Fu8) << 1u8;
    let fed: u8 = if byte & 0x80u8 != 0 { shifted | 1u8 } else { shifted };
    fed ^ sel
}

/// `n` bit rounds, most significant input bit first.
pub open spec fn crc_rounds(reg: u8, poly: u8, byte: u8, n: nat) -> u8
    decreases n,
{
    if n == 0 {
        reg
    } else {
        crc_rounds(crc_round(reg, poly, byte), poly, byte << 1u8, (n - 1) as nat)
    }
}

/// The register after folding one byte into `reg`.
pub open spec fn crc_byte(reg: u8, poly: u8, byte: u8) -> u8 {
    crc_rounds(reg, poly, byte, 8)
}

/// The register after folding the bytes of `s` into `reg`, first to last.
pub open spec fn crc_bytes(reg: u8, poly: u8, s: Seq<u8>) -> u8
    decreases s.len(),
{
    if s.len() == 0 {
        reg
    } else {
        crc_byte(crc_bytes(reg, poly, s.drop_last()), poly, s.last())
    }
}

/// The checksum of `s` from a fresh register.
pub open spec fn crc_of(poly: u8, s: Seq<u8>) -> u8 {
    crc_bytes(0, poly, s)
}

/// Folding two sequences one after the other is folding their concatenation.
pub proof fn lemma_crc_bytes_concat(reg: u8, poly: u8, a: Seq<u8>, b: Seq<u8>)
    ensures
        crc_bytes(crc_bytes(reg, poly, a), poly, b) == crc_bytes(reg, poly, a + b),
    decreases b.len(),
{
    if b.len() == 0 {
        assert(a + b =~= a);
    } else {
        lemma_crc_bytes_concat(reg, poly, a, b.drop_last());
        assert((a + b).drop_last() =~= a + b.drop_last());
    }
}

/// A CRC-8 accumulator: an 8-bit register and its generator polynomial.
#[derive(Clone, Copy, Debug)]
pub struct Crc {
    crc: u8,
    polynom: u8,
}

impl Crc {
    /// The current register.
    pub closed spec fn register(&self) -> u8 {
        self.crc
    }

    /// The generator polynomial.
    pub closed spec fn poly(&self) -> u8 {
        self.polynom
    }

    /// A fresh accumulator with the register at zero.
    pub fn new(polynom: u8) -> (r: Self)
        ensures
            r.register() == 0,
            r.poly() == polynom,
    {
        Crc { crc: 0, polynom }
    }

    /// Folds one byte into the register.
    pub fn add(&mut self, byte: u8) -> (r: &mut Self)
        ensures
            r.register() == crc_byte(old(self).register(), old(self).poly(), byte),
            r.poly() == old(self).poly(),
            *final(self) == *final(r),
    {
        let mut input = byte;
        let mut i: u8 = 0;
        while i < 8
            invariant
                i <= 8,
                self.polynom == old(self).polynom,
                crc_rounds(self.crc, self.polynom, input, (8 - i) as nat) == crc_byte(
                    old(self).crc,
                    old(self).polynom,
                    byte,
                ),
            decreases 8 - i,
        {
            let polynom: u8 = if self.crc & 0x80 != 0 {
                self.polynom
            } else {
                0
            };
            self.crc = (self.crc & 0x7F) << 1;
            if input & 0x80 != 0 {
                self.crc = self.crc | 1;
            }
            self.crc = self.crc ^ polynom;
            input = input << 1;
            i = i + 1;
        }
        self
    }

    /// Folds the bytes of a slice into the register, first to last.
    pub fn add_multiple(&mut self, bytes: &[u8]) -> (r: &mut Self)
        ensures
            r.register() == crc_bytes(old(self).register(), old(self).poly(), bytes@),
            r.poly() == old(self).poly(),
            *final(self) == *final(r),
    {
        let mut i: usize = 0;
        while i < bytes.len()
            invariant
                i <= bytes.len(),
                self.poly() == old(self).poly(),
                self.register() == crc_bytes(
                    old(self).register(),
                    old(self).poly(),
                    bytes@.subrange(0, i as int),
                ),
            decreases bytes.len() - i,
        {
            self.add(bytes[i]);
            assert(bytes@.subrange(0, i + 1).drop_last() =~= bytes@.subrange(0, i as int));
            i = i + 1;
        }
        assert(bytes@.subrange(0, bytes.len() as int) =~= bytes@);
        self
    }

    /// The accumulated checksum.
    pub fn calc_crc(&self) -> (r: u8)
        ensures
            r == self.register(),
    {
        self.crc
    }
}

} // verus!
