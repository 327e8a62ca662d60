//! Byte stuffing: the sync and escape symbols never travel as payload bytes.
use vstd::prelude::*;

use crate::crc::{crc_byte, crc_bytes, lemma_crc_bytes_concat, Crc};
use crate::{ESCAPE_PREFIX, SYN};

verus! {

/// The wire form of one logical byte.
pub open spec fn escape_byte(b: u8) -> Seq<u8> {
    if b == SYN {
        seq![ESCAPE_PREFIX, 0x01u8]
    } else if b == ESCAPE_PREFIX {
        seq![ESCAPE_PREFIX, 0x00u8]
    } else {
        seq![b]
    }
}

/// The wire form of a logical byte sequence.
pub open spec fn escape(s: Seq<u8>) -> Seq<u8>
    decreases s.len(),
{
    if s.len() == 0 {
        Seq::empty()
    } else {
        escape(s.drop_last()) + escape_byte(s.last())
    }
}

/// What one received byte means, given whether the byte before it was the escape symbol.
#[derive(Clone, Copy, Debug, PartialEq, Eq, Structural)]
pub enum Unescaped {
    /// A logical byte.
    Byte(u8),
    /// The escape symbol: the next byte says which reserved value is meant.
    Prefix,
    /// An escape symbol followed by a code that stands for nothing.
    Invalid,
}

pub open spec fn unescape_spec(pending: bool, word: u8) -> Unescaped {
    if pending {
        if word == 0x00 {
            Unescaped::Byte(ESCAPE_PREFIX)
        } else if word == 0x01 {
            Unescaped::Byte(SYN)
        } else {
            Unescaped::Invalid
        }
    } else if word == ESCAPE_PREFIX {
        Unescaped::Prefix
    } else {
        Unescaped::Byte(word)
    }
}

/// Decodes a received byte sequence from a state with no escape pending: the logical
/// bytes and whether an escape is left pending at the end, or `None` on an invalid
/// escape code.
pub open spec fn unescape_all(s: Seq<u8>) -> Option<(Seq<u8>, bool)>
    decreases s.len(),
{
    if s.len() == 0 {
        Some((Seq::empty(), false))
    } else {
        match unescape_all(s.drop_last()) {
            None => None,
            Some((out, pending)) => match unescape_spec(pending, s.last()) {
                Unescaped::Byte(b) => Some((out.push(b), false)),
                Unescaped::Prefix => Some((out, true)),
                Unescaped::Invalid => None,
            },
        }
    }
}

/// Interprets one received byte.
pub fn unescape(pending: bool, word: u8) -> (r: Unescaped)
    ensures
        r == unescape_spec(pending, word),
{
    if pending {
        if word == 0x00 {
            Unescaped::Byte(ESCAPE_PREFIX)
        } else if word == 0x01 {
            Unescaped::Byte(SYN)
        } else {
            Unescaped::Invalid
        }
    } else if word == ESCAPE_PREFIX {
        Unescaped::Prefix
    } else {
        Unescaped::Byte(word)
    }
}

pub proof fn lemma_escape_concat(a: Seq<u8>, b: Seq<u8>)
    ensures
        escape(a + b) == escape(a) + escape(b),
    decreases b.len(),
{
    if b.len() == 0 {
        assert(a + b =~= a);
        assert(escape(a) + escape(b) =~= escape(a));
    } else {
        lemma_escape_concat(a, b.drop_last());
        assert((a + b).drop_last() =~= a + b.drop_last());
        assert(escape(a + b) =~= escape(a) + escape(b));
    }
}

/// Each logical byte takes one or two wire bytes.
pub proof fn lemma_escape_len(s: Seq<u8>)
    ensures
        s.len() <= escape(s).len() <= 2 * s.len(),
    decreases s.len(),
{
    if s.len() > 0 {
        lemma_escape_len(s.drop_last());
    }
}

pub proof fn lemma_escape_single(b: u8)
    ensures
        escape(seq![b]) == escape_byte(b),
{
    assert(seq![b].drop_last() =~= Seq::<u8>::empty());
    assert(seq![b].last() == b);
    assert(escape(Seq::<u8>::empty()) =~= Seq::<u8>::empty());
    assert(Seq::<u8>::empty() + escape_byte(b) =~= escape_byte(b));
}

/// Decoding the wire form of any byte sequence gives the sequence back, with no
/// escape left pending; the sync symbol travels as the escape symbol and `0x01`,
/// the escape symbol as the escape symbol and `0x00`.
pub proof fn lemma_escape_round_trip(s: Seq<u8>)
    ensures
        unescape_all(escape(s)) == Some((s, false)),
        escape(seq![SYN]) == seq![ESCAPE_PREFIX, 0x01u8],
        escape(seq![ESCAPE_PREFIX]) == seq![ESCAPE_PREFIX, 0x00u8],
    decreases s.len(),
{
    lemma_escape_single(SYN);
    lemma_escape_single(ESCAPE_PREFIX);
    if s.len() > 0 {
        let init = s.drop_last();
        let b = s.last();
        lemma_escape_round_trip(init);
        let e = escape(init);
        assert(escape(s) == e + escape_byte(b));
        assert(init.push(b) =~= s);
        if b == SYN || b == ESCAPE_PREFIX {
            let code: u8 = if b == SYN { 0x01 } else { 0x00 };
            let half = e + seq![ESCAPE_PREFIX];
            let whole = e + seq![ESCAPE_PREFIX, code];
            assert(escape(s) =~= whole);
            assert(whole.drop_last() =~= half);
            assert(whole.last() == code);
            assert(half.drop_last() =~= e);
            assert(half.last() == ESCAPE_PREFIX);
            assert(unescape_all(half) == Some((init, true)));
        } else {
            let whole = e + seq![b];
            assert(escape(s) =~= whole);
            assert(whole.drop_last() =~= e);
            assert(whole.last() == b);
        }
    }
}

/// Appends the wire form of `bytes` to `out`.
pub fn encode(out: &mut Vec<u8>, bytes: &[u8])
    ensures
        final(out)@ == old(out)@ + escape(bytes@),
{
    let mut i: usize = 0;
    while i < bytes.len()
        invariant
            i <= bytes.len(),
            out@ == old(out)@ + escape(bytes@.subrange(0, i as int)),
        decreases bytes.len() - i,
    {
        let b = bytes[i];
        proof {
            let head = bytes@.subrange(0, i as int);
            assert(bytes@.subrange(0, i + 1).drop_last() =~= head);
            lemma_escape_concat(head, seq![b]);
            lemma_escape_single(b);
        }
        if b == SYN {
            out.push(ESCAPE_PREFIX);
            out.push(0x01);
        } else if b == ESCAPE_PREFIX {
            out.push(ESCAPE_PREFIX);
            out.push(0x00);
        } else {
            out.push(b);
        }
        assert(out@ =~= old(out)@ + escape(bytes@.subrange(0, i + 1)));
        i = i + 1;
    }
    assert(bytes@.subrange(0, bytes.len() as int) =~= bytes@);
}

/// Folding a two-byte sequence is folding its bytes in turn.
proof fn lemma_crc_bytes_pair(reg: u8, poly: u8, a: u8, b: u8)
    ensures
        crc_bytes(reg, poly, seq![a, b]) == crc_byte(crc_byte(reg, poly, a), poly, b),
{
    let one = seq![a];
    let two = seq![a, b];
    assert(one.drop_last() =~= Seq::<u8>::empty());
    assert(crc_bytes(reg, poly, Seq::<u8>::empty()) == reg);
    assert(one.last() == a);
    assert(crc_bytes(reg, poly, one) == crc_byte(reg, poly, a));
    assert(two.drop_last() =~= one);
    assert(two.last() == b);
}

impl Crc {
    /// Folds the wire form of `bytes` into the register, escape sequences included.
    pub fn add_encoded(&mut self, bytes: &[u8])
        ensures
            final(self).poly() == old(self).poly(),
            final(self).register() == crc_bytes(
                old(self).register(),
                old(self).poly(),
                escape(bytes@),
            ),
    {
        let mut i: usize = 0;
        while i < bytes.len()
            invariant
                i <= bytes.len(),
                self.poly() == old(self).poly(),
                self.register() == crc_bytes(
                    old(self).register(),
                    old(self).poly(),
                    escape(bytes@.subrange(0, i as int)),
                ),
            decreases bytes.len() - i,
        {
            let b = bytes[i];
            let ghost reg = self.register();
            let ghost head = bytes@.subrange(0, i as int);
            proof {
                assert(bytes@.subrange(0, i + 1).drop_last() =~= head);
                lemma_escape_concat(head, seq![b]);
                lemma_escape_single(b);
                assert(bytes@.subrange(0, i + 1) =~= head + seq![b]);
                lemma_crc_bytes_concat(old(self).register(), old(self).poly(), escape(head), escape_byte(b));
            }
            if b == SYN {
                self.add(ESCAPE_PREFIX);
                self.add(0x01);
                proof {
                    lemma_crc_bytes_pair(reg, self.poly(), ESCAPE_PREFIX, 0x01u8);
                }
            } else if b == ESCAPE_PREFIX {
                self.add(ESCAPE_PREFIX);
                self.add(0x00);
                proof {
                    lemma_crc_bytes_pair(reg, self.poly(), ESCAPE_PREFIX, 0x00u8);
                }
            } else {
                self.add(b);
                proof {
                    assert(self.register() == crc_byte(reg, self.poly(), b));
                    assert(seq![b].last() == b);
                    assert(crc_bytes(reg, self.poly(), Seq::<u8>::empty()) == reg);
                    assert(seq![b].drop_last() =~= Seq::<u8>::empty());
                    assert(crc_bytes(reg, self.poly(), seq![b]) == self.register());
                }
            }
            i = i + 1;
        }
        assert(bytes@.subrange(0, bytes.len() as int) =~= bytes@);
    }
}

/// Appends the wire form of `bytes` to `out` and folds those wire bytes,
/// escape sequences included, into `crc`.
pub fn encode_with_crc(out: &mut Vec<u8>, bytes: &[u8], crc: &mut Crc)
    ensures
        final(out)@ == old(out)@ + escape(bytes@),
        final(crc).poly() == old(crc).poly(),
        final(crc).register() == crc_bytes(old(crc).register(), old(crc).poly(), escape(bytes@)),
{
    encode(out, bytes);
    crc.add_encoded(bytes);
}

} // verus!
