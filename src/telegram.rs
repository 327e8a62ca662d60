//! Telegrams, their fixed-capacity payload buffer and their send options.
use vstd::prelude::*;

use crate::MAX_BUF;

verus! {

/// Payload storage of fixed capacity: an inline array and the length in use.
#[derive(Clone, Copy, Debug)]
pub struct Buffer {
    data: [u8; 32],
    len: u8,
}

impl View for Buffer {
    type V = Seq<u8>;

    closed spec fn view(&self) -> Seq<u8> {
        self.data@.subrange(0, self.used() as int)
    }
}

impl Buffer {
    /// The length in use, never beyond the capacity.
    closed spec fn used(self) -> u8 {
        if self.len <= 32 {
            self.len
        } else {
            32
        }
    }

    /// The bytes in use never exceed the capacity.
    pub proof fn lemma_len(&self)
        ensures
            self@.len() <= MAX_BUF,
    {
    }

    fn used_len(&self) -> (r: u8)
        ensures
            r == self.used(),
    {
        if self.len <= 32 {
            self.len
        } else {
            32
        }
    }

    /// A buffer holding a copy of `bytes`.
    pub fn from_slice(bytes: &[u8]) -> (r: Self)
        requires
            bytes@.len() <= MAX_BUF,
        ensures
            r@ == bytes@,
    {
        let mut data = [0u8; 32];
        let mut i: usize = 0;
        while i < bytes.len()
            invariant
                i <= bytes@.len() <= 32,
                forall|k: int| 0 <= k < i ==> data@[k] == bytes@[k],
            decreases bytes.len() - i,
        {
            data[i] = bytes[i];
            i = i + 1;
        }
        let r = Buffer { data, len: bytes.len() as u8 };
        assert(r@ =~= bytes@);
        r
    }

    /// A buffer whose first `len` bytes of `data` are in use.
    pub fn from_parts(data: [u8; 32], len: u8) -> (r: Self)
        requires
            len <= MAX_BUF,
        ensures
            r@ == data@.subrange(0, len as int),
    {
        Buffer { data, len }
    }

    /// The empty buffer.
    pub fn empty() -> (r: Self)
        ensures
            r@ == Seq::<u8>::empty(),
    {
        let r = Buffer { data: [0u8; 32], len: 0 };
        assert(r@ =~= Seq::<u8>::empty());
        r
    }

    /// The number of bytes in use.
    pub fn len(&self) -> (r: u8)
        ensures
            r as int == self@.len(),
            r <= MAX_BUF,
    {
        self.used_len()
    }

    /// Appends one byte.
    pub fn push(&mut self, b: u8)
        requires
            old(self)@.len() < MAX_BUF,
        ensures
            final(self)@ == old(self)@.push(b),
    {
        let len = self.used_len();
        let mut data = self.data;
        data[len as usize] = b;
        let r = Buffer { data, len: len + 1 };
        assert(r@ =~= old(self)@.push(b));
        *self = r;
    }

    /// The bytes in use.
    pub fn as_bytes(&self) -> (r: &[u8])
        ensures
            r@ == self@,
    {
        let all: &[u8] = self.data.as_slice();
        let (head, _) = all.split_at(self.used_len() as usize);
        head
    }
}

impl PartialEq for Buffer {
    /// Two buffers are equal when the bytes in use are.
    fn eq(&self, other: &Buffer) -> (r: bool) {
        let a = self.as_bytes();
        let b = other.as_bytes();
        if a.len() != b.len() {
            return false;
        }
        let mut i: usize = 0;
        while i < a.len()
            invariant
                a@ == self@,
                b@ == other@,
                a@.len() == b@.len(),
                i <= a@.len(),
                a@.subrange(0, i as int) == b@.subrange(0, i as int),
            decreases a.len() - i,
        {
            if a[i] != b[i] {
                assert(a@[i as int] != b@[i as int]);
                return false;
            }
            assert(a@.subrange(0, i + 1) =~= a@.subrange(0, i as int).push(a@[i as int]));
            assert(b@.subrange(0, i + 1) =~= b@.subrange(0, i as int).push(b@[i as int]));
            i = i + 1;
        }
        assert(a@ =~= a@.subrange(0, a@.len() as int));
        assert(b@ =~= b@.subrange(0, b@.len() as int));
        true
    }
}

impl vstd::std_specs::cmp::PartialEqSpecImpl for Buffer {
    open spec fn obeys_eq_spec() -> bool {
        true
    }

    open spec fn eq_spec(&self, other: &Buffer) -> bool {
        self@ == other@
    }
}

/// The first `len` bytes of an array, for writing in place.
fn prefix_mut(data: &mut [u8; 32], len: usize) -> (r: &mut [u8])
    requires
        len <= 32,
    ensures
        r@ == old(data)@.subrange(0, len as int),
        final(data)@.len() == 32,
        final(r)@.len() == len,
        final(data)@ == final(r)@ + old(data)@.subrange(len as int, 32),
{
    let all: &mut [u8] = data;
    let (head, tail) = all.split_at_mut(len);
    proof {
        assert(has_resolved(tail));
        assert(final(tail)@ == tail@);
    }
    head
}

impl Buffer {
    /// The bytes in use, for writing in place.
    pub fn as_bytes_mut(&mut self) -> (r: &mut [u8])
        ensures
            r@ == old(self)@,
            final(self)@ == final(r)@,
    {
        let len = self.used_len() as usize;
        prefix_mut(&mut self.data, len)
    }
}

/// One logical message.
#[derive(Clone, Copy, Debug, PartialEq)]
pub struct Telegram {
    /// Source address.
    pub src: u8,
    /// Destination address.
    pub dest: u8,
    /// Service code; its low byte travels first.
    pub service: u16,
    /// Up to `MAX_BUF` payload bytes.
    pub data: Buffer,
}

/// A telegram to be sent, with its options.
#[derive(Clone, Copy, Debug)]
pub struct MasterTelegram {
    /// The telegram itself.
    pub telegram: Telegram,
    /// How it is to be handled.
    pub flags: TelegramFlags,
}

/// One send option.
#[derive(Clone, Copy, Debug, Eq, PartialEq, Structural)]
pub enum TelegramFlag {
    /// A checksum over the payload, with the data polynomial, goes before the payload.
    NeedsDataCrc,
    /// The recipient answers with a reply.
    ExpectReply,
}

impl TelegramFlag {
    pub open spec fn spec_bit(self) -> u8 {
        match self {
            TelegramFlag::NeedsDataCrc => 1,
            TelegramFlag::ExpectReply => 2,
        }
    }

    /// The bit that stands for this option in a flag set.
    pub fn bit(self) -> (r: u8)
        ensures
            r == self.spec_bit(),
    {
        match self {
            TelegramFlag::NeedsDataCrc => 1,
            TelegramFlag::ExpectReply => 2,
        }
    }
}

/// A set of send options, one bit each.
#[derive(Clone, Copy, Debug, Eq, PartialEq, Structural)]
pub struct TelegramFlags(pub u8);

impl TelegramFlags {
    pub open spec fn spec_has(self, flag: TelegramFlag) -> bool {
        self.0 & flag.spec_bit() != 0
    }

    /// The empty set.
    pub fn none() -> (r: Self)
        ensures
            r.0 == 0,
    {
        TelegramFlags(0)
    }

    /// Whether `flag` is in the set.
    pub fn has(self, flag: TelegramFlag) -> (r: bool)
        ensures
            r == self.spec_has(flag),
    {
        self.0 & flag.bit() != 0
    }
}

impl core::ops::BitOr for TelegramFlag {
    type Output = TelegramFlags;

    fn bitor(self, rhs: Self) -> (r: TelegramFlags) {
        TelegramFlags(self.bit() | rhs.bit())
    }
}

impl vstd::std_specs::ops::BitOrSpecImpl for TelegramFlag {
    open spec fn obeys_bitor_spec() -> bool {
        true
    }

    open spec fn bitor_req(self, rhs: TelegramFlag) -> bool {
        true
    }

    open spec fn bitor_spec(self, rhs: TelegramFlag) -> TelegramFlags {
        TelegramFlags(self.spec_bit() | rhs.spec_bit())
    }
}

impl core::ops::BitOr<TelegramFlags> for TelegramFlag {
    type Output = TelegramFlags;

    fn bitor(self, rhs: TelegramFlags) -> (r: TelegramFlags) {
        TelegramFlags(self.bit() | rhs.0)
    }
}

impl vstd::std_specs::ops::BitOrSpecImpl<TelegramFlags> for TelegramFlag {
    open spec fn obeys_bitor_spec() -> bool {
        true
    }

    open spec fn bitor_req(self, rhs: TelegramFlags) -> bool {
        true
    }

    open spec fn bitor_spec(self, rhs: TelegramFlags) -> TelegramFlags {
        TelegramFlags(self.spec_bit() | rhs.0)
    }
}

impl core::ops::BitOr<TelegramFlag> for TelegramFlags {
    type Output = TelegramFlags;

    fn bitor(self, rhs: TelegramFlag) -> (r: TelegramFlags) {
        TelegramFlags(self.0 | rhs.bit())
    }
}

impl vstd::std_specs::ops::BitOrSpecImpl<TelegramFlag> for TelegramFlags {
    open spec fn obeys_bitor_spec() -> bool {
        true
    }

    open spec fn bitor_req(self, rhs: TelegramFlag) -> bool {
        true
    }

    open spec fn bitor_spec(self, rhs: TelegramFlag) -> TelegramFlags {
        TelegramFlags(self.0 | rhs.spec_bit())
    }
}

impl core::ops::BitAnd<TelegramFlag> for TelegramFlags {
    type Output = bool;

    fn bitand(self, rhs: TelegramFlag) -> (r: bool) {
        self.has(rhs)
    }
}

impl vstd::std_specs::ops::BitAndSpecImpl<TelegramFlag> for TelegramFlags {
    open spec fn obeys_bitand_spec() -> bool {
        true
    }

    open spec fn bitand_req(self, rhs: TelegramFlag) -> bool {
        true
    }

    open spec fn bitand_spec(self, rhs: TelegramFlag) -> bool {
        self.spec_has(rhs)
    }
}

} // verus!
