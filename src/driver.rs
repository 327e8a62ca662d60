//! The protocol engine: one received byte at a time.
use vstd::prelude::*;

use core::time::Duration;

use crate::codec::{
    encode, encode_with_crc, escape, lemma_escape_concat, lemma_escape_len, unescape, Unescaped,
};
use crate::crc::{crc_byte, crc_bytes, lemma_crc_bytes_concat, Crc};
use crate::machine::{
    engine_wf, master_body, master_frame, offered, reply_frame, step, telegram_crc, Engine,
    Outcome, Phase,
};
use crate::telegram::{Buffer, MasterTelegram, Telegram, TelegramFlag};
use crate::{ACK_ERR, ACK_OK, FAIRNESS_MAX, MAX_BUF_U8, SYN};

verus! {

/// The byte sink of the bus, implemented by the embedding application.
pub trait Transmit {
    type Error;

    /// Writes all bytes to the wire, or puts them into the transmit buffer.
    fn transmit_raw(&mut self, bytes: &[u8]) -> Result<(), Self::Error>;

    /// Empties the transmit buffer, so that no more bytes get sent.
    fn clear_buffer(&mut self) -> Result<(), Self::Error>;

    /// Writes the sync symbol.
    fn transmit_syn(&mut self) -> Result<(), Self::Error> {
        let syn = [SYN];
        self.transmit_raw(syn.as_slice())
    }
}

/// Bits of per-exchange state.
#[derive(Clone, Copy, Debug)]
pub enum Flag {
    /// The last byte received was the escape symbol.
    WasEscapePrefix,
}

impl Flag {
    pub open spec fn spec_bit(self) -> u8 {
        match self {
            Flag::WasEscapePrefix => 1,
        }
    }

    fn bit(self) -> (r: u8)
        ensures
            r == self.spec_bit(),
    {
        match self {
            Flag::WasEscapePrefix => 1,
        }
    }
}

#[derive(Clone, Copy, Debug)]
pub struct Flags {
    pub flags: u8,
}

impl Flags {
    pub open spec fn spec_has(self, flag: Flag) -> bool {
        self.flags & flag.spec_bit() != 0
    }

    fn empty() -> (r: Self)
        ensures
            !r.spec_has(Flag::WasEscapePrefix),
    {
        assert(0u8 & 1u8 == 0u8) by (bit_vector);
        Flags { flags: 0 }
    }

    pub fn clear(&mut self)
        ensures
            !final(self).spec_has(Flag::WasEscapePrefix),
    {
        assert(0u8 & 1u8 == 0u8) by (bit_vector);
        self.flags = 0;
    }

    pub fn add(&mut self, flag: Flag)
        ensures
            final(self).spec_has(flag),
    {
        let x = self.flags;
        assert((x | 1u8) & 1u8 != 0u8) by (bit_vector);
        self.flags = self.flags | flag.bit();
    }

    pub fn check_remove(&mut self, flag: Flag) -> (r: bool)
        ensures
            r == old(self).spec_has(flag),
            !final(self).spec_has(flag),
    {
        let was_set = self.has(flag);
        self.remove(flag);
        was_set
    }

    pub fn remove(&mut self, flag: Flag)
        ensures
            !final(self).spec_has(flag),
    {
        let x = self.flags;
        assert((x & !1u8) & 1u8 == 0u8) by (bit_vector);
        self.flags = self.flags & !flag.bit();
    }

    pub fn has(&self, flag: Flag) -> (r: bool)
        ensures
            r == self.spec_has(flag),
    {
        (self.flags & flag.bit()) != 0
    }
}

/// The position of the engine in the protocol, with what it has gathered so far.
#[derive(Clone, Copy, Debug)]
#[allow(inconsistent_fields)]
pub enum State {
    Unknown,
    Start,
    AcquiringLock,
    DataLoopback { expect: u8 },
    AwaitingAck,
    AwaitingLen,
    ReceivingReply { buf: Buffer, total: u8, crc: Crc },
    AwaitingCrc { crc: u8, buf: Buffer },
    GotSrc { src: u8 },
    GotDst { src: u8, dst: u8 },
    GotSvc1 { src: u8, dst: u8, svc1: u8 },
    GotSvc2 { src: u8, dst: u8, svc: u16 },
    ReceivingTelegram { src: u8, dst: u8, svc: u16, len: u8, buf: Buffer },
    ReceivingTelegramCrc { src: u8, dst: u8, svc: u16, buf: Buffer, crc: u8 },
    GotTelegram,
    ReplyLoopback { expect: u8 },
    Replied,
}

impl View for State {
    type V = Phase;

    open spec fn view(&self) -> Phase {
        match *self {
            State::Unknown => Phase::Unknown,
            State::Start => Phase::Start,
            State::AcquiringLock => Phase::AcquiringLock,
            State::DataLoopback { expect } => Phase::DataLoopback { expect },
            State::AwaitingAck => Phase::AwaitingAck,
            State::AwaitingLen => Phase::AwaitingLen,
            State::ReceivingReply { buf, total, crc } => Phase::ReceivingReply {
                data: buf@,
                total,
                crc: crc.register(),
            },
            State::AwaitingCrc { crc, buf } => Phase::AwaitingCrc { data: buf@, crc },
            State::GotSrc { src } => Phase::GotSrc { src },
            State::GotDst { src, dst } => Phase::GotDst { src, dst },
            State::GotSvc1 { src, dst, svc1 } => Phase::GotSvc1 { src, dst, svc1 },
            State::GotSvc2 { src, dst, svc } => Phase::GotSvc2 { src, dst, svc },
            State::ReceivingTelegram { src, dst, svc, len, buf } => Phase::ReceivingTelegram {
                src,
                dst,
                svc,
                len,
                data: buf@,
            },
            State::ReceivingTelegramCrc { src, dst, svc, buf, crc } => Phase::ReceivingTelegramCrc {
                src,
                dst,
                svc,
                data: buf@,
                crc,
            },
            State::GotTelegram => Phase::GotTelegram,
            State::ReplyLoopback { expect } => Phase::ReplyLoopback { expect },
            State::Replied => Phase::Replied,
        }
    }
}

impl State {
    /// Whether our own exchange holds the bus.
    pub fn has_bus_lock(&self) -> (r: bool)
        ensures
            r == crate::machine::has_bus_lock(self@),
    {
        match self {
            State::DataLoopback { .. } | State::AwaitingAck | State::AwaitingLen
            | State::ReceivingReply { .. } | State::AwaitingCrc { .. } => true,
            _ => false,
        }
    }

    pub fn is_acquiring(&self) -> (r: bool)
        ensures
            r == (self@ is AcquiringLock),
    {
        match self {
            State::AcquiringLock => true,
            _ => false,
        }
    }

    /// Whether our telegram awaits an answer from its recipient.
    pub fn master_is_awaiting(&self) -> (r: bool)
        ensures
            r == crate::machine::master_is_awaiting(self@),
    {
        match self {
            State::AwaitingAck | State::AwaitingCrc { .. } | State::AwaitingLen
            | State::ReceivingReply { .. } => true,
            _ => false,
        }
    }

    pub fn reset_unknown(&mut self)
        ensures
            final(self)@ == Phase::Unknown,
    {
        *self = State::Unknown;
    }

    pub fn reset_syn(&mut self)
        ensures
            final(self)@ == Phase::Start,
    {
        *self = State::Start;
    }
}

/// Proof that a request was just delivered; replying consumes it.
///
/// It binds no particular message: it keeps a reply tied to a delivered request in
/// the type system, and is no security boundary.
#[derive(Debug)]
pub struct RequestToken {
    _priv: (),
}

/// What processing one byte reports.
#[derive(Debug)]
pub enum ProcessResult {
    /// Nothing to report.
    NoOp,
    /// We replied as slave, and the master acknowledged.
    SlaveAckOk,
    /// We replied as slave, and the master did not acknowledge.
    SlaveAckErr,
    /// We sent a telegram, and the recipient acknowledged.
    MasterAckOk,
    /// We sent a telegram, and the recipient did not acknowledge.
    MasterAckErr,
    /// The recipient was due to answer, but a sync symbol came first.
    Timeout,
    /// The checksum of another master's telegram did not match.
    TelegramCrcError,
    /// The checksum of the reply to our telegram did not match.
    ReplyCrcError,
    /// A telegram of another master; reply to it with the token.
    Request { telegram: Telegram, token: RequestToken },
    /// The reply to our telegram.
    Reply { data: Buffer },
}

impl View for ProcessResult {
    type V = Outcome;

    open spec fn view(&self) -> Outcome {
        match *self {
            ProcessResult::NoOp => Outcome::NoOp,
            ProcessResult::SlaveAckOk => Outcome::SlaveAckOk,
            ProcessResult::SlaveAckErr => Outcome::SlaveAckErr,
            ProcessResult::MasterAckOk => Outcome::MasterAckOk,
            ProcessResult::MasterAckErr => Outcome::MasterAckErr,
            ProcessResult::Timeout => Outcome::Timeout,
            ProcessResult::TelegramCrcError => Outcome::TelegramCrcError,
            ProcessResult::ReplyCrcError => Outcome::ReplyCrcError,
            ProcessResult::Request { telegram, .. } => Outcome::Request {
                src: telegram.src,
                dest: telegram.dest,
                service: telegram.service,
                data: telegram.data@,
            },
            ProcessResult::Reply { data } => Outcome::Reply { data: data@ },
        }
    }
}

impl ProcessResult {
    /// Whether there is nothing to report.
    pub fn is_none(&self) -> (r: bool)
        ensures
            r == (self@ is NoOp),
    {
        match self {
            ProcessResult::NoOp => true,
            _ => false,
        }
    }

    /// The telegram of a request.
    pub fn as_request(&self) -> (r: Option<&Telegram>)
        ensures
            match *self {
                ProcessResult::Request { telegram, .. } => r == Some(&telegram),
                _ => r is None,
            },
    {
        match self {
            ProcessResult::Request { telegram, .. } => Some(telegram),
            _ => None,
        }
    }

    /// The payload of a reply.
    pub fn as_reply(&self) -> (r: Option<&[u8]>)
        ensures
            match self@ {
                Outcome::Reply { data } => r is Some && r->0@ == data,
                _ => r is None,
            },
    {
        match self {
            ProcessResult::Reply { data } => Some(data.as_bytes()),
            _ => None,
        }
    }
}

/// What `EbusDriver::react` asks of the caller for one received byte.
#[derive(Debug)]
pub struct Reaction {
    /// Drop whatever the transmitter still holds.
    pub clear_buffer: bool,
    /// Wait the engine's arbitration delay (`EbusDriver::arbitration_delay`) before
    /// sending.
    pub arbitration_delay: bool,
    /// Bytes to put on the wire, as they stand.
    pub transmit: Vec<u8>,
    /// What the byte meant.
    pub result: ProcessResult,
}

/// The protocol engine of one device.
///
/// It moves as `machine::step` says, which settles the points the protocol leaves open:
/// - every checksum covers wire bytes, escape sequences included: the frame checksum
///   of a sent telegram, the checksum of a received reply, and that of a received
///   telegram;
/// - a received length beyond `MAX_BUF` abandons the frame, and the engine waits for
///   the next sync symbol;
/// - a sync symbol always opens a new window, in which the engine listens unless it
///   contends for the bus;
/// - loopback counts wire bytes, so escaped bytes are echoed in full;
/// - should no telegram be offered when the echo of a lock attempt arrives, the attempt
///   is dropped; should none be offered at the acknowledgement, no reply is awaited.
pub struct EbusDriver {
    crc_poly_telegram: u8,
    crc_poly_data: u8,
    arbitration_delay: Duration,
    flags: Flags,
    /// Allows bus access at zero; set to `FAIRNESS_MAX` after a completed exchange.
    fairness_counter: u8,
    state: State,
}

impl View for EbusDriver {
    type V = Engine;

    closed spec fn view(&self) -> Engine {
        Engine {
            poly_telegram: self.crc_poly_telegram,
            poly_data: self.crc_poly_data,
            escape_pending: self.flags.spec_has(Flag::WasEscapePrefix),
            fairness: self.fairness_counter,
            phase: self.state@,
        }
    }
}

impl EbusDriver {
    /// The wait between a sync symbol and our lock attempt, as given to `new`.
    pub closed spec fn arbitration_delay(&self) -> Duration {
        self.arbitration_delay
    }

    /// The engine's invariant.
    pub closed spec fn wf(&self) -> bool {
        &&& engine_wf(self@)
        &&& (self.state matches State::ReceivingReply { crc, .. } ==> crc.poly()
            == self.crc_poly_telegram)
    }

    /// A new engine: fairness counter at its maximum, listening, no escape pending.
    pub fn new(arbitration_delay: Duration, crc_poly_telegram: u8, crc_poly_data: u8) -> (r: Self)
        ensures
            r.wf(),
            engine_wf(r@),
            r.arbitration_delay() == arbitration_delay,
            r@ == (Engine {
                poly_telegram: crc_poly_telegram,
                poly_data: crc_poly_data,
                escape_pending: false,
                fairness: FAIRNESS_MAX,
                phase: Phase::Start,
            }),
    {
        EbusDriver {
            flags: Flags::empty(),
            fairness_counter: FAIRNESS_MAX,
            state: State::Start,
            crc_poly_telegram,
            crc_poly_data,
            arbitration_delay,
        }
    }

    /// Whether the next byte is due soon and should be handled with low latency:
    /// true where a sync symbol is likely to arrive next.
    pub fn is_time_critical(&self) -> (r: bool)
        ensures
            r == (self@.phase is Unknown || self@.phase is Replied),
    {
        match self.state {
            State::Unknown | State::Replied => true,
            _ => false,
        }
    }

    fn is_allowed_to_lock(&self) -> (r: bool)
        ensures
            r == (self@.fairness == 0),
    {
        self.fairness_counter == 0
    }

    /// Drops back to waiting for the next sync symbol.
    pub fn reset_wait_syn(&mut self)
        requires
            old(self).wf(),
        ensures
            final(self).wf(),
            final(self).arbitration_delay() == old(self).arbitration_delay(),
            final(self)@ == crate::machine::wait_syn(old(self)@),
    {
        self.flags.clear();
        self.state.reset_unknown();
    }

    /// Starts listening afresh, as after a sync symbol.
    pub fn reset_syn(&mut self)
        requires
            old(self).wf(),
        ensures
            final(self).wf(),
            final(self).arbitration_delay() == old(self).arbitration_delay(),
            final(self)@ == (Engine { escape_pending: false, phase: Phase::Start, ..old(self)@ }),
    {
        self.flags.clear();
        self.state.reset_syn();
    }

    /// Concludes an exchange: sends the sync symbol, clears per-exchange state, and
    /// restores the fairness counter.
    fn success(&mut self, tx: &mut Vec<u8>)
        requires
            old(self).wf(),
        ensures
            final(self).wf(),
            final(self).arbitration_delay() == old(self).arbitration_delay(),
            final(self)@ == crate::machine::concluded(old(self)@),
            final(tx)@ == old(tx)@.push(SYN),
    {
        tx.push(SYN);
        self.flags.clear();
        self.state.reset_unknown();
        self.fairness_counter = FAIRNESS_MAX;
    }

    /// Decides on a sync symbol whether we may try to lock the bus; a lock held or
    /// being acquired ends here, and otherwise a nonzero counter counts down.
    fn process_syn(&mut self) -> (allowed: bool)
        requires
            old(self).wf(),
        ensures
            final(self).wf(),
            final(self).arbitration_delay() == old(self).arbitration_delay(),
            ({
                let e = old(self)@;
                let violation = crate::machine::has_bus_lock(e.phase) || e.phase is AcquiringLock;
                &&& allowed == (!violation && e.fairness == 0)
                &&& violation ==> final(self)@ == (Engine {
                    escape_pending: false,
                    phase: Phase::Start,
                    ..e
                })
                &&& !violation && e.fairness == 0 ==> final(self)@ == e
                &&& !violation && e.fairness > 0 ==> final(self)@ == (Engine {
                    fairness: (e.fairness - 1) as u8,
                    ..e
                })
            }),
    {
        if self.state.has_bus_lock() {
            self.reset_syn();
        } else if self.state.is_acquiring() {
            self.reset_syn();
        } else if self.is_allowed_to_lock() {
            return true;
        } else {
            self.fairness_counter = self.fairness_counter - 1;
        }
        false
    }

    /// Appends the frame that follows a won arbitration and returns its length.
    fn send_data(&self, tx: &mut Vec<u8>, msg: &MasterTelegram) -> (expect: u8)
        ensures
            final(tx)@ == old(tx)@ + master_frame(self.crc_poly_telegram, self.crc_poly_data, *msg),
            expect as int == master_frame(self.crc_poly_telegram, self.crc_poly_data, *msg).len(),
            expect >= 1,
    {
        let t = msg.telegram;
        let data = t.data.as_bytes();
        let len = t.data.len();
        let with_crc = msg.flags.has(TelegramFlag::NeedsDataCrc);
        let len_field: u8 = if with_crc {
            len + 1
        } else {
            len
        };
        let header = [t.dest, (t.service % 256) as u8, (t.service / 256) as u8, len_field];
        let ghost pt = self.crc_poly_telegram;
        let ghost seed = crc_byte(0, pt, t.src);
        let mut tele_crc = Crc::new(self.crc_poly_telegram);
        tele_crc.add(t.src);
        let start = tx.len();
        encode_with_crc(tx, header.as_slice(), &mut tele_crc);
        let ghost after_header = tele_crc.register();
        let ghost opt: Seq<u8> = Seq::empty();
        if with_crc {
            let mut data_crc = Crc::new(self.crc_poly_data);
            data_crc.add_multiple(data);
            let c = [data_crc.calc_crc()];
            encode_with_crc(tx, c.as_slice(), &mut tele_crc);
            proof {
                opt = c@;
            }
        } else {
            proof {
                assert(escape(opt) =~= Seq::<u8>::empty());
                assert(crc_bytes(after_header, pt, escape(opt)) == after_header);
            }
        }
        let ghost after_opt = tele_crc.register();
        encode_with_crc(tx, data, &mut tele_crc);
        let fin = [tele_crc.calc_crc()];
        encode(tx, fin.as_slice());
        proof {
            let hs = header@;
            let body = master_body(self.crc_poly_data, *msg);
            assert(hs =~= seq![t.dest, (t.service % 256) as u8, (t.service / 256) as u8, len_field]);
            if with_crc {
                assert(opt =~= seq![crate::crc::crc_of(self.crc_poly_data, data@)]);
            }
            assert(body =~= hs + opt + data@);
            lemma_escape_concat(hs, opt);
            lemma_escape_concat(hs + opt, data@);
            lemma_crc_bytes_concat(seed, pt, escape(hs), escape(opt));
            lemma_crc_bytes_concat(seed, pt, escape(hs) + escape(opt), escape(data@));
            assert(escape(body) == escape(hs) + escape(opt) + escape(data@));
            assert(tele_crc.register() == crc_bytes(seed, pt, escape(body)));
            assert(fin@ =~= seq![crc_bytes(seed, pt, escape(body))]);
            assert(tx@ =~= old(tx)@ + master_frame(pt, self.crc_poly_data, *msg));
            lemma_escape_len(body);
            lemma_escape_len(fin@);
            assert(body.len() <= 37);
        }
        (tx.len() - start) as u8
    }

    /// Handles one logical byte in the current phase.
    fn process_byte(&mut self, b: u8, tx: &mut Vec<u8>, msg: Option<&MasterTelegram>) -> (r:
        ProcessResult)
        requires
            old(self).wf(),
            !old(self)@.escape_pending,
        ensures
            final(self).wf(),
            final(self).arbitration_delay() == old(self).arbitration_delay(),
            ({
                let s = crate::machine::phase_step(old(self)@, b, offered(msg));
                &&& final(self)@ == s.engine
                &&& final(tx)@ == old(tx)@ + s.sent
                &&& r@ == s.outcome
            }),
    {
        reveal(crate::machine::phase_step);
        match self.state {
            State::Unknown => {},
            State::Start => {
                self.state = State::GotSrc { src: b };
            },
            State::AcquiringLock => match msg {
                None => {
                    self.reset_wait_syn();
                },
                Some(m) => {
                    if b == m.telegram.src {
                        let expect = self.send_data(tx, m);
                        self.state = State::DataLoopback { expect };
                    } else if b & 0x0F == m.telegram.src & 0x0F {
                        // a tie: both try again at the next sync symbol
                        self.state = State::Unknown;
                    } else {
                        self.fairness_counter = 2;
                        self.state = State::GotSrc { src: b };
                    }
                },
            },
            State::AwaitingAck => {
                if b == ACK_OK {
                    let expect_reply = match msg {
                        Some(m) => m.flags.has(TelegramFlag::ExpectReply),
                        None => false,
                    };
                    if expect_reply {
                        self.state = State::AwaitingLen;
                    } else {
                        self.success(tx);
                        return ProcessResult::MasterAckOk;
                    }
                } else {
                    self.reset_wait_syn();
                    return ProcessResult::MasterAckErr;
                }
            },
            State::AwaitingLen => {
                if b > MAX_BUF_U8 {
                    self.reset_wait_syn();
                } else {
                    let mut crc = Crc::new(self.crc_poly_telegram);
                    crc.add(b);
                    if b == 0 {
                        self.state = State::AwaitingCrc { crc: crc.calc_crc(), buf: Buffer::empty() };
                    } else {
                        self.state = State::ReceivingReply { buf: Buffer::empty(), total: b, crc };
                    }
                }
            },
            State::ReceivingReply { buf, total, crc } => {
                let mut buf = buf;
                buf.push(b);
                if buf.len() >= total {
                    self.state = State::AwaitingCrc { crc: crc.calc_crc(), buf };
                } else {
                    self.state = State::ReceivingReply { buf, total, crc };
                }
            },
            State::AwaitingCrc { crc, buf } => {
                if b == crc {
                    tx.push(ACK_OK);
                    self.success(tx);
                    return ProcessResult::Reply { data: buf };
                } else {
                    tx.push(ACK_ERR);
                    self.success(tx);
                    return ProcessResult::ReplyCrcError;
                }
            },
            State::GotSrc { src } => {
                self.state = State::GotDst { src, dst: b };
            },
            State::GotDst { src, dst } => {
                self.state = State::GotSvc1 { src, dst, svc1: b };
            },
            State::GotSvc1 { src, dst, svc1 } => {
                let svc: u16 = svc1 as u16 + (b as u16) * 256;
                self.state = State::GotSvc2 { src, dst, svc };
            },
            State::GotSvc2 { src, dst, svc } => {
                if b > MAX_BUF_U8 {
                    self.reset_wait_syn();
                } else if b == 0 {
                    let buf = Buffer::empty();
                    let crc = self.telegram_checksum(src, dst, svc, &buf);
                    self.state = State::ReceivingTelegramCrc { src, dst, svc, buf, crc };
                } else {
                    self.state = State::ReceivingTelegram { src, dst, svc, len: b, buf: Buffer::empty() };
                }
            },
            State::ReceivingTelegram { src, dst, svc, len, buf } => {
                let mut buf = buf;
                buf.push(b);
                if buf.len() >= len {
                    let crc = self.telegram_checksum(src, dst, svc, &buf);
                    self.state = State::ReceivingTelegramCrc { src, dst, svc, buf, crc };
                } else {
                    self.state = State::ReceivingTelegram { src, dst, svc, len, buf };
                }
            },
            State::ReceivingTelegramCrc { src, dst, svc, buf, crc } => {
                if b == crc {
                    self.state = State::GotTelegram;
                    return ProcessResult::Request {
                        telegram: Telegram { src, dest: dst, service: svc, data: buf },
                        token: RequestToken { _priv: () },
                    };
                } else {
                    self.reset_wait_syn();
                    return ProcessResult::TelegramCrcError;
                }
            },
            State::GotTelegram => {
                // no reply was started for the request: the exchange is someone else's
                self.state = State::Unknown;
            },
            State::Replied => {
                self.reset_wait_syn();
                if b == ACK_OK {
                    return ProcessResult::SlaveAckOk;
                } else {
                    return ProcessResult::SlaveAckErr;
                }
            },
            State::DataLoopback { .. } | State::ReplyLoopback { .. } => {},
        }
        proof {
            assert(tx@ =~= old(tx)@ + crate::machine::phase_step(old(self)@, b, offered(msg)).sent);
        }
        ProcessResult::NoOp
    }

    /// Handles a byte other than the sync symbol.
    fn process_slow(&mut self, word: u8, tx: &mut Vec<u8>, msg: Option<&MasterTelegram>) -> (r:
        ProcessResult)
        requires
            old(self).wf(),
        ensures
            final(self).wf(),
            final(self).arbitration_delay() == old(self).arbitration_delay(),
            ({
                let s = crate::machine::byte_step(old(self)@, word, offered(msg));
                &&& final(self)@ == s.engine
                &&& final(tx)@ == old(tx)@ + s.sent
                &&& r@ == s.outcome
            }),
    {
        // our own bytes coming back: every wire byte counts, escaped or not
        match self.state {
            State::DataLoopback { expect } => {
                if expect <= 1 {
                    self.state = State::AwaitingAck;
                } else {
                    self.state = State::DataLoopback { expect: expect - 1 };
                }
                assert(tx@ =~= old(tx)@ + Seq::<u8>::empty());
                return ProcessResult::NoOp;
            },
            State::ReplyLoopback { expect } => {
                if expect <= 1 {
                    self.state = State::Replied;
                } else {
                    self.state = State::ReplyLoopback { expect: expect - 1 };
                }
                assert(tx@ =~= old(tx)@ + Seq::<u8>::empty());
                return ProcessResult::NoOp;
            },
            // the reply's checksum covers the wire bytes, before unescaping
            State::ReceivingReply { buf, total, crc } => {
                let mut crc = crc;
                crc.add(word);
                self.state = State::ReceivingReply { buf, total, crc };
            },
            _ => {},
        }
        let pending = self.flags.check_remove(Flag::WasEscapePrefix);
        match unescape(pending, word) {
            Unescaped::Invalid => {
                self.reset_wait_syn();
                assert(tx@ =~= old(tx)@ + Seq::<u8>::empty());
                ProcessResult::NoOp
            },
            Unescaped::Prefix => {
                self.flags.add(Flag::WasEscapePrefix);
                assert(tx@ =~= old(tx)@ + Seq::<u8>::empty());
                ProcessResult::NoOp
            },
            Unescaped::Byte(b) => self.process_byte(b, tx, msg),
        }
    }

    /// Processes one received byte and says what the caller is to do: drop the
    /// transmitter's pending bytes, wait `self.arbitration_delay()` where
    /// `arbitration_delay` is set, send bytes; and what the byte meant. The engine
    /// moves as `step` says.
    pub fn react(&mut self, word: u8, next_msg: Option<&MasterTelegram>) -> (r: Reaction)
        requires
            old(self).wf(),
        ensures
            final(self).wf(),
            final(self).arbitration_delay() == old(self).arbitration_delay(),
            engine_wf(final(self)@),
            ({
                let s = step(old(self)@, word, offered(next_msg));
                &&& final(self)@ == s.engine
                &&& r.clear_buffer == s.clear
                &&& r.arbitration_delay == s.delay
                &&& r.transmit@ == s.sent
                &&& r.result@ == s.outcome
            }),
    {
        let mut tx: Vec<u8> = Vec::new();
        if word == SYN {
            let was_timeout = self.state.master_is_awaiting();
            let allowed = self.process_syn();
            let mut delay = false;
            match next_msg {
                Some(m) if allowed => {
                    let src = [m.telegram.src];
                    encode(&mut tx, src.as_slice());
                    delay = true;
                    self.state = State::AcquiringLock;
                    proof {
                        assert(src@ =~= seq![m.telegram.src]);
                    }
                },
                _ => {
                    self.state = State::Start;
                },
            }
            self.flags.clear();
            let result = if was_timeout {
                ProcessResult::Timeout
            } else {
                ProcessResult::NoOp
            };
            assert(tx@ =~= step(old(self)@, word, offered(next_msg)).sent);
            Reaction { clear_buffer: true, arbitration_delay: delay, transmit: tx, result }
        } else {
            let result = self.process_slow(word, &mut tx, next_msg);
            proof {
                crate::machine::lemma_byte_step_quiet(old(self)@, word, offered(next_msg));
            }
            assert(tx@ =~= step(old(self)@, word, offered(next_msg)).sent);
            Reaction { clear_buffer: false, arbitration_delay: false, transmit: tx, result }
        }
    }

    /// Processes one received byte, offering the telegram to send next, if any; the
    /// caller keeps offering the same telegram until its exchange ends. Does what
    /// `react` says, through `transmit` and `sleep`, and returns the result; a failure
    /// of the transmitter is handed back as it came. `sleep` is only ever called with
    /// `self.arbitration_delay()`.
    pub fn process<T: Transmit>(
        &mut self,
        word: u8,
        transmit: &mut T,
        sleep: impl Fn(Duration),
        next_msg: Option<&MasterTelegram>,
    ) -> (r: Result<ProcessResult, T::Error>)
        requires
            old(self).wf(),
            sleep.requires((old(self).arbitration_delay(),)),
        ensures
            final(self).wf(),
            final(self).arbitration_delay() == old(self).arbitration_delay(),
            engine_wf(final(self)@),
            final(self)@ == step(old(self)@, word, offered(next_msg)).engine,
            r matches Ok(res) ==> res@ == step(old(self)@, word, offered(next_msg)).outcome,
            word != SYN && step(old(self)@, word, offered(next_msg)).sent.len() == 0 ==> r is Ok,
    {
        proof {
            crate::machine::lemma_byte_step_quiet(old(self)@, word, offered(next_msg));
        }
        let Reaction { clear_buffer, arbitration_delay, transmit: bytes, result } = self.react(
            word,
            next_msg,
        );
        if clear_buffer {
            transmit.clear_buffer()?;
        }
        if arbitration_delay {
            sleep(self.arbitration_delay);
        }
        if bytes.len() > 0 {
            transmit.transmit_raw(bytes.as_slice())?;
        }
        Ok(result)
    }

    /// Starts the reply to a delivered request: returns the reply frame to send and
    /// waits for its echo. The payload fits the buffer capacity.
    pub fn begin_reply(&mut self, data: &[u8], token: RequestToken) -> (frame: Vec<u8>)
        requires
            old(self).wf(),
            data@.len() <= MAX_BUF_U8,
        ensures
            final(self).wf(),
            final(self).arbitration_delay() == old(self).arbitration_delay(),
            frame@ == reply_frame(old(self)@.poly_telegram, data@),
            final(self)@ == crate::machine::with_phase(
                old(self)@,
                Phase::ReplyLoopback { expect: frame@.len() as u8 },
            ),
    {
        let mut frame: Vec<u8> = Vec::new();
        let head = [ACK_OK, data.len() as u8];
        encode(&mut frame, head.as_slice());
        let mut crc = Crc::new(self.crc_poly_telegram);
        encode_with_crc(&mut frame, data, &mut crc);
        let fin = [crc.calc_crc()];
        encode(&mut frame, fin.as_slice());
        proof {
            assert(head@ =~= seq![ACK_OK, data@.len() as u8]);
            assert(fin@ =~= seq![crate::crc::crc_of(self.crc_poly_telegram, escape(data@))]);
            assert(frame@ =~= reply_frame(self.crc_poly_telegram, data@));
            lemma_escape_len(head@);
            lemma_escape_len(data@);
            lemma_escape_len(fin@);
        }
        self.state = State::ReplyLoopback { expect: frame.len() as u8 };
        frame
    }

    /// Replies to a received request with `data`, consuming its token: sends
    /// acknowledgement, length, payload and checksum, escaped, and then expects their
    /// echo and the requester's acknowledgement. The payload fits the buffer capacity.
    pub fn reply_as_slave<T: Transmit>(&mut self, data: &[u8], transmit: &mut T, token: RequestToken)
        -> (r: Result<(), T::Error>)
        requires
            old(self).wf(),
            data@.len() <= MAX_BUF_U8,
        ensures
            final(self).wf(),
            final(self).arbitration_delay() == old(self).arbitration_delay(),
            final(self)@ == crate::machine::with_phase(
                old(self)@,
                Phase::ReplyLoopback {
                    expect: reply_frame(old(self)@.poly_telegram, data@).len() as u8,
                },
            ),
    {
        let frame = self.begin_reply(data, token);
        transmit.transmit_raw(frame.as_slice())
    }

    /// The checksum that a received telegram must carry.
    fn telegram_checksum(&self, src: u8, dst: u8, svc: u16, buf: &Buffer) -> (r: u8)
        ensures
            r == telegram_crc(self.crc_poly_telegram, src, dst, svc, buf@),
    {
        let data = buf.as_bytes();
        let header = [src, dst, (svc % 256) as u8, (svc / 256) as u8, buf.len()];
        let mut crc = Crc::new(self.crc_poly_telegram);
        crc.add_encoded(header.as_slice());
        crc.add_encoded(data);
        proof {
            assert(header@ =~= seq![src, dst, (svc % 256) as u8, (svc / 256) as u8, buf@.len() as u8]);
            lemma_escape_concat(header@, data@);
            lemma_crc_bytes_concat(0, self.crc_poly_telegram, escape(header@), escape(data@));
        }
        crc.calc_crc()
    }
}

} // verus!
