//! The protocol engine as a mathematical state machine: what one received byte
//! does to the engine, what it sends, and what it reports.
use vstd::prelude::*;

use crate::codec::{escape, escape_byte, lemma_escape_concat, lemma_escape_len, unescape_spec, Unescaped};
use crate::crc::{crc_byte, crc_bytes, crc_of};
use crate::telegram::{MasterTelegram, TelegramFlag};
use crate::{ACK_ERR, ACK_OK, ESCAPE_PREFIX, FAIRNESS_MAX, MAX_BUF_U8, SYN};

verus! {

/// The position of the engine in the protocol.
pub enum Phase {
    /// Waiting for the next sync symbol; bytes are ignored.
    Unknown,
    /// A sync symbol was just seen; the next byte is a source address.
    Start,
    /// Our source address was sent as a lock attempt; its echo decides.
    AcquiringLock,
    /// Our telegram is being echoed back; `expect` wire bytes are still due.
    DataLoopback { expect: u8 },
    /// Waiting for the recipient's acknowledgement.
    AwaitingAck,
    /// Waiting for the length of the recipient's reply.
    AwaitingLen,
    /// Receiving `total` reply bytes; `crc` covers the wire bytes from the length on.
    ReceivingReply { data: Seq<u8>, total: u8, crc: u8 },
    /// Waiting for the reply's checksum, which must equal `crc`.
    AwaitingCrc { data: Seq<u8>, crc: u8 },
    /// Listening to another master's telegram: source seen.
    GotSrc { src: u8 },
    /// Source and destination seen.
    GotDst { src: u8, dst: u8 },
    /// Low service byte seen.
    GotSvc1 { src: u8, dst: u8, svc1: u8 },
    /// Service code seen; the length comes next.
    GotSvc2 { src: u8, dst: u8, svc: u16 },
    /// Receiving `len` payload bytes.
    ReceivingTelegram { src: u8, dst: u8, svc: u16, len: u8, data: Seq<u8> },
    /// Waiting for the telegram's checksum, which must equal `crc`.
    ReceivingTelegramCrc { src: u8, dst: u8, svc: u16, data: Seq<u8>, crc: u8 },
    /// A request was handed to the application.
    GotTelegram,
    /// Our reply is being echoed back; `expect` wire bytes are still due.
    ReplyLoopback { expect: u8 },
    /// Our reply went out; the requester's acknowledgement comes next.
    Replied,
}

/// The engine as a value.
pub struct Engine {
    pub poly_telegram: u8,
    pub poly_data: u8,
    /// The last byte was the escape symbol.
    pub escape_pending: bool,
    pub fairness: u8,
    pub phase: Phase,
}

/// What processing one byte reports.
pub enum Outcome {
    NoOp,
    SlaveAckOk,
    SlaveAckErr,
    MasterAckOk,
    MasterAckErr,
    Timeout,
    TelegramCrcError,
    ReplyCrcError,
    Request { src: u8, dest: u8, service: u16, data: Seq<u8> },
    Reply { data: Seq<u8> },
}

/// The effect of one byte: the engine after it, whether the transmitter's pending
/// bytes are to be dropped, whether the arbitration delay is to be waited, the bytes
/// to send, and the outcome.
pub struct Step {
    pub engine: Engine,
    pub clear: bool,
    pub delay: bool,
    pub sent: Seq<u8>,
    pub outcome: Outcome,
}

pub open spec fn has_bus_lock(p: Phase) -> bool {
    ||| p is DataLoopback
    ||| p is AwaitingAck
    ||| p is AwaitingLen
    ||| p is ReceivingReply
    ||| p is AwaitingCrc
}

pub open spec fn master_is_awaiting(p: Phase) -> bool {
    ||| p is AwaitingAck
    ||| p is AwaitingLen
    ||| p is ReceivingReply
    ||| p is AwaitingCrc
}

/// The invariant of the engine: the fairness counter stays within its maximum,
/// counts of bytes still due are positive, and receive buffers stay within capacity.
pub open spec fn engine_wf(e: Engine) -> bool {
    &&& e.fairness <= FAIRNESS_MAX
    &&& (e.phase is AcquiringLock ==> e.fairness == 0)
    &&& match e.phase {
        Phase::DataLoopback { expect } => expect >= 1,
        Phase::ReplyLoopback { expect } => expect >= 1,
        Phase::ReceivingReply { data, total, .. } => data.len() < total <= MAX_BUF_U8,
        Phase::AwaitingCrc { data, .. } => data.len() <= MAX_BUF_U8,
        Phase::ReceivingTelegram { data, len, .. } => data.len() < len <= MAX_BUF_U8,
        Phase::ReceivingTelegramCrc { data, .. } => data.len() <= MAX_BUF_U8,
        _ => true,
    }
}

pub open spec fn service_lo(svc: u16) -> u8 {
    (svc % 256) as u8
}

pub open spec fn service_hi(svc: u16) -> u8 {
    (svc / 256) as u8
}

/// The logical bytes of a master telegram after the source address: destination,
/// service (low byte first), length, the optional data checksum, and the payload.
pub open spec fn master_body(poly_data: u8, m: MasterTelegram) -> Seq<u8> {
    let t = m.telegram;
    let data = t.data@;
    let with_crc = m.flags.spec_has(TelegramFlag::NeedsDataCrc);
    let len: int = if with_crc { data.len() + 1int } else { data.len() as int };
    seq![t.dest, service_lo(t.service), service_hi(t.service), len as u8] + (if with_crc {
        seq![crc_of(poly_data, data)]
    } else {
        Seq::empty()
    }) + data
}

/// The wire bytes that follow a won arbitration: the escaped body, then the escaped
/// frame checksum, which starts from the source address and covers the body's wire bytes.
pub open spec fn master_frame(poly_telegram: u8, poly_data: u8, m: MasterTelegram) -> Seq<u8> {
    let body = escape(master_body(poly_data, m));
    let seed = crc_byte(0, poly_telegram, m.telegram.src);
    body + escape(seq![crc_bytes(seed, poly_telegram, body)])
}

/// The wire bytes of a slave's reply: acknowledgement and length, the escaped payload,
/// and the escaped checksum over the payload's wire bytes.
pub open spec fn reply_frame(poly_telegram: u8, data: Seq<u8>) -> Seq<u8> {
    escape(seq![ACK_OK, data.len() as u8]) + escape(data) + escape(
        seq![crc_of(poly_telegram, escape(data))],
    )
}

/// The checksum a received master telegram must carry: over the wire form of source,
/// destination, service, length and payload.
pub open spec fn telegram_crc(poly: u8, src: u8, dst: u8, svc: u16, data: Seq<u8>) -> u8 {
    crc_of(
        poly,
        escape(seq![src, dst, service_lo(svc), service_hi(svc), data.len() as u8] + data),
    )
}

pub open spec fn with_phase(e: Engine, phase: Phase) -> Engine {
    Engine { phase, ..e }
}

/// The offered telegram as a value.
pub open spec fn offered(next_msg: Option<&MasterTelegram>) -> Option<MasterTelegram> {
    match next_msg {
        Some(m) => Some(*m),
        None => None,
    }
}

/// Back to waiting for a sync symbol, with no escape pending.
pub open spec fn wait_syn(e: Engine) -> Engine {
    Engine { escape_pending: false, phase: Phase::Unknown, ..e }
}

/// The end of an exchange that this engine led or answered: the bus is free again.
pub open spec fn concluded(e: Engine) -> Engine {
    Engine { escape_pending: false, phase: Phase::Unknown, fairness: FAIRNESS_MAX, ..e }
}

pub open spec fn quiet(engine: Engine, outcome: Outcome) -> Step {
    Step { engine, clear: false, delay: false, sent: Seq::empty(), outcome }
}

pub open spec fn sending(engine: Engine, sent: Seq<u8>, outcome: Outcome) -> Step {
    Step { engine, clear: false, delay: false, sent, outcome }
}

/// A sync symbol. While a lock is held or being acquired it is a protocol violation
/// and ends the attempt. Otherwise, at fairness zero and with a telegram to send, the
/// engine waits the arbitration delay and sends its source address; without one, or
/// with the counter above zero, it counts down by one. Either way a new window opens
/// and a master that was awaiting an answer reports a timeout.
pub open spec fn syn_step(e: Engine, msg: Option<MasterTelegram>) -> Step {
    let violation = has_bus_lock(e.phase) || e.phase is AcquiringLock;
    let outcome = if master_is_awaiting(e.phase) {
        Outcome::Timeout
    } else {
        Outcome::NoOp
    };
    if !violation && e.fairness == 0 && msg is Some {
        Step {
            engine: Engine { escape_pending: false, phase: Phase::AcquiringLock, ..e },
            clear: true,
            delay: true,
            sent: escape(seq![msg->0.telegram.src]),
            outcome,
        }
    } else {
        let fairness = if !violation && e.fairness > 0 {
            (e.fairness - 1) as u8
        } else {
            e.fairness
        };
        Step {
            engine: Engine { escape_pending: false, phase: Phase::Start, fairness, ..e },
            clear: true,
            delay: false,
            sent: Seq::empty(),
            outcome,
        }
    }
}

/// One decoded byte, dispatched on the phase.
#[verifier::opaque]
pub open spec fn phase_step(e: Engine, b: u8, msg: Option<MasterTelegram>) -> Step {
    match e.phase {
        Phase::Unknown => quiet(e, Outcome::NoOp),
        Phase::Start => quiet(with_phase(e, Phase::GotSrc { src: b }), Outcome::NoOp),
        Phase::AcquiringLock => match msg {
            None => quiet(wait_syn(e), Outcome::NoOp),
            Some(m) => if b == m.telegram.src {
                let frame = master_frame(e.poly_telegram, e.poly_data, m);
                sending(
                    with_phase(e, Phase::DataLoopback { expect: frame.len() as u8 }),
                    frame,
                    Outcome::NoOp,
                )
            } else if b & 0x0Fu8 == m.telegram.src & 0x0Fu8 {
                quiet(with_phase(e, Phase::Unknown), Outcome::NoOp)
            } else {
                quiet(
                    Engine { fairness: 2, phase: Phase::GotSrc { src: b }, ..e },
                    Outcome::NoOp,
                )
            },
        },
        Phase::AwaitingAck => if b == ACK_OK {
            if msg is Some && msg->0.flags.spec_has(TelegramFlag::ExpectReply) {
                quiet(with_phase(e, Phase::AwaitingLen), Outcome::NoOp)
            } else {
                sending(concluded(e), seq![SYN], Outcome::MasterAckOk)
            }
        } else {
            quiet(wait_syn(e), Outcome::MasterAckErr)
        },
        Phase::AwaitingLen => if b > MAX_BUF_U8 {
            quiet(wait_syn(e), Outcome::NoOp)
        } else if b == 0 {
            quiet(
                with_phase(
                    e,
                    Phase::AwaitingCrc { data: Seq::empty(), crc: crc_byte(0, e.poly_telegram, b) },
                ),
                Outcome::NoOp,
            )
        } else {
            quiet(
                with_phase(
                    e,
                    Phase::ReceivingReply {
                        data: Seq::empty(),
                        total: b,
                        crc: crc_byte(0, e.poly_telegram, b),
                    },
                ),
                Outcome::NoOp,
            )
        },
        Phase::ReceivingReply { data, total, crc } => {
            let data = data.push(b);
            if data.len() >= total {
                quiet(with_phase(e, Phase::AwaitingCrc { data, crc }), Outcome::NoOp)
            } else {
                quiet(with_phase(e, Phase::ReceivingReply { data, total, crc }), Outcome::NoOp)
            }
        },
        Phase::AwaitingCrc { data, crc } => if b == crc {
            sending(concluded(e), seq![ACK_OK, SYN], Outcome::Reply { data })
        } else {
            sending(concluded(e), seq![ACK_ERR, SYN], Outcome::ReplyCrcError)
        },
        Phase::GotSrc { src } => quiet(with_phase(e, Phase::GotDst { src, dst: b }), Outcome::NoOp),
        Phase::GotDst { src, dst } => quiet(
            with_phase(e, Phase::GotSvc1 { src, dst, svc1: b }),
            Outcome::NoOp,
        ),
        Phase::GotSvc1 { src, dst, svc1 } => quiet(
            with_phase(e, Phase::GotSvc2 { src, dst, svc: (svc1 + b * 256) as u16 }),
            Outcome::NoOp,
        ),
        Phase::GotSvc2 { src, dst, svc } => if b > MAX_BUF_U8 {
            quiet(wait_syn(e), Outcome::NoOp)
        } else if b == 0 {
            let data = Seq::<u8>::empty();
            quiet(
                with_phase(
                    e,
                    Phase::ReceivingTelegramCrc {
                        src,
                        dst,
                        svc,
                        data,
                        crc: telegram_crc(e.poly_telegram, src, dst, svc, data),
                    },
                ),
                Outcome::NoOp,
            )
        } else {
            quiet(
                with_phase(
                    e,
                    Phase::ReceivingTelegram { src, dst, svc, len: b, data: Seq::empty() },
                ),
                Outcome::NoOp,
            )
        },
        Phase::ReceivingTelegram { src, dst, svc, len, data } => {
            let data = data.push(b);
            if data.len() >= len {
                quiet(
                    with_phase(
                        e,
                        Phase::ReceivingTelegramCrc {
                            src,
                            dst,
                            svc,
                            data,
                            crc: telegram_crc(e.poly_telegram, src, dst, svc, data),
                        },
                    ),
                    Outcome::NoOp,
                )
            } else {
                quiet(
                    with_phase(e, Phase::ReceivingTelegram { src, dst, svc, len, data }),
                    Outcome::NoOp,
                )
            }
        },
        Phase::ReceivingTelegramCrc { src, dst, svc, data, crc } => if b == crc {
            quiet(
                with_phase(e, Phase::GotTelegram),
                Outcome::Request { src, dest: dst, service: svc, data },
            )
        } else {
            quiet(wait_syn(e), Outcome::TelegramCrcError)
        },
        Phase::GotTelegram => quiet(with_phase(e, Phase::Unknown), Outcome::NoOp),
        Phase::Replied => if b == ACK_OK {
            quiet(wait_syn(e), Outcome::SlaveAckOk)
        } else {
            quiet(wait_syn(e), Outcome::SlaveAckErr)
        },
        // the loopback phases never see a decoded byte
        _ => quiet(e, Outcome::NoOp),
    }
}

/// A byte other than the sync symbol. While our own bytes are echoed back each wire
/// byte counts, escaped or not. Otherwise a reply in progress folds the wire byte into
/// its checksum, and the byte is unescaped: an escape symbol waits for its code, an
/// invalid code drops back to waiting for a sync symbol, and a logical byte goes to
/// the phase.
pub open spec fn byte_step(e: Engine, word: u8, msg: Option<MasterTelegram>) -> Step {
    match e.phase {
        Phase::DataLoopback { expect } => if expect <= 1 {
            quiet(with_phase(e, Phase::AwaitingAck), Outcome::NoOp)
        } else {
            quiet(with_phase(e, Phase::DataLoopback { expect: (expect - 1) as u8 }), Outcome::NoOp)
        },
        Phase::ReplyLoopback { expect } => if expect <= 1 {
            quiet(with_phase(e, Phase::Replied), Outcome::NoOp)
        } else {
            quiet(
                with_phase(e, Phase::ReplyLoopback { expect: (expect - 1) as u8 }),
                Outcome::NoOp,
            )
        },
        _ => {
            let e1 = match e.phase {
                Phase::ReceivingReply { data, total, crc } => with_phase(
                    e,
                    Phase::ReceivingReply { data, total, crc: crc_byte(crc, e.poly_telegram, word) },
                ),
                _ => e,
            };
            match unescape_spec(e1.escape_pending, word) {
                Unescaped::Invalid => quiet(wait_syn(e1), Outcome::NoOp),
                Unescaped::Prefix => quiet(Engine { escape_pending: true, ..e1 }, Outcome::NoOp),
                Unescaped::Byte(b) => phase_step(Engine { escape_pending: false, ..e1 }, b, msg),
            }
        },
    }
}

/// A byte other than the sync symbol never drops the transmitter's pending bytes nor
/// asks for the arbitration delay.
pub proof fn lemma_byte_step_quiet(e: Engine, word: u8, msg: Option<MasterTelegram>)
    ensures
        !byte_step(e, word, msg).clear,
        !byte_step(e, word, msg).delay,
{
    reveal(phase_step);
}

/// What one received byte does.
pub open spec fn step(e: Engine, word: u8, msg: Option<MasterTelegram>) -> Step {
    if word == SYN {
        syn_step(e, msg)
    } else {
        byte_step(e, word, msg)
    }
}

/// The engine after `n` sync symbols in a row, offered the same telegram each time.
pub open spec fn after_syns(e: Engine, msg: Option<MasterTelegram>, n: nat) -> Engine
    decreases n,
{
    if n == 0 {
        e
    } else {
        step(after_syns(e, msg, (n - 1) as nat), SYN, msg).engine
    }
}

/// Neither holding nor acquiring the bus.
pub open spec fn idle(e: Engine) -> bool {
    !has_bus_lock(e.phase) && !(e.phase is AcquiringLock)
}

proof fn lemma_countdown(e: Engine, msg: Option<MasterTelegram>, k: nat)
    requires
        idle(e),
        k <= e.fairness,
    ensures
        idle(after_syns(e, msg, k)),
        after_syns(e, msg, k).fairness == e.fairness - k,
    decreases k,
{
    if k > 0 {
        lemma_countdown(e, msg, (k - 1) as nat);
    }
}

/// Fairness: an idle engine with its counter at the maximum, offered a telegram at
/// every sync symbol, lets exactly `FAIRNESS_MAX` of them pass without contending,
/// and at the next one waits the arbitration delay and sends its source address.
pub proof fn lemma_fairness(e: Engine, m: MasterTelegram)
    requires
        idle(e),
        e.fairness == FAIRNESS_MAX,
    ensures
        forall|k: nat|
            k < FAIRNESS_MAX ==> {
                let s = #[trigger] step(after_syns(e, Some(m), k), SYN, Some(m));
                !s.delay && s.sent.len() == 0 && !(s.engine.phase is AcquiringLock)
            },
        ({
            let s = step(after_syns(e, Some(m), FAIRNESS_MAX as nat), SYN, Some(m));
            &&& s.delay
            &&& s.sent == escape(seq![m.telegram.src])
            &&& s.engine.phase is AcquiringLock
        }),
{
    assert forall|k: nat| k < FAIRNESS_MAX implies {
        let s = #[trigger] step(after_syns(e, Some(m), k), SYN, Some(m));
        !s.delay && s.sent.len() == 0 && !(s.engine.phase is AcquiringLock)
    } by {
        lemma_countdown(e, Some(m), k);
    }
    lemma_countdown(e, Some(m), FAIRNESS_MAX as nat);
}

/// A lost collision: while our lock attempt is open, the address of a contender of
/// another priority class (low four bits) arrives. The counter becomes 2, the engine
/// listens to the winner, the next two sync symbols pass without an attempt, and the
/// third brings one.
pub proof fn lemma_priority_collision(e: Engine, m: MasterTelegram, other: u8)
    requires
        engine_wf(e),
        e.phase is AcquiringLock,
        !e.escape_pending,
        other != SYN,
        other != ESCAPE_PREFIX,
        other & 0x0Fu8 != m.telegram.src & 0x0Fu8,
    ensures
        ({
            let lost = step(e, other, Some(m)).engine;
            let s1 = step(lost, SYN, Some(m));
            let s2 = step(s1.engine, SYN, Some(m));
            let s3 = step(s2.engine, SYN, Some(m));
            &&& lost.fairness == 2
            &&& lost.phase == Phase::GotSrc { src: other }
            &&& !s1.delay && s1.sent.len() == 0
            &&& !s2.delay && s2.sent.len() == 0
            &&& s3.delay && s3.sent == escape(seq![m.telegram.src])
            &&& s3.engine.phase is AcquiringLock
        }),
{
    reveal(phase_step);
    assert(other != m.telegram.src);
}

/// A tie: while our lock attempt is open, the address of a contender of our own
/// priority class arrives. The counter is untouched, and the engine tries again at
/// the very next sync symbol.
pub proof fn lemma_priority_tie(e: Engine, m: MasterTelegram, other: u8)
    requires
        engine_wf(e),
        e.phase is AcquiringLock,
        !e.escape_pending,
        other != SYN,
        other != ESCAPE_PREFIX,
        other != m.telegram.src,
        other & 0x0Fu8 == m.telegram.src & 0x0Fu8,
    ensures
        ({
            let tied = step(e, other, Some(m)).engine;
            let s = step(tied, SYN, Some(m));
            &&& tied.fairness == e.fairness
            &&& s.delay && s.sent == escape(seq![m.telegram.src])
            &&& s.engine.phase is AcquiringLock
        }),
{
    reveal(phase_step);
}

/// Timeout: a sync symbol while our telegram awaits its acknowledgement, reply length,
/// reply bytes or reply checksum abandons the exchange with a timeout, sends nothing,
/// and opens a new listening window.
pub proof fn lemma_timeout(e: Engine, msg: Option<MasterTelegram>)
    requires
        master_is_awaiting(e.phase),
    ensures
        step(e, SYN, msg).outcome is Timeout,
        step(e, SYN, msg).sent.len() == 0,
        step(e, SYN, msg).engine.phase is Start,
        !step(e, SYN, msg).engine.escape_pending,
{
}

/// The wire frames the engine sends fit their loopback counter.
pub proof fn lemma_frame_lengths(poly_telegram: u8, poly_data: u8, m: MasterTelegram)
    ensures
        1 <= master_frame(poly_telegram, poly_data, m).len() <= 2 * (MAX_BUF_U8 + 6),
{
    m.telegram.data.lemma_len();
    let body = master_body(poly_data, m);
    let body_wire = escape(body);
    let seed = crc_byte(0, poly_telegram, m.telegram.src);
    lemma_escape_len(body);
    lemma_escape_len(seq![crc_bytes(seed, poly_telegram, body_wire)]);
}

/// The invariant is kept by every byte: the fairness counter never exceeds its
/// maximum, counts of bytes still due stay positive, and no receive buffer grows
/// beyond its capacity.
pub proof fn lemma_step_wf(e: Engine, word: u8, msg: Option<MasterTelegram>)
    requires
        engine_wf(e),
    ensures
        engine_wf(step(e, word, msg).engine),
{
    reveal(phase_step);
    if let Some(m) = msg {
        lemma_frame_lengths(e.poly_telegram, e.poly_data, m);
    }
}

/// The engine after the bytes of `ws`, first to last, offered the same telegram each time.
pub open spec fn run(e: Engine, ws: Seq<u8>, msg: Option<MasterTelegram>) -> Engine
    decreases ws.len(),
{
    if ws.len() == 0 {
        e
    } else {
        step(run(e, ws.drop_last(), msg), ws.last(), msg).engine
    }
}

/// Running two byte sequences one after the other is running their concatenation.
pub proof fn lemma_run_concat(e: Engine, a: Seq<u8>, b: Seq<u8>, msg: Option<MasterTelegram>)
    ensures
        run(e, a + b, msg) == run(run(e, a, msg), b, msg),
    decreases b.len(),
{
    if b.len() == 0 {
        assert(a + b =~= a);
    } else {
        lemma_run_concat(e, a, b.drop_last(), msg);
        assert((a + b).drop_last() =~= a + b.drop_last());
        assert((a + b).last() == b.last());
    }
}

/// Passively taking in another master's bytes, with no escape pending.
pub open spec fn listening(e: Engine) -> bool {
    &&& !e.escape_pending
    &&& !(e.phase is DataLoopback)
    &&& !(e.phase is ReplyLoopback)
    &&& !(e.phase is ReceivingReply)
}

/// The wire form of one logical byte acts on a listening engine as that byte does.
pub proof fn lemma_feed_byte(e: Engine, b: u8, msg: Option<MasterTelegram>)
    requires
        listening(e),
    ensures
        run(e, escape_byte(b), msg) == phase_step(e, b, msg).engine,
        step(run(e, escape_byte(b).drop_last(), msg), escape_byte(b).last(), msg) == phase_step(
            e,
            b,
            msg,
        ),
{
    let w = escape_byte(b);
    if b == SYN || b == ESCAPE_PREFIX {
        let code: u8 = if b == SYN { 0x01 } else { 0x00 };
        let one = seq![ESCAPE_PREFIX];
        assert(w =~= seq![ESCAPE_PREFIX, code]);
        assert(w.drop_last() =~= one);
        assert(one.drop_last() =~= Seq::<u8>::empty());
        assert(one.last() == ESCAPE_PREFIX);
        let pending = Engine { escape_pending: true, ..e };
        assert(run(e, Seq::<u8>::empty(), msg) == e);
        assert(run(e, one, msg) == pending);
        assert(Engine { escape_pending: false, ..pending } == e);
    } else {
        assert(w =~= seq![b]);
        assert(w.drop_last() =~= Seq::<u8>::empty());
        assert(run(e, Seq::<u8>::empty(), msg) == e);
        assert(Engine { escape_pending: false, ..e } == e);
    }
}

proof fn lemma_escape_push(t: Seq<u8>, b: u8)
    ensures
        escape(t.push(b)) == escape(t) + escape_byte(b),
{
    assert(t.push(b).drop_last() =~= t);
}

/// Payload bytes that do not complete the telegram are gathered in order.
proof fn lemma_feed_payload(
    e: Engine,
    src: u8,
    dst: u8,
    svc: u16,
    len: u8,
    data: Seq<u8>,
    t: Seq<u8>,
    msg: Option<MasterTelegram>,
)
    requires
        listening(e),
        e.phase == (Phase::ReceivingTelegram { src, dst, svc, len, data }),
        data.len() + t.len() < len,
    ensures
        run(e, escape(t), msg) == with_phase(
            e,
            Phase::ReceivingTelegram { src, dst, svc, len, data: data + t },
        ),
    decreases t.len(),
{
    reveal(phase_step);
    if t.len() == 0 {
        assert(data + t =~= data);
        assert(escape(t) =~= Seq::<u8>::empty());
        assert(with_phase(e, Phase::ReceivingTelegram { src, dst, svc, len, data: data + t }) == e);
    } else {
        let t0 = t.drop_last();
        let b = t.last();
        lemma_feed_payload(e, src, dst, svc, len, data, t0, msg);
        assert(t0.push(b) =~= t);
        lemma_escape_push(t0, b);
        lemma_run_concat(e, escape(t0), escape_byte(b), msg);
        let mid = run(e, escape(t0), msg);
        lemma_feed_byte(mid, b, msg);
        assert((data + t0).push(b) =~= data + t);
    }
}

/// The five header bytes of a telegram take a listening engine from a fresh window to
/// gathering the payload.
proof fn lemma_header_phases(
    e: Engine,
    src: u8,
    dst: u8,
    lo: u8,
    hi: u8,
    l: u8,
    msg: Option<MasterTelegram>,
)
    requires
        listening(e),
        e.phase is Start,
        1 <= l <= MAX_BUF_U8,
    ensures
        ({
            let e1 = phase_step(e, src, msg).engine;
            let e2 = phase_step(e1, dst, msg).engine;
            let e3 = phase_step(e2, lo, msg).engine;
            let e4 = phase_step(e3, hi, msg).engine;
            let e5 = phase_step(e4, l, msg).engine;
            &&& listening(e1) && listening(e2) && listening(e3) && listening(e4)
            &&& e5 == with_phase(
                e,
                Phase::ReceivingTelegram {
                    src,
                    dst,
                    svc: (lo + hi * 256) as u16,
                    len: l,
                    data: Seq::empty(),
                },
            )
        }),
{
    reveal(phase_step);
}

/// The payload byte that completes a telegram leaves its checksum to be compared.
proof fn lemma_last_payload_byte(
    e: Engine,
    src: u8,
    dst: u8,
    svc: u16,
    len: u8,
    data: Seq<u8>,
    b: u8,
    msg: Option<MasterTelegram>,
)
    requires
        e.phase == (Phase::ReceivingTelegram { src, dst, svc, len, data }),
        data.len() + 1 == len,
    ensures
        phase_step(e, b, msg).engine == with_phase(
            e,
            Phase::ReceivingTelegramCrc {
                src,
                dst,
                svc,
                data: data.push(b),
                crc: telegram_crc(e.poly_telegram, src, dst, svc, data.push(b)),
            },
        ),
{
    reveal(phase_step);
}

/// A matching checksum delivers the request.
proof fn lemma_checksum_byte(
    e: Engine,
    src: u8,
    dst: u8,
    svc: u16,
    data: Seq<u8>,
    crc: u8,
    msg: Option<MasterTelegram>,
)
    requires
        e.phase == (Phase::ReceivingTelegramCrc { src, dst, svc, data, crc }),
    ensures
        phase_step(e, crc, msg).outcome == (Outcome::Request { src, dest: dst, service: svc, data }),
        phase_step(e, crc, msg).engine.phase is GotTelegram,
{
    reveal(phase_step);
}

/// A telegram of another master, sent in its wire form after a sync symbol, is taken
/// in exactly: whatever reserved values its payload holds, the last byte of its
/// checksum delivers a request with the source, destination, service and payload
/// that were sent, and the engine waits for a reply to be started.
pub proof fn lemma_receive_telegram(
    e: Engine,
    src: u8,
    dst: u8,
    svc: u16,
    s: Seq<u8>,
    msg: Option<MasterTelegram>,
)
    requires
        listening(e),
        e.phase is Start,
        1 <= s.len() <= MAX_BUF_U8,
    ensures
        ({
            let header = seq![src, dst, service_lo(svc), service_hi(svc), s.len() as u8];
            let wire = escape(header + s);
            let all = wire + escape(seq![crc_of(e.poly_telegram, wire)]);
            &&& step(run(e, all.drop_last(), msg), all.last(), msg).outcome == (Outcome::Request {
                src,
                dest: dst,
                service: svc,
                data: s,
            })
            &&& run(e, all, msg).phase is GotTelegram
        }),
{
    let lo = service_lo(svc);
    let hi = service_hi(svc);
    let l = s.len() as u8;
    let header = seq![src, dst, lo, hi, l];
    let wire = escape(header + s);
    let c = crc_of(e.poly_telegram, wire);
    let tail = escape(seq![c]);
    let all = wire + tail;
    assert((lo + hi * 256) as u16 == svc);

    // the header, one logical byte at a time
    let h1 = seq![src];
    let h2 = h1.push(dst);
    let h3 = h2.push(lo);
    let h4 = h3.push(hi);
    assert(h4.push(l) =~= header);
    assert(seq![src] =~= Seq::<u8>::empty().push(src));
    lemma_escape_push(Seq::<u8>::empty(), src);
    assert(escape(Seq::<u8>::empty()) =~= Seq::<u8>::empty());
    assert(escape(h1) =~= escape_byte(src));
    lemma_escape_push(h1, dst);
    lemma_escape_push(h2, lo);
    lemma_escape_push(h3, hi);
    lemma_escape_push(h4, l);

    lemma_header_phases(e, src, dst, lo, hi, l, msg);
    let e1 = phase_step(e, src, msg).engine;
    lemma_feed_byte(e, src, msg);
    let e2 = phase_step(e1, dst, msg).engine;
    lemma_feed_byte(e1, dst, msg);
    lemma_run_concat(e, escape(h1), escape_byte(dst), msg);
    let e3 = phase_step(e2, lo, msg).engine;
    lemma_feed_byte(e2, lo, msg);
    lemma_run_concat(e, escape(h2), escape_byte(lo), msg);
    let e4 = phase_step(e3, hi, msg).engine;
    lemma_feed_byte(e3, hi, msg);
    lemma_run_concat(e, escape(h3), escape_byte(hi), msg);
    let e5 = phase_step(e4, l, msg).engine;
    lemma_feed_byte(e4, l, msg);
    lemma_run_concat(e, escape(h4), escape_byte(l), msg);
    assert(run(e, escape(header), msg) == e5);

    // the payload
    let s0 = s.drop_last();
    let b = s.last();
    assert(s0.push(b) =~= s);
    lemma_escape_concat(header, s);
    lemma_escape_push(s0, b);
    lemma_feed_payload(e5, src, dst, svc, l, Seq::<u8>::empty(), s0, msg);
    assert(Seq::<u8>::empty() + s0 =~= s0);
    lemma_run_concat(e, escape(header), escape(s0), msg);
    let e6 = run(e, escape(header) + escape(s0), msg);
    lemma_feed_byte(e6, b, msg);
    lemma_last_payload_byte(e6, src, dst, svc, l, s0, b, msg);
    assert(escape(header) + escape(s) =~= (escape(header) + escape(s0)) + escape_byte(b));
    lemma_run_concat(e, escape(header) + escape(s0), escape_byte(b), msg);
    let e7 = run(e, wire, msg);
    assert(e7.phase == (Phase::ReceivingTelegramCrc {
        src,
        dst,
        svc,
        data: s,
        crc: telegram_crc(e.poly_telegram, src, dst, svc, s),
    }));
    assert(telegram_crc(e.poly_telegram, src, dst, svc, s) == c);

    // the checksum
    lemma_feed_byte(e7, c, msg);
    lemma_checksum_byte(e7, src, dst, svc, s, c, msg);
    assert(tail =~= escape_byte(c)) by {
        lemma_escape_push(Seq::<u8>::empty(), c);
        assert(seq![c] =~= Seq::<u8>::empty().push(c));
    }
    assert(all.drop_last() =~= wire + tail.drop_last());
    assert(all.last() == tail.last());
    lemma_run_concat(e, wire, tail.drop_last(), msg);
    lemma_run_concat(e, wire, tail, msg);
}

} // verus!
