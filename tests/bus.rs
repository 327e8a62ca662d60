use std::time::Duration;

use ebus::{
    Buffer, Crc, EbusDriver, MasterTelegram, ProcessResult, RequestToken, Telegram, TelegramFlag,
    TelegramFlags, Transmit,
};

/// Everything sent goes on the wire and comes back as loopback.
#[derive(Default)]
struct LoopbackTransmitter {
    sent: Vec<u8>,
    loopback: Vec<u8>,
}

impl Transmit for LoopbackTransmitter {
    type Error = ();

    fn clear_buffer(&mut self) -> Result<(), Self::Error> {
        Ok(())
    }

    fn transmit_raw(&mut self, bytes: &[u8]) -> Result<(), Self::Error> {
        self.sent.extend_from_slice(bytes);
        self.loopback.extend_from_slice(bytes);

        Ok(())
    }
}

struct AutoLoopback {
    driver: EbusDriver,
    transmit: LoopbackTransmitter,
}

fn sleep(_: Duration) {}

impl AutoLoopback {
    fn new() -> Self {
        let mut this = AutoLoopback {
            driver: EbusDriver::new(Duration::from_micros(123), 0x9B, 0x5C),
            transmit: Default::default(),
        };

        for _ in 0..50 {
            this.process(0xAA, None);
        }

        this
    }

    fn process(&mut self, byte: u8, msg: Option<&MasterTelegram>) -> Vec<ProcessResult> {
        let mut results = vec![self
            .driver
            .process(byte, &mut self.transmit, sleep, msg)
            .unwrap()];

        results.extend(self.process_bus(msg));
        results
    }

    fn process_bus(&mut self, msg: Option<&MasterTelegram>) -> Vec<ProcessResult> {
        let mut results = vec![];

        for _ in 0..500 {
            if self.transmit.loopback.is_empty() {
                return results;
            }

            let bytes = self.transmit.loopback.drain(..).collect::<Vec<_>>();
            for byte in bytes {
                results.push(
                    self.driver
                        .process(byte, &mut self.transmit, sleep, msg)
                        .unwrap(),
                );
            }
        }

        panic!("infinite loop detected");
    }

    fn last_sent(&self) -> Option<u8> {
        self.transmit.sent.last().cloned()
    }

    fn process_multiple(
        &mut self,
        bytes: &[u8],
        msg: Option<&MasterTelegram>,
    ) -> Vec<Vec<ProcessResult>> {
        bytes
            .iter()
            .cloned()
            .map(|byte| self.process(byte, msg))
            .collect()
    }

    fn send_external_bytes(&mut self, bytes: &[u8]) {
        self.transmit.loopback.extend_from_slice(bytes);
    }

    /// Puts a telegram of another master on the bus, as it travels on the wire.
    fn send_external_msg(&mut self, tele: &MasterTelegram) {
        self.send_external_bytes(&[0xAA]);
        let v = wire_telegram(tele);
        self.send_external_bytes(&v);
    }

    fn reply_as_slave(&mut self, data: &[u8], token: RequestToken) {
        self.driver
            .reply_as_slave(data, &mut self.transmit, token)
            .unwrap();
    }
}

fn escape(byte: u8) -> Vec<u8> {
    match byte {
        0xA9 => vec![0xA9, 0x0],
        0xAA => vec![0xA9, 0x1],
        byte => vec![byte],
    }
}

/// A master telegram's wire bytes after the sync symbol, checksum included.
fn wire_telegram(tele: &MasterTelegram) -> Vec<u8> {
    let msg = &tele.telegram;
    let needs_data_crc = tele.flags & TelegramFlag::NeedsDataCrc;
    let mut logical = vec![
        msg.src,
        msg.dest,
        (msg.service & 0xFF) as u8,
        (msg.service >> 8) as u8,
        msg.data.as_bytes().len() as u8 + needs_data_crc as u8,
    ];
    if needs_data_crc {
        let mut crc = Crc::new(0x5C);
        crc.add_multiple(msg.data.as_bytes());
        logical.push(crc.calc_crc());
    }
    logical.extend_from_slice(msg.data.as_bytes());
    let mut v: Vec<u8> = logical.into_iter().flat_map(escape).collect();

    let mut crc = Crc::new(0x9B);
    crc.add_multiple(&v);
    let crc = crc.calc_crc();
    v.extend(escape(crc));
    v
}

fn example1() -> MasterTelegram {
    MasterTelegram {
        telegram: Telegram {
            src: 0xFF,
            dest: 0x51,
            service: 0x5022,
            data: Buffer::from_slice(&[15, 0]),
        },
        flags: TelegramFlag::NeedsDataCrc | TelegramFlag::ExpectReply,
    }
}

#[test]
fn test_example1_auto_lb() {
    let mut d = AutoLoopback::new();
    let msg = example1();
    let res = d.process(0xAA, Some(&msg));
    assert_eq!(res.len(), 10);
    let res = d.process_multiple(&[0x00, 0x02, 0xA9, 0x00, 0xDA, 0x82], Some(&msg));
    assert!(
        matches!(&res[5][..], [.., ProcessResult::Reply { data }, ProcessResult::NoOp, ProcessResult::NoOp] if data.as_bytes() == &[0xA9, 0xDA])
    );
}

#[test]
fn example1_ok() {
    let mut d = AutoLoopback::new();
    let msg = example1();

    d.send_external_msg(&msg);
    let mut results = d.process_bus(None);

    match results.drain(..).last().unwrap() {
        ProcessResult::Request { telegram, token } => {
            assert_eq!(telegram.src, 0xFF);
            d.reply_as_slave(&[0xDE, 0xAD, 0xBE, 0xEF], token)
        }
        other => panic!("{:?}", other),
    }

    let crc = d.last_sent().unwrap();

    d.process_bus(None);

    assert_eq!(d.last_sent(), Some(crc));

    // ACK
    let res = d.process(0x00, None);
    assert!(matches!(&res[..], [ProcessResult::SlaveAckOk]));
}

#[test]
fn slave_reply_not_acknowledged() {
    let mut d = AutoLoopback::new();
    let msg = example1();

    d.send_external_msg(&msg);
    let mut results = d.process_bus(None);
    match results.drain(..).last().unwrap() {
        ProcessResult::Request { telegram, token } => {
            assert_eq!(telegram.dest, 0x51);
            assert_eq!(telegram.service, 0x5022);
            assert_eq!(telegram.data.as_bytes(), &[0x90, 0x0F, 0x00]);
            d.reply_as_slave(&[0xDE, 0xAD, 0xBE, 0xEF], token)
        }
        other => panic!("{:?}", other),
    }
    d.process_bus(None);

    let res = d.process(0xFF, None);
    assert!(matches!(&res[..], [ProcessResult::SlaveAckErr]));
}

#[test]
fn slave_reply_frame_on_the_wire() {
    let mut d = AutoLoopback::new();
    d.send_external_msg(&example1());
    let mut results = d.process_bus(None);
    let token = match results.drain(..).last().unwrap() {
        ProcessResult::Request { token, .. } => token,
        other => panic!("{:?}", other),
    };
    let before = d.transmit.sent.len();
    d.reply_as_slave(&[0xDE, 0xAD, 0xBE, 0xEF], token);
    assert_eq!(
        &d.transmit.sent[before..],
        &[0x00, 0x04, 0xDE, 0xAD, 0xBE, 0xEF, 0x0C]
    );
}

#[test]
fn telegram_checksum_mismatch() {
    let mut d = AutoLoopback::new();
    let mut wire = wire_telegram(&example1());
    let last = wire.len() - 1;
    wire[last] ^= 0x01;
    d.send_external_bytes(&[0xAA]);
    d.send_external_bytes(&wire);
    let results = d.process_bus(None);
    assert!(matches!(results.last(), Some(ProcessResult::TelegramCrcError)));
    assert!(!results.iter().any(|r| r.as_request().is_some()));
}

#[test]
fn telegram_without_payload() {
    let mut d = AutoLoopback::new();
    let msg = MasterTelegram {
        telegram: Telegram {
            src: 0x10,
            dest: 0x08,
            service: 0x0700,
            data: Buffer::empty(),
        },
        flags: TelegramFlags::none(),
    };
    d.send_external_msg(&msg);
    let results = d.process_bus(None);
    let telegram = results.last().unwrap().as_request().unwrap();
    assert_eq!(telegram.src, 0x10);
    assert_eq!(telegram.dest, 0x08);
    assert_eq!(telegram.service, 0x0700);
    assert_eq!(telegram.data.as_bytes(), &[] as &[u8]);
}

#[test]
fn telegram_with_escaped_payload() {
    let mut d = AutoLoopback::new();
    let msg = MasterTelegram {
        telegram: Telegram {
            src: 0x10,
            dest: 0x08,
            service: 0xAAA9,
            data: Buffer::from_slice(&[0xAA, 0xA9, 0x01]),
        },
        flags: TelegramFlags::none(),
    };
    d.send_external_msg(&msg);
    let results = d.process_bus(None);
    let telegram = results.last().unwrap().as_request().unwrap();
    assert_eq!(telegram.service, 0xAAA9);
    assert_eq!(telegram.data.as_bytes(), &[0xAA, 0xA9, 0x01]);
}

#[test]
fn oversized_telegram_length_is_dropped() {
    let mut d = AutoLoopback::new();
    d.send_external_bytes(&[0xAA, 0x10, 0x08, 0x00, 0x07, 33, 0x01, 0x02]);
    let results = d.process_bus(None);
    assert!(results.iter().all(|r| r.is_none()));
    assert!(d.driver.is_time_critical());
}

#[test]
fn invalid_escape_drops_to_waiting() {
    let mut d = AutoLoopback::new();
    d.send_external_bytes(&[0xAA, 0x10, 0xA9, 0x05, 0x00, 0x07]);
    let results = d.process_bus(None);
    assert!(results.iter().all(|r| r.is_none()));
    assert!(d.driver.is_time_critical());
}

#[test]
fn master_without_reply_is_acknowledged() {
    let mut d = AutoLoopback::new();
    let msg = MasterTelegram {
        telegram: Telegram {
            src: 0xFF,
            dest: 0x85,
            service: 0x03F1,
            data: Buffer::from_slice(&[0x04, 0x01, 0x00, 0x01]),
        },
        flags: TelegramFlags::none(),
    };
    let results = d.process(0xAA, Some(&msg));
    assert!(results.iter().all(|r| r.is_none()));
    let results = d.process(0x00, Some(&msg));
    assert!(matches!(results[0], ProcessResult::MasterAckOk));
    // the engine frees the bus with a sync symbol of its own
    assert_eq!(d.last_sent(), Some(0xAA));
}

#[test]
fn master_not_acknowledged() {
    let mut d = AutoLoopback::new();
    let msg = example1();
    d.process(0xAA, Some(&msg));
    let results = d.process(0xFF, Some(&msg));
    assert!(matches!(results[0], ProcessResult::MasterAckErr));
    assert!(d.driver.is_time_critical());
}

#[test]
fn reply_checksum_mismatch() {
    let mut d = AutoLoopback::new();
    let msg = example1();
    d.process(0xAA, Some(&msg));
    let res = d.process_multiple(&[0x00, 0x02, 0xA9, 0x00, 0xDA, 0x83], Some(&msg));
    assert!(matches!(res[5][0], ProcessResult::ReplyCrcError));
    // a negative acknowledgement and a sync symbol went out
    assert_eq!(&d.transmit.sent[d.transmit.sent.len() - 2..], &[0xFF, 0xAA]);
}

#[test]
fn oversized_reply_length_is_dropped() {
    let mut d = AutoLoopback::new();
    let msg = example1();
    d.process(0xAA, Some(&msg));
    let res = d.process_multiple(&[0x00, 33, 0x01], Some(&msg));
    assert!(res.iter().flatten().all(|r| r.is_none()));
    assert!(d.driver.is_time_critical());
}

#[test]
fn fairness_counts_down_before_first_attempt() {
    let mut transmit = LoopbackTransmitter::default();
    let mut driver = EbusDriver::new(Duration::from_micros(123), 0x9B, 0x5C);
    let msg = example1();
    for _ in 0..8 {
        driver.process(0xAA, &mut transmit, sleep, Some(&msg)).unwrap();
        assert!(transmit.sent.is_empty());
    }
    driver.process(0xAA, &mut transmit, sleep, Some(&msg)).unwrap();
    assert_eq!(transmit.sent, vec![0xFF]);
}

#[test]
fn priority_tie_retries_at_next_sync() {
    let mut transmit = LoopbackTransmitter::default();
    let mut driver = EbusDriver::new(Duration::from_micros(123), 0x9B, 0x5C);
    let msg = example1();
    for _ in 0..8 {
        driver.process(0xAA, &mut transmit, sleep, None).unwrap();
    }
    driver.process(0xAA, &mut transmit, sleep, Some(&msg)).unwrap();
    // another master of the same priority class won
    driver.process(0x7F, &mut transmit, sleep, Some(&msg)).unwrap();
    transmit.sent.clear();
    driver.process(0xAA, &mut transmit, sleep, Some(&msg)).unwrap();
    assert_eq!(transmit.sent, vec![0xFF]);
}

#[test]
fn react_reports_what_to_do() {
    let mut driver = EbusDriver::new(Duration::from_micros(123), 0x9B, 0x5C);
    let msg = example1();
    for _ in 0..8 {
        let r = driver.react(0xAA, Some(&msg));
        assert!(r.clear_buffer);
        assert!(!r.arbitration_delay);
        assert!(r.transmit.is_empty());
    }
    let r = driver.react(0xAA, Some(&msg));
    assert!(r.clear_buffer && r.arbitration_delay);
    assert_eq!(r.transmit, vec![0xFF]);
    let r = driver.react(0xFF, Some(&msg));
    assert!(!r.clear_buffer && !r.arbitration_delay);
    assert_eq!(
        r.transmit,
        vec![0x51, 0x22, 0x50, 0x03, 0x90, 0x0F, 0x00, 0xBA]
    );
}

#[test]
fn timeout_returns_to_listening() {
    let mut d = AutoLoopback::new();
    let msg = example1();
    d.process(0xAA, Some(&msg));
    let res = d.process_multiple(&[0x00, 0x02, 0xA9, 0x00, 0xDA, 0xAA], Some(&msg));
    assert!(matches!(res[5][0], ProcessResult::Timeout));
    // listening again: a telegram of another master comes through
    d.send_external_bytes(&wire_telegram(&MasterTelegram {
        telegram: Telegram {
            src: 0x30,
            dest: 0x08,
            service: 0x0102,
            data: Buffer::from_slice(&[0x05]),
        },
        flags: TelegramFlags::none(),
    }));
    let results = d.process_bus(None);
    assert_eq!(results.last().unwrap().as_request().unwrap().src, 0x30);
}

#[test]
fn time_critical_phases() {
    let mut driver = EbusDriver::new(Duration::from_micros(123), 0x9B, 0x5C);
    assert!(!driver.is_time_critical());
    driver.reset_wait_syn();
    assert!(driver.is_time_critical());
    driver.reset_syn();
    assert!(!driver.is_time_critical());
}

#[test]
fn arbitration_delay_is_waited() {
    let waited = std::cell::RefCell::new(vec![]);
    let record = |d: Duration| waited.borrow_mut().push(d);
    let mut transmit = LoopbackTransmitter::default();
    let mut driver = EbusDriver::new(Duration::from_micros(540), 0x9B, 0x5C);
    let msg = example1();
    for _ in 0..8 {
        driver.process(0xAA, &mut transmit, &record, Some(&msg)).unwrap();
    }
    assert!(waited.borrow().is_empty());
    driver.process(0xAA, &mut transmit, &record, Some(&msg)).unwrap();
    assert_eq!(*waited.borrow(), vec![Duration::from_micros(540)]);
    assert_eq!(transmit.sent, vec![0xFF]);
}
