//! A byte-level driver for the eBUS half-duplex serial bus: arbitration with a
//! fairness counter, byte stuffing, CRC-8 framing, and the master and slave sides
//! of a request/reply exchange, all driven one received byte at a time.
use vstd::prelude::*;

pub mod codec;
pub mod crc;
mod driver;
pub mod machine;
pub mod telegram;

pub use crate::crc::Crc;
pub use crate::driver::{EbusDriver, ProcessResult, Reaction, RequestToken, Transmit};
pub use crate::telegram::{Buffer, MasterTelegram, Telegram, TelegramFlag, TelegramFlags};

verus! {

/// Capacity of a telegram payload, in bytes.
pub const MAX_BUF_U8: u8 = 32;

/// Capacity of a telegram payload, as a `usize`.
pub const MAX_BUF: usize = 32;

/// The bus-sync symbol: it opens an arbitration window and ends an exchange.
pub const SYN: u8 = 0xAA;

/// The escape symbol of byte stuffing.
pub const ESCAPE_PREFIX: u8 = 0xA9;

/// The fairness counter's value after a completed exchange: this many sync symbols
/// pass before the engine contends for the bus again.
pub const FAIRNESS_MAX: u8 = 8;

/// Positive acknowledgement.
pub const ACK_OK: u8 = 0x00;

/// Canonical negative acknowledgement.
pub const ACK_ERR: u8 = 0xFF;

} // verus!
