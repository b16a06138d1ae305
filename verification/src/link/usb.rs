//! Host <-> board commands carried over the USB port, framed as
//! [`crate::link`] describes. They let a computer push a radio config
//! without BLE.

use vstd::prelude::*;

verus! {

/// Host -> board, no payload. The board answers
/// [`ACK`](crate::link::resp::ACK) (`[PING, 1, 0]`) so a tool can confirm it
/// found the firmware.
pub const PING: u8 = 0x50;

/// Host -> board, one bulk op in the [`crate::ble`] wire format. The board
/// runs it through the same path as a BLE bulk write and replies with
/// [`BULK_ACK`].
pub const BULK: u8 = 0x51;

/// Board -> host, `[id, status, value...]`: the ack the bulk op produced.
pub const BULK_ACK: u8 = 0x52;

/// Host -> board, no payload. The board answers with its BLE address, most
/// significant octet first.
pub const INFO: u8 = 0x53;

/// Host -> board, `[secs u32le]`: deep sleep now for that long, 0 for the
/// configured wake-check cadence.
pub const SLEEP: u8 = 0x54;

/// Host -> board, `[id, len, value...]`: one settings write, in the format
/// the BLE config characteristic takes.
pub const CFG: u8 = 0x55;

/// Host -> board, no payload. The board forgets everything it stores about
/// itself and restarts.
pub const WIPE: u8 = 0x56;

/// Host -> board, `[index u16le]`: read one record of the event log, newest
/// first.
pub const EVLOG: u8 = 0x57;

/// The [`EVLOG`] index that erases the log rather than reading it.
pub const EVLOG_ERASE: u16 = 0xFFFF;

} // verus!
