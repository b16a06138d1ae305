//! Shared definitions for a GPS tracker board: a receiver in, positions out
//! over 915 MHz LoRa, and BLE to an app.
//!
//! Everything here is decided without the hardware. The firmware and the
//! host tools drive these modules, so the wire formats cannot drift and the
//! policies can be proved: each function states what it returns or changes
//! over a mathematical model of its data, and what holds across functions is
//! stated in the proof functions named `law_..`.
//!
//! On the air:
//!
//! - [`lora`]: the over-air frame and the payloads it carries.
//! - [`hop`]: frequency hopping - the channel plan, the slot clock the network
//!   keeps in step, and the sync word a hopped frame carries.
//! - [`beacon`]: when a node's own position goes out.
//! - [`dedup`]: which frames have been heard before, and what a repeater still
//!   has to forward.
//! - [`rxgate`]: what the receiver has seen of an arriving frame, and how long
//!   a hop or a transmit has to wait for it.
//! - [`sentry`]: the radio that listens while the chip sleeps, and the burst
//!   that wakes it.
//! - [`roster`]: the latest report from each remote node, and the BLE values
//!   served from it.
//!
//! To the app and the host tools:
//!
//! - [`ble`]: characteristic values and config command ids.
//! - [`link`]: the frame format the host tools speak over USB.
//! - [`ack`]: what a config write is answered with.
//! - [`bulk`]: the transfer a radio config or a firmware image arrives in.
//!
//! On the board:
//!
//! - [`radiocfg`]: the radio config file, its parser and the record it is
//!   carried in.
//! - [`cfgstore`]: the radio config's copy in the board's own flash.
//! - [`session`]: what a config write changes, and the sleep and advertise
//!   cycle the board runs between visits.
//! - [`posture`]: what the hardware task raises and lowers for each request.
//! - [`supervise`]: which loop has gone quiet, and what the reset says of it.
//! - [`evlog`]: what the board writes down about itself.
//! - [`geo`]: the exact part of bearings.
//!
//! And what these share: [`bytes`], [`chars`], [`table`], [`text`] and
//! [`time`].

pub mod ack;
pub mod beacon;
pub mod ble;
pub mod bulk;
pub mod bytes;
pub mod cfgstore;
pub mod chars;
pub mod dedup;
pub mod evlog;
pub mod geo;
pub mod hop;
pub mod link;
pub mod lora;
pub mod posture;
pub mod radiocfg;
pub mod roster;
pub mod rxgate;
pub mod sentry;
pub mod session;
pub mod supervise;
pub mod table;
pub mod text;
pub mod time;
