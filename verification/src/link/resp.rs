//! Responses, following a command.

use vstd::prelude::*;

verus! {

/// `[cmd u8, value...]` - command accepted. What follows the command id is
/// command specific.
pub const ACK: u8 = 0x81;

} // verus!
