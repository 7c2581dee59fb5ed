//! Brand and status colours shared by the views (24-bit RGB).

use vstd::prelude::*;

verus! {

/// Primary action / selection blue. Brand colour, identical in both modes.
pub const ACCENT_BLUE: u32 = 0x003b_82f6;

/// Status colour of a connected device.
pub const STATUS_CONNECTED: u32 = 0x0022_c55e;

/// Status colour while connecting, and of a missing permission.
pub const STATUS_CONNECTING: u32 = 0x00ea_b308;

/// Status colour of an offline device.
pub const STATUS_OFFLINE: u32 = 0x006b_7280;

} // verus!
