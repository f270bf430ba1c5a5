//! Configuration data for the board's USB HID device. The USB stack,
//! descriptors and endpoint plumbing live outside this crate; this module
//! holds the plain configuration values handed to them.

use vstd::prelude::*;

verus! {

/// Faults of the USB HID device driver, produced by the USB wiring outside
/// this crate.
#[derive(Debug, Clone, Copy, PartialEq, Eq, Structural)]
pub enum UsbHidError {
    TaskSpawnFailed,
    WriteFailed,
}

/// Configuration for a USB HID device, filled in by struct update over the
/// default.
#[derive(Debug, Clone, Copy, PartialEq, Eq)]
pub struct UsbHidConfig {
    /// USB vendor ID.
    pub vendor_id: u16,
    /// USB product ID.
    pub product_id: u16,
    /// Manufacturer string.
    pub manufacturer: Option<&'static str>,
    /// Product string.
    pub product: Option<&'static str>,
    /// Serial number string.
    pub serial_number: Option<&'static str>,
    /// Maximum power consumption, in 2 mA units.
    pub max_power: u8,
    /// Maximum packet size for endpoint 0.
    pub max_packet_size: u8,
}

impl Default for UsbHidConfig {
    /// The development defaults: a placeholder vendor and product pair, no
    /// strings, 200 mA, 64-byte control packets.
    fn default() -> (r: UsbHidConfig)
        ensures
            r.vendor_id == 0xc0de,
            r.product_id == 0xcafe,
            r.manufacturer is None,
            r.product is None,
            r.serial_number is None,
            r.max_power == 100,
            r.max_packet_size == 64,
    {
        UsbHidConfig {
            vendor_id: 0xc0de,
            product_id: 0xcafe,
            manufacturer: None,
            product: None,
            serial_number: None,
            max_power: 100,
            max_packet_size: 64,
        }
    }
}

} // verus!
