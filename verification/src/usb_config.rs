//! The plain values of the device's USB identity and class configuration.
//!
//! Descriptor construction, endpoint allocation and the USB stack itself
//! are external collaborators; what the device contributes is this fixed
//! set of parameters.  The hardware glue converts these records into the
//! stack's own configuration types.

use vstd::prelude::*;

verus! {

/// The device-level USB configuration: a composite (IAD) device with a
/// vendor-specific identity and 64-byte control transfers.
#[derive(Debug, Clone, Copy)]
pub struct UsbConfig {
    pub vendor_id: u16,
    pub product_id: u16,
    pub manufacturer: &'static str,
    pub product: &'static str,
    pub serial_number: &'static str,
    pub max_power: u16,
    pub max_packet_size_0: u8,
    pub composite_with_iads: bool,
    pub device_class: u8,
    pub device_sub_class: u8,
    pub device_protocol: u8,
}

/// The HID class configuration: the 60 ms host poll interval and the
/// 64-byte report packets.
#[derive(Debug, Clone, Copy, PartialEq, Eq, Structural)]
pub struct HidConfig {
    pub poll_ms: u8,
    pub max_packet_size: u16,
}

/// The vendor bulk ("WebUSB") channel configuration: 64-byte packets, one
/// whole encoded message per transfer, claimed through vendor code 1.
#[derive(Debug, Clone, Copy, PartialEq, Eq, Structural)]
pub struct WebUsbConfig {
    pub max_packet_size: u16,
    pub vendor_code: u8,
}

/// The device-level configuration under the given USB identity: a
/// composite device (class 0xEF, sub-class 0x02, protocol 0x01, interface
/// association descriptors on) drawing at most 100 mA.
pub fn get_usb_config(vendor_id: u16, product_id: u16) -> (c: UsbConfig)
    ensures
        c.vendor_id == vendor_id,
        c.product_id == product_id,
        c.manufacturer@ == "magneto_pad_manufacturer"@,
        c.product@ == "magneto_pad_product"@,
        c.serial_number@ == "magneto_pad_serial_nr"@,
        c.max_power == 100,
        c.max_packet_size_0 == 64,
        c.composite_with_iads,
        c.device_class == 0xEF,
        c.device_sub_class == 0x02,
        c.device_protocol == 0x01,
{
    UsbConfig {
        vendor_id,
        product_id,
        manufacturer: "magneto_pad_manufacturer",
        product: "magneto_pad_product",
        serial_number: "magneto_pad_serial_nr",
        max_power: 100,
        max_packet_size_0: 64,
        composite_with_iads: true,
        device_class: 0xEF,
        device_sub_class: 0x02,
        device_protocol: 0x01,
    }
}

/// The class-level configurations of the two transports.
pub fn get_device_configs() -> (r: (HidConfig, WebUsbConfig))
    ensures
        r.0 == (HidConfig { poll_ms: 60, max_packet_size: 64 }),
        r.1 == (WebUsbConfig { max_packet_size: 64, vendor_code: 1 }),
{
    (HidConfig { poll_ms: 60, max_packet_size: 64 }, WebUsbConfig {
        max_packet_size: 64,
        vendor_code: 1,
    })
}

} // verus!
