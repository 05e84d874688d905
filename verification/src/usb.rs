//! What the log channels and the USB stack tell each other, as plain values.

use vstd::prelude::*;

verus! {

/// The name of the logging interface, which the interface's string descriptor
/// carries. A host finds the interface by this name.
pub const INTERFACE_NAME: &'static str = "kiffielog";

/// The interface class of a log channel: vendor-specific.
pub const INTERFACE_CLASS: u8 = 0xff;

/// The interface subclass of a log channel.
pub const INTERFACE_SUB_CLASS: u8 = 0;

/// The interface protocol of a log channel.
pub const INTERFACE_PROTOCOL: u8 = 0;

/// The direction of a transfer, as the host sees it.
#[derive(Clone, Copy, Debug, PartialEq, Eq, Structural)]
pub enum Direction {
    /// From the host to the device.
    Out,
    /// From the device to the host.
    In,
}

/// The type of a control request.
#[derive(Clone, Copy, Debug, PartialEq, Eq, Structural)]
pub enum RequestType {
    Standard,
    Class,
    Vendor,
    Reserved,
}

/// Whom a control request addresses.
#[derive(Clone, Copy, Debug, PartialEq, Eq, Structural)]
pub enum Recipient {
    Device,
    Interface,
    Endpoint,
    Other,
    Reserved,
}

/// A control request, as its setup packet gives it.
#[derive(Clone, Copy, Debug, PartialEq, Eq, Structural)]
pub struct Request {
    pub direction: Direction,
    pub request_type: RequestType,
    pub recipient: Recipient,
    /// The request identifier (`bRequest`).
    pub request: u8,
    /// The request's value (`wValue`).
    pub value: u16,
    /// The request's index (`wIndex`): for a request to an interface, its number.
    pub index: u16,
    /// The number of bytes that the host asks for or sends (`wLength`).
    pub length: u16,
}

/// What a log channel contributes to the configuration descriptor for its
/// interface.
#[derive(Clone, Copy, Debug, PartialEq, Eq, Structural)]
pub struct InterfaceDescriptor {
    pub number: u8,
    pub alternate_setting: u8,
    pub class: u8,
    pub sub_class: u8,
    pub protocol: u8,
    /// The index of the string descriptor that names the interface.
    pub string: u8,
}

/// The interface descriptor of a log channel: a vendor-specific interface
/// with the given number, named by the given string descriptor.
pub open spec fn log_interface(number: u8, string: u8) -> InterfaceDescriptor {
    InterfaceDescriptor {
        number,
        alternate_setting: 0,
        class: INTERFACE_CLASS,
        sub_class: INTERFACE_SUB_CLASS,
        protocol: INTERFACE_PROTOCOL,
        string,
    }
}

impl InterfaceDescriptor {
    /// The interface descriptor of a log channel.
    pub fn log_channel(number: u8, string: u8) -> (r: InterfaceDescriptor)
        ensures
            r == log_interface(number, string),
    {
        InterfaceDescriptor {
            number,
            alternate_setting: 0,
            class: INTERFACE_CLASS,
            sub_class: INTERFACE_SUB_CLASS,
            protocol: INTERFACE_PROTOCOL,
            string,
        }
    }
}

} // verus!
