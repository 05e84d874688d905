//! The host's side of a log channel: how a host tells a logging interface
//! from others, and how it reads the log from it.

use crate::record::same_text;
use crate::usb::{Direction, Recipient, Request, RequestType, INTERFACE_NAME};
use crate::usb_log_channel::LOG_READ_REQUEST;
use vstd::prelude::*;

verus! {

/// How an endpoint transfers data.
#[derive(Clone, Copy, Debug, PartialEq, Eq, Structural)]
pub enum TransferType {
    Control,
    Isochronous,
    Bulk,
    Interrupt,
}

/// An endpoint of an interface, as its descriptor gives it.
#[derive(Clone, Copy, Debug, PartialEq, Eq, Structural)]
pub struct Endpoint {
    pub address: u8,
    pub direction: Direction,
    pub transfer_type: TransferType,
}

/// How the log is read from a logging interface.
#[derive(Clone, Copy, Debug, PartialEq, Eq, Structural)]
pub enum IfaceType {
    /// With control transfers to the interface.
    Control,
    /// From the bulk IN endpoint with the given address.
    Bulk(u8),
}

/// Whether the log can be read from this endpoint: it is a bulk IN endpoint.
pub open spec fn is_log_endpoint(endpoint: Endpoint) -> bool {
    endpoint.direction == Direction::In && endpoint.transfer_type == TransferType::Bulk
}

/// Tells whether an interface with this name is a logging interface.
pub fn is_log_interface(name: &str) -> (r: bool)
    ensures
        r == (name@ == INTERFACE_NAME@),
{
    same_text(name, INTERFACE_NAME)
}

/// Chooses how to read the log from a logging interface with the given
/// endpoints: from its first bulk IN endpoint, or with control transfers
/// where it has none.
pub fn iface_type(endpoints: &[Endpoint]) -> (r: IfaceType)
    ensures
        match r {
            IfaceType::Bulk(address) => exists|i: int|
                {
                    &&& 0 <= i < endpoints@.len()
                    &&& is_log_endpoint(#[trigger] endpoints@[i])
                    &&& endpoints@[i].address == address
                    &&& forall|j: int| 0 <= j < i ==> !is_log_endpoint(#[trigger] endpoints@[j])
                },
            IfaceType::Control => forall|i: int|
                0 <= i < endpoints@.len() ==> !is_log_endpoint(#[trigger] endpoints@[i]),
        },
{
    let mut i: usize = 0;
    while i < endpoints.len()
        invariant
            i <= endpoints@.len(),
            forall|j: int| 0 <= j < i ==> !is_log_endpoint(#[trigger] endpoints@[j]),
        decreases endpoints.len() - i,
    {
        let endpoint = endpoints[i];
        if endpoint.direction == Direction::In && endpoint.transfer_type == TransferType::Bulk {
            return IfaceType::Bulk(endpoint.address);
        }
        i += 1;
    }
    IfaceType::Control
}

/// The control request with which a host reads up to `length` bytes of the
/// log from the interface with the number `iface_id`.
pub fn log_read_request(iface_id: u8, length: u16) -> (r: Request)
    ensures
        r == (Request {
            direction: Direction::In,
            request_type: RequestType::Vendor,
            recipient: Recipient::Interface,
            request: LOG_READ_REQUEST,
            value: 0,
            index: iface_id as u16,
            length,
        }),
{
    Request {
        direction: Direction::In,
        request_type: RequestType::Vendor,
        recipient: Recipient::Interface,
        request: LOG_READ_REQUEST,
        value: 0,
        index: iface_id as u16,
        length,
    }
}

} // verus!
