//! USB log channel based on control transfers.
//!
//! The channel is an interface without an endpoint. A host reads the log
//! with a vendor request to the interface: it asks for a number of bytes and
//! gets, at once, as many of them as are queued.

use crate::access::{drain, LogAccess};
use crate::usb::{
    log_interface, Direction, InterfaceDescriptor, Recipient, Request, RequestType,
    INTERFACE_NAME,
};
use vstd::math::min;
use vstd::prelude::*;

verus! {

/// The identifier of the one request that the channel handles.
pub const LOG_READ_REQUEST: u8 = 0;

/// A log channel that answers control transfers with bytes from the log
/// buffer `S`: in firmware a reference to the shared
/// [`LogBuffer`](crate::log_buffer::LogBuffer).
pub struct UsbLogChannel<S: LogAccess> {
    iface: u8,
    iface_string: u8,
    log_buffer: S,
}

impl<S: LogAccess> UsbLogChannel<S> {
    /// The number of the channel's interface.
    pub closed spec fn interface_number(&self) -> u8 {
        self.iface
    }

    /// The index of the string descriptor that names the interface.
    pub closed spec fn string_index(&self) -> u8 {
        self.iface_string
    }

    /// The log buffer that the channel drains.
    pub closed spec fn source(&self) -> S {
        self.log_buffer
    }

    /// Whether `request` is the channel's read request: an inbound vendor
    /// request to this interface, with the identifier [`LOG_READ_REQUEST`].
    pub open spec fn handles(&self, request: Request) -> bool {
        &&& request.direction == Direction::In
        &&& request.request_type == RequestType::Vendor
        &&& request.recipient == Recipient::Interface
        &&& request.index == self.interface_number() as u16
        &&& request.request == LOG_READ_REQUEST
    }

    /// A channel on the interface with the number `iface`, which the string
    /// descriptor with the index `iface_string` names, that drains `log_buffer`.
    pub fn new(iface: u8, iface_string: u8, log_buffer: S) -> (r: UsbLogChannel<S>)
        ensures
            r.interface_number() == iface,
            r.string_index() == iface_string,
            r.source() == log_buffer,
    {
        UsbLogChannel { iface, iface_string, log_buffer }
    }

    /// Gives up the channel and hands back its log buffer.
    pub fn into_log_buffer(self) -> (r: S)
        ensures
            r == self.source(),
    {
        self.log_buffer
    }

    /// The channel's part of the configuration descriptor: one
    /// vendor-specific interface without an endpoint.
    pub fn get_configuration_descriptors(&self) -> (r: InterfaceDescriptor)
        ensures
            r == log_interface(self.interface_number(), self.string_index()),
    {
        InterfaceDescriptor::log_channel(self.iface, self.iface_string)
    }

    /// The string descriptor with the given index, where it is the channel's
    /// own: the interface name.
    pub fn get_string(&self, index: u8) -> (r: Option<&'static str>)
        ensures
            r == if index == self.string_index() {
                Some(INTERFACE_NAME)
            } else {
                None
            },
    {
        if index == self.iface_string {
            Some(INTERFACE_NAME)
        } else {
            None
        }
    }

    /// Tells whether `request` is the channel's read request.
    pub fn accepts(&self, request: &Request) -> (r: bool)
        ensures
            r == self.handles(*request),
    {
        request.direction == Direction::In && request.request_type == RequestType::Vendor
            && request.recipient == Recipient::Interface && request.index == self.iface as u16
            && request.request == LOG_READ_REQUEST
    }

    /// Answers an inbound control request.
    ///
    /// Any request but the channel's read request is left alone: the result
    /// is `None`, and neither `data` nor the log buffer is touched. The read
    /// request is answered with the oldest bytes of the log buffer, taken
    /// from it one by one: as many as the request asks for, as `data` can
    /// take and as are queued. They are stored at the start of `data`, and
    /// the result is their number, which is 0 where nothing is queued.
    ///
    /// Of a shared log buffer nobody knows what is queued: other contexts
    /// may write while the answer is put together. The contract then says
    /// where the bytes go and how many there can be.
    pub fn control_in(&mut self, request: &Request, data: &mut [u8]) -> (r: Option<usize>)
        ensures
            final(self).interface_number() == old(self).interface_number(),
            final(self).string_index() == old(self).string_index(),
            r is Some <==> old(self).handles(*request),
            r is None ==> final(data)@ == old(data)@ && final(self).source() == old(self).source(),
            r matches Some(len) ==> {
                &&& len <= request.length
                &&& len <= old(data)@.len()
                &&& final(data)@.len() == old(data)@.len()
                &&& final(data)@.skip(len as int) == old(data)@.skip(len as int)
                &&& match old(self).source().queued() {
                    Some(q) => {
                        &&& len == min(
                            min(request.length as int, old(data)@.len() as int),
                            q.len() as int,
                        )
                        &&& final(data)@.take(len as int) == q.take(len as int)
                        &&& final(self).source().queued() == Some(q.skip(len as int))
                    },
                    None => final(self).source().queued() is None,
                }
            },
    {
        if !self.accepts(request) {
            return None;
        }
        let request_len = request.length as usize;
        let len = drain(&mut self.log_buffer, data, request_len);
        Some(len)
    }
}

} // verus!
