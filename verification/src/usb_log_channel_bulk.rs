//! USB log channel with a bulk IN endpoint.
//!
//! The channel is an interface with one bulk IN endpoint. Whenever it is
//! polled it gathers queued log bytes into a packet, which is then sent to
//! the host; a packet that could not be sent is kept and offered again.

use crate::access::LogAccess;
use crate::usb::{log_interface, InterfaceDescriptor, INTERFACE_NAME};
use vstd::math::min;
use vstd::prelude::*;
use vstd::slice::slice_subrange;

verus! {

/// The largest packet of the endpoint: that of a full-speed bulk endpoint.
pub const EP_SIZE: usize = 64;

/// The longest packet that the channel sends: one byte of the endpoint's
/// packet size is never used.
pub const MAX_PACKET_LEN: usize = EP_SIZE - 1;

/// The staging buffer: the packet that is sent next, under way or waiting
/// to be sent again. Its first `len` bytes are the staged packet.
pub struct PacketBuffer {
    buf: [u8; EP_SIZE],
    len: usize,
}

impl View for PacketBuffer {
    type V = Seq<u8>;

    /// The staged packet.
    closed spec fn view(&self) -> Seq<u8> {
        self.buf@.take(self.len as int)
    }
}

impl PacketBuffer {
    /// The staged packet is no longer than [`MAX_PACKET_LEN`].
    #[verifier::type_invariant]
    pub closed spec fn wf(self) -> bool {
        self.len <= MAX_PACKET_LEN
    }

    /// A staged packet is never longer than [`MAX_PACKET_LEN`] bytes.
    pub proof fn lemma_fits(self)
        requires
            self.wf(),
        ensures
            self@.len() <= MAX_PACKET_LEN,
    {
    }

    /// A staging buffer with nothing staged.
    pub fn new() -> (r: PacketBuffer)
        ensures
            r@ == Seq::<u8>::empty(),
    {
        PacketBuffer { buf: [0; EP_SIZE], len: 0 }
    }

    /// The length of the staged packet.
    pub fn len(&self) -> (r: usize)
        ensures
            r == self@.len(),
            r <= MAX_PACKET_LEN,
    {
        proof {
            use_type_invariant(self);
        }
        self.len
    }

    /// The staged packet.
    pub fn as_slice(&self) -> (r: &[u8])
        ensures
            r@ == self@,
    {
        proof {
            use_type_invariant(self);
        }
        slice_subrange(self.buf.as_slice(), 0, self.len)
    }

    /// Drops the staged packet.
    pub fn clear(&mut self)
        ensures
            final(self)@ == Seq::<u8>::empty(),
    {
        self.len = 0;
    }

    /// Stages bytes from `source`, taken from it one by one behind what is
    /// staged already, until `source` has none left or [`MAX_PACKET_LEN`]
    /// bytes are staged.
    pub fn fill<S: LogAccess>(&mut self, source: &mut S)
        ensures
            final(self)@.len() <= MAX_PACKET_LEN,
            old(self)@.len() <= final(self)@.len(),
            final(self)@.take(old(self)@.len() as int) == old(self)@,
            final(source).limit() == old(source).limit(),
            match old(source).queued() {
                Some(q) => {
                    let n = min(q.len() as int, MAX_PACKET_LEN - old(self)@.len());
                    &&& final(self)@ == old(self)@ + q.take(n)
                    &&& final(source).queued() == Some(q.skip(n))
                },
                None => final(source).queued() is None,
            },
    {
        proof {
            use_type_invariant(&*self);
        }
        let ghost start = self@;
        while self.len < MAX_PACKET_LEN
            invariant
                self.len <= MAX_PACKET_LEN,
                start.len() <= self@.len(),
                self@.len() == self.len,
                self@.take(start.len() as int) == start,
                source.limit() == old(source).limit(),
                match old(source).queued() {
                    Some(q) => {
                        let n = self@.len() - start.len();
                        &&& n <= q.len()
                        &&& self@ == start + q.take(n)
                        &&& source.queued() == Some(q.skip(n))
                    },
                    None => source.queued() is None,
                },
            ensures
                self.len <= MAX_PACKET_LEN,
                start.len() <= self@.len(),
                self@.len() == self.len,
                self@.take(start.len() as int) == start,
                source.limit() == old(source).limit(),
                match old(source).queued() {
                    Some(q) => {
                        let n = self@.len() - start.len();
                        &&& n == q.len() || self@.len() == MAX_PACKET_LEN
                        &&& n <= q.len()
                        &&& self@ == start + q.take(n)
                        &&& source.queued() == Some(q.skip(n))
                    },
                    None => source.queued() is None,
                },
            decreases MAX_PACKET_LEN - self.len,
        {
            let ghost before = self@;
            match source.read() {
                Some(byte) => {
                    let len = self.len;
                    self.buf[len] = byte;
                    self.len = len + 1;
                    proof {
                        assert(self@ =~= before.push(byte));
                        assert(self@.take(start.len() as int) =~= start);
                        if let Some(q) = old(source).queued() {
                            let n = before.len() - start.len();
                            assert(q.skip(n).drop_first() =~= q.skip(n + 1));
                            assert(q.take(n).push(q[n]) =~= q.take(n + 1));
                            assert(self@ =~= start + q.take(n + 1));
                        }
                    }
                },
                None => {
                    break ;
                },
            }
        }
    }
}

/// A log channel that feeds a bulk IN endpoint with bytes from the log
/// buffer `S`: in firmware a reference to the shared
/// [`LogBuffer`](crate::log_buffer::LogBuffer).
pub struct UsbLogChannel<S: LogAccess> {
    iface: u8,
    iface_string: u8,
    log_buffer: S,
    packet_buffer: PacketBuffer,
}

impl<S: LogAccess> UsbLogChannel<S> {
    /// The number of the channel's interface.
    pub closed spec fn interface_number(&self) -> u8 {
        self.iface
    }

    /// The index of the string descriptor that names the interface.
    pub closed spec fn string_index(&self) -> u8 {
        self.iface_string
    }

    /// The log buffer that the channel drains.
    pub closed spec fn source(&self) -> S {
        self.log_buffer
    }

    /// The staged packet: the bytes that wait to be sent.
    pub closed spec fn staged(&self) -> Seq<u8> {
        self.packet_buffer@
    }

    /// The channel is on the same interface as `other`.
    pub open spec fn same_interface(&self, other: &Self) -> bool {
        &&& self.interface_number() == other.interface_number()
        &&& self.string_index() == other.string_index()
    }

    /// A channel on the interface with the number `iface`, which the string
    /// descriptor with the index `iface_string` names, that drains
    /// `log_buffer`. Nothing is staged.
    pub fn new(iface: u8, iface_string: u8, log_buffer: S) -> (r: UsbLogChannel<S>)
        ensures
            r.interface_number() == iface,
            r.string_index() == iface_string,
            r.source() == log_buffer,
            r.staged() == Seq::<u8>::empty(),
    {
        UsbLogChannel { iface, iface_string, log_buffer, packet_buffer: PacketBuffer::new() }
    }

    /// Gives up the channel and hands back its log buffer. A staged packet
    /// is lost.
    pub fn into_log_buffer(self) -> (r: S)
        ensures
            r == self.source(),
    {
        self.log_buffer
    }

    /// The channel's part of the configuration descriptor: one
    /// vendor-specific interface. Its endpoint is a bulk IN endpoint with
    /// the packet size [`EP_SIZE`].
    pub fn get_configuration_descriptors(&self) -> (r: InterfaceDescriptor)
        ensures
            r == log_interface(self.interface_number(), self.string_index()),
    {
        InterfaceDescriptor::log_channel(self.iface, self.iface_string)
    }

    /// The string descriptor with the given index, where it is the channel's
    /// own: the interface name.
    pub fn get_string(&self, index: u8) -> (r: Option<&'static str>)
        ensures
            r == if index == self.string_index() {
                Some(INTERFACE_NAME)
            } else {
                None
            },
    {
        if index == self.iface_string {
            Some(INTERFACE_NAME)
        } else {
            None
        }
    }

    /// What [`UsbLogChannel::poll`] makes of a channel: `after` is the
    /// channel and `len` the result, where `before` is the channel as it was.
    ///
    /// A packet that is staged stays as it is, and the log buffer is not
    /// read. Where none is staged, the oldest bytes of the log buffer are
    /// staged, up to [`MAX_PACKET_LEN`] of them. `len` is the length of the
    /// staged packet.
    pub open spec fn polled(before: Self, after: Self, len: usize) -> bool {
        &&& after.same_interface(&before)
        &&& len == after.staged().len()
        &&& len <= MAX_PACKET_LEN
        &&& if before.staged().len() > 0 {
            &&& after.staged() == before.staged()
            &&& after.source() == before.source()
        } else {
            match before.source().queued() {
                Some(q) => {
                    &&& len == min(q.len() as int, MAX_PACKET_LEN as int)
                    &&& after.staged() == q.take(len as int)
                    &&& after.source().queued() == Some(q.skip(len as int))
                },
                None => after.source().queued() is None,
            }
        }
    }

    /// A packet that the endpoint did not take is offered again as it is:
    /// where a poll has staged a packet, the next poll of a channel with the
    /// same packet staged leaves it as it is, whatever has been logged in
    /// between.
    pub proof fn lemma_retry(first: Self, offered: Self, len: usize, kept: Self, again: Self, n: usize)
        requires
            Self::polled(first, offered, len),
            len > 0,
            kept.staged() == offered.staged(),
            Self::polled(kept, again, n),
        ensures
            again.staged() == offered.staged(),
            n == len,
    {
    }

    /// Periodic tasks: to be called again and again, so that the log
    /// reaches the host. This is [`UsbLogChannel::poll`].
    pub fn tasks(&mut self) -> (r: usize)
        ensures
            Self::polled(*old(self), *final(self), r),
    {
        self.poll()
    }

    /// Gets the next packet ready, and tells how long it is.
    ///
    /// A result of 0 says that there is nothing to send. Otherwise the
    /// caller sends [`UsbLogChannel::packet`] and reports with
    /// [`UsbLogChannel::complete`] whether the endpoint took it.
    pub fn poll(&mut self) -> (r: usize)
        ensures
            Self::polled(*old(self), *final(self), r),
    {
        if self.packet_buffer.len() == 0 {
            self.packet_buffer.fill(&mut self.log_buffer);
            assert(self.staged() =~= Seq::<u8>::empty() + self.staged());
        }
        self.packet_buffer.len()
    }

    /// The staged packet.
    pub fn packet(&self) -> (r: &[u8])
        ensures
            r@ == self.staged(),
    {
        self.packet_buffer.as_slice()
    }

    /// Takes note of what became of the staged packet. Where the endpoint
    /// took it, nothing is staged any more; where it did not, the packet
    /// stays as it is, to be offered again.
    pub fn complete(&mut self, sent: bool)
        ensures
            final(self).same_interface(old(self)),
            final(self).source() == old(self).source(),
            final(self).staged() == if sent {
                Seq::<u8>::empty()
            } else {
                old(self).staged()
            },
    {
        if sent {
            self.packet_buffer.clear();
        }
    }
}

} // verus!
