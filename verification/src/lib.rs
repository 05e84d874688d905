//! Diagnostic logging over USB for microcontroller firmware.
//!
//! Firmware logs from any context: the main loop, interrupt handlers, the
//! panic handler. The log lines go into a ring buffer of fixed capacity,
//! which never makes a writer wait and drops what does not fit. A USB log
//! channel hands the buffered bytes to a host, either whenever the host asks
//! for them with a control transfer or packet by packet over a bulk IN
//! endpoint.
//!
//! - [`queue`]: the queue of bytes as a mathematical model, and what holds
//!   of every sequence of writes and reads.
//! - [`record`]: log records and the lines that they are rendered as.
//! - [`log_buffer`]: the ring buffer, held alone ([`log_buffer::LogBufferInner`])
//!   or shared between contexts ([`log_buffer::LogBuffer`]).
//! - [`access`]: what draining a buffer and reporting a panic do, with either
//!   form of the buffer.
//! - [`usb`]: control requests and descriptors as plain values.
//! - [`usb_log_channel`]: the channel based on control transfers.
//! - [`usb_log_channel_bulk`]: the channel with a bulk IN endpoint.
//! - [`host`]: how a host finds a log channel and reads from it.

pub mod access;
pub mod host;
pub mod log_buffer;
pub mod queue;
pub mod record;
pub mod usb;
pub mod usb_log_channel;
pub mod usb_log_channel_bulk;
