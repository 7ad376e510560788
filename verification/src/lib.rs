//! The transfer logic of a USB device driver for i.MX RT processors.
//!
//! The controller works on queue heads and transfer descriptors that it shares with the
//! driver. An [`Endpoint`] owns the driver's copies of them. It splits transfers into
//! chains of descriptors, queues them, and retires them in order once the controller is
//! done. A [`BusAdapter`] keeps the endpoints of a device.
//!
//! Nothing here touches hardware. An operation that has to hands out one [`Action`] at a
//! time. Whoever owns the peripheral performs it and hands back what a read returned:
//!
//! - [`Endpoint::prime_or_append`] hands a chain to the controller. A chain comes from
//!   [`Endpoint::submit_transfer`], or, for a single packet, from
//!   [`Endpoint::schedule_transfer`].
//! - [`Endpoint::clear_transfers`] flushes an endpoint and drops its queue.
//! - [`Endpoint::read_setup`] reads a setup packet.
//!
//! What the controller writes back goes into the driver's copies: the token of a
//! descriptor through [`Endpoint::take_token`], which refuses a token that cannot be, the
//! token of the overlay through [`Td::write_back`], and a setup packet through
//! [`Qh::receive_setup`].
//!
//! [`Action`]: registers::Action
//! [`BusAdapter`]: bus::BusAdapter
//! [`Endpoint`]: endpoint::Endpoint
//! [`Endpoint::clear_transfers`]: endpoint::Endpoint::clear_transfers
//! [`Endpoint::prime_or_append`]: endpoint::Endpoint::prime_or_append
//! [`Endpoint::read_setup`]: endpoint::Endpoint::read_setup
//! [`Endpoint::schedule_transfer`]: endpoint::Endpoint::schedule_transfer
//! [`Endpoint::submit_transfer`]: endpoint::Endpoint::submit_transfer
//! [`Endpoint::take_token`]: endpoint::Endpoint::take_token
//! [`Qh::receive_setup`]: qh::Qh::receive_setup
//! [`Td::write_back`]: td::Td::write_back

pub mod bus;
pub mod control;
pub mod controller_laws;
pub mod endpoint;
pub mod flush;
pub mod handoff;
pub mod laws;
pub mod layout;
pub mod operation_laws;
pub mod packet;
pub mod pool;
pub mod qh;
pub mod queue;
pub mod registers;
pub mod run_laws;
pub mod td;
pub mod usb;
pub mod word_laws;
