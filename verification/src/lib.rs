//! Time-ordering nucleus of a discrete-event simulator.
//!
//! Pending events, each bound to a simulated timestamp, are held in a
//! min-ordered queue and released strictly in non-decreasing time order.
//! The crate provides the single-threaded ordering core ([`event_queue`]),
//! the concurrent wrapper that serializes shared access ([`thread_safe`]),
//! the time representation the queue orders by ([`emulated_time`]), and the
//! events themselves ([`event`]). The ordering and conservation laws the
//! queue obeys are stated and proved in [`laws`].

pub mod emulated_time;
pub mod event;
pub mod event_queue;
pub mod laws;
pub mod thread_safe;
