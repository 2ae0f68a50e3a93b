//! Event-transport engine of a software KVM: the wire model and its codec,
//! framing, input coalescing, capture decisions, priority routing, device
//! grab coordination, clipboard selection and client reconnect backoff.

pub mod protocol;
pub mod codec;
pub mod frame;
pub mod coalesce;
pub mod keymap;
pub mod capture;
pub mod dispatch;
pub mod grab;
pub mod clipboard;
pub mod backoff;
pub mod replay;
