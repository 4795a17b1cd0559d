//! A broadcast notification primitive: a publisher keeps an ordered list of
//! shared subscriber handles and delivers each published message, by
//! reference, to all of them in registration order.
//!
//! Two parallel variants cover the two ownership modes: [`local`] uses
//! non-atomic reference counting for single-owner use, [`shared`] uses atomic
//! reference counting so publishers and handles can cross threads. The default
//! exports are the single-owner variant.

pub mod local;
pub mod model;
pub mod shared;

pub use local::Handle;
pub use local::Publisher;
pub use local::Subscriber;
