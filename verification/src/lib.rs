//! A bounded multi-producer multi-consumer queue on a ring of slots.
pub mod protocol;
pub mod ring;
mod sync;
pub mod queue;

pub use queue::MpmcQueue;
