//! A coordination kernel for bounded-resource synchronization exercises.
//!
//! The crate models the classic coordination protocols — bounded-buffer
//! producer/consumer, counting-semaphore admission, priority-ordered resource
//! pools, multi-kind rendezvous, the dining-philosopher resource ring,
//! reader/writer exclusion, and fixed-order step sequencing — as verified
//! state machines.  Every operation carries a contract that pins down how it
//! changes the state, and the safety laws of each protocol (capacity bounds,
//! FIFO delivery, permit accounting, mutual exclusion, deadlock freedom of
//! the ring) are proved from those contracts.
//!
//! Blocking is represented explicitly: an operation that would suspend the
//! caller either records the caller in a FIFO waiter queue or reports that it
//! cannot proceed, so a driver built on real tasks retries or parks exactly
//! where the model says it must.

pub mod buffer;
pub mod errors;
pub mod lock;
pub mod monitor;
pub mod pool;
pub mod rendezvous;
pub mod ring;
pub mod rwgate;
pub mod scenarios;
pub mod semaphore;
pub mod sequencer;

pub use buffer::BoundedBuffer;
pub use errors::KernelError;
pub use lock::MutualExclusionLock;
pub use monitor::ReaderWriterMonitor;
pub use pool::PriorityResourcePool;
pub use pool::ResourcePool;
pub use rendezvous::RendezvousGroup;
pub use ring::CyclicResourceRing;
pub use ring::Estado;
pub use rwgate::GatePolicy;
pub use rwgate::ReaderWriterGate;
pub use semaphore::CountingSemaphore;
pub use sequencer::FiniteStateSequencer;
