//! A platform-agnostic bridge that notifies a single subscriber of USB
//! serial-port attach and detach events.
//!
//! The bridge is built from four parts: a first-in-first-out [`queue::Queue`]
//! that hands events from a platform event source to the subscriber and
//! supports cooperative suspension through a stored waker; an identity cache
//! ([`cache::IdentityCache`]) that remembers the last device record seen
//! attached on each port, so a detach notification always carries the same
//! metadata as the matching attach; the subscription state machine
//! ([`detect::Detect`]) that composes the two and owns the lifecycle from
//! first poll to exhaustion or cancellation; and the startup enumeration
//! ([`props::scan`]) that seeds the cache.
//!
//! Platform event sources run outside this crate on a dedicated thread: they
//! enumerate attached devices, push raw notifications, and close the queue as
//! their final action when asked to stop. The decisions their loop takes —
//! what a readiness event asks of it, how a notification's action name
//! classifies — live in [`source`], so the thread itself only waits, reads,
//! and forwards plain values.

pub mod cache;
pub mod detect;
pub mod device;
pub mod props;
pub mod queue;
pub mod source;
pub mod trace;

pub use cache::IdentityCache;
pub use detect::{Detect, DetectState, MisuseError, PollNext};
pub use device::{DeviceInfo, EventInfo, EventType, IoError};
pub use props::{scan, read_device_info, Property, RawPort};
pub use queue::{Polled, Queue};
pub use source::{event_kind, wait_action, WaitAction};
