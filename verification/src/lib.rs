//! An Erlang-style actor toolkit: process identifiers, exit reasons and
//! signals, the bookkeeping of an actor system (spawning, links, monitors,
//! routing, the signals a terminated actor causes), the default handling of
//! signals, a name registry, timers, supervision decisions, a node port
//! mapper, the framing and payloads of messages between nodes, a binary
//! envelope format, health checks and telemetry sampling, each stated and
//! proved with Verus.

pub mod actor;
pub mod concurrent;
pub mod distributed;
pub mod epmd;
pub mod error;
pub mod gen_server;
pub mod health;
pub mod message;
pub mod pid;
pub mod registry;
pub mod scheduler;
pub mod serialization;
pub mod supervisor;
pub mod system;
pub mod telemetry;
pub mod text;

pub use error::ActorError;
pub use message::{Envelope, ExitReason, MonitorRef, Signal};
pub use pid::Pid;
pub use system::ActorSystem;
