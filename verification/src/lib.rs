//! A local process supervisor library: it models the lifecycle of a fixed set
//! of configured child applications (spawn, stop, restart), the one-shot
//! claiming of their output pipes, and a bounded ring buffer of recent log
//! lines.  All OS work (spawning, killing, reading pipes, clocks, host memory
//! readings) is performed by the embedding program, which feeds the resulting
//! plain values back into the verified state machine defined here.

pub mod config;
pub mod log;
pub mod project;
pub mod resolver;
pub mod runtime;
pub mod text;
