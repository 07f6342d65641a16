//! Verified core of a Horizon (Nintendo Switch) system library: error codes,
//! a buddy heap allocator, the mount point table, IPC wire encodings and the
//! SwIPC definition language front end.

pub mod error;
pub mod kernel;
pub mod math;
pub mod heap_spec;
pub mod heap;
pub mod handle;
pub mod mounts;
pub mod environment;
pub mod ipc;
pub mod ipcdef;
pub mod ipc_parse;
pub mod swipc;
pub mod ninupdates;
pub mod log;
