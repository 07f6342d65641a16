//! The data of the system services' interfaces, and the text values that
//! travel in their commands: service names and paths.

pub mod types;
pub mod path;
pub mod call;
pub mod sm;
pub mod spl;
pub mod ldr;
pub mod fssrv;
