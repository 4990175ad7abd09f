//! Core of `vmsh`, which transparently runs a shell (or another binary)
//! inside a lightweight virtual machine.
//!
//! The crate holds everything `vmsh` decides and computes; talking to the
//! operating system and to the hypervisor is left to the program around it.

pub mod args;
pub mod bytes;
pub mod embed;
pub mod environment;
pub mod init;
pub mod lines;
pub mod ports;
pub mod records;
mod sys;
pub mod temp;
pub mod text;
pub mod util;
pub mod vm;

pub use util::{detect_kernel_format, hostname, KernelFormat};
