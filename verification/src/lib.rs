//! A software KVM switch: the routing, translation and bookkeeping of input
//! events between a host X session and a QEMU guest.

pub mod config;
pub mod ddc;
pub mod dispatch;
pub mod error;
pub mod event;
pub mod exec;
pub mod filter;
pub mod fuse;
pub mod grab;
pub mod input;
pub mod inputs;
pub mod keymap;
pub mod process;
pub mod qemu;
pub mod qemucomm;
pub mod qmp;
pub mod retry;
pub mod route;
pub mod sink;
pub mod spawner;
pub mod text;
pub mod uinput;
pub mod unzip;
pub mod x;
