//! The logic of a virtual machine backend.
pub mod argument;
pub mod backend;
pub mod config;
pub mod config_space;
pub mod console;
pub mod creation;
pub mod device;
pub mod disk;
pub mod driver_ok;
pub mod error;
pub mod events;
pub mod fs;
pub mod generic;
pub mod hab;
pub mod input;
pub mod input_config;
pub mod ioctl;
pub mod launch;
pub mod memory;
pub mod mmio;
pub mod net;
pub mod number;
pub mod reset;
pub mod run;
pub mod scmi;
pub mod text;
pub mod vcpu;
pub mod vhost_user;
pub mod vsock;
pub mod wait;
pub mod wiring;
