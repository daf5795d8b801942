//! Verified decision logic for the first user-space stage of a boot:
//! kernel-argument parsing, partition lookup, loop-device attachment and
//! the root switch, all expressed as pure functions over plain values.
//! Nothing here touches the operating system; a caller performs the
//! system calls these functions ask for and hands the outcomes back.

pub mod boot;
pub mod error;
pub mod kernel_args;
pub mod loopdev;
pub mod mount;
pub mod proc;
pub mod resolve;
pub mod switch;
pub mod sys;
pub mod text;
