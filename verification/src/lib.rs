//! Host side of a serial macro pad: the frame codec, the button dispatcher,
//! the device poll cycle and the configuration rules, with their proofs.

pub mod codec;
pub mod config;
pub mod device_loop;
pub mod dispatch;
pub mod document;
pub mod injector;
pub mod journal;
pub mod message;
pub mod nesting;
pub mod shell;
pub mod text;
pub mod varint;
pub mod wire;
