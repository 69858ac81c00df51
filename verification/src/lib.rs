//! The decisions of a compiler daemon, and of the client that talks to it.
//!
//! The client hands a compilation to the daemon ([`client`]), which compiles in place of it
//! ([`daemon`], [`callbacks`], [`emitter`]) and reports back ([`wire`]).  The daemon keeps compiled
//! code from one compilation to the next ([`unwind_module`], [`codegen`]).

pub mod callbacks;
pub mod client;
pub mod codegen;
pub mod daemon;
pub mod emitter;
pub mod jobserver;
pub mod paths;
pub mod text;
pub mod unwind_module;
pub mod wire;
