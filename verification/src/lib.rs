//! The core of a test runner for WebAssembly modules.
//!
//! Given a compiled test module, the core finds out which test-export
//! convention the module follows, says how to run it in a JavaScript runtime
//! or a browser, gathers what the module and its workers log to the console,
//! and assembles one report of what passed and what failed.
//!
//! Nothing in this crate reads a file, starts a process or talks to a
//! browser. The caller does that, and hands over what it read and saw.

pub mod aggregator;
pub mod assembler;
pub mod capture;
pub mod failure;
pub mod filter;
pub mod inspector;
pub mod loader;
pub mod model;
pub mod session;
pub mod text;
pub mod wasm;
