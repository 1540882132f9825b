//! Compiler-invocation rewriting for browser-targeted builds: deciding how a
//! compile command is rewritten, repairing the emitted IR module text, and
//! planning the optimizer and second-stage toolchain invocations.

pub mod command;
pub mod dispatch;
pub mod engine;
pub mod optimize;
pub mod repair;
pub mod text;
pub mod tool;
