//! Building blocks for proxy libraries: a generator that emits forwarding
//! trampolines around a renamed foreign entry point, and a rewriter that
//! restores the original export names inside a compiled binary image.

pub mod config;
pub mod names;
pub mod rewriter;
pub mod text;
pub mod trampoline;
