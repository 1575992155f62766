//! Translates a shell prompt written with backslash escapes and ANSI
//! foreground-color sequences into the percent-escape dialect of another
//! shell's prompt expansion.

pub mod engine;
pub mod laws;
pub mod semantics;

pub use engine::convert_prompt;
pub use engine::translate;
pub use semantics::translation;
