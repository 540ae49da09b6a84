//! Hooks that run an external command around the use of tools, and a hook that shortens the
//! output of tools.

pub mod command_hook;
pub mod compress;
pub mod number;
pub mod select;
pub mod text;
