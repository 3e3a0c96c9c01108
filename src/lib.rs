//! Shell integration helpers: detecting the interactive shell, rendering
//! environment mutations in its syntax, and selecting its startup hook.
pub mod hook;
pub mod quote;
pub mod shell;
