//! Tasks: an earlier, self-contained round-robin scheduler over kernel and
//! user tasks, each with its own saved context and kernel stack.
pub mod context;
pub mod process;
pub mod scheduler;
