//! What does not depend on the target: layout of types and stack frames.

pub mod layout;
pub mod stack_frame;
