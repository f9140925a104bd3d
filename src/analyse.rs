//! The analysis pass: it resolves types and expressions to class handles.
pub mod expr;
pub mod method;
pub mod new_instance;
pub mod tpe;
