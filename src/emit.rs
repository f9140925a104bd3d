//! Code emission: run-time value representations and the instruction stream
//! that is handed to the backend. The value an instruction produces is named by
//! its position in the stream.
pub mod helper;
pub mod value;
