//! The operations that a small message-passing kernel offers its tasks by way of
//! messages to the kernel itself, with proofs that they do what they say.

pub mod abi;
pub mod byte_laws;
pub mod diag;
pub mod kipc;
pub mod laws;
pub mod marshal;
pub mod operation_laws;
pub mod task;
pub mod umem;
pub mod wire;
pub mod wire_laws;
