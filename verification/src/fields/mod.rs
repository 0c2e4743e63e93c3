//! The two prime fields of the library.

pub mod fq;
pub mod fr;
pub mod order;
pub mod fq_ops;
pub mod fr_ops;
