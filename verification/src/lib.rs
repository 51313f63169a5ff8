//! Guarded secret memory: page-protected buffers whose access is counted and
//! checked, constant-time comparison, randomisation and byte helpers.

pub mod boxed;
pub mod pages;
pub mod types;
pub mod utils;
