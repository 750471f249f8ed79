//! The data of each kind of record.

pub mod a;
pub mod aaaa;
pub mod ptr;
pub mod srv;

pub mod txt;
