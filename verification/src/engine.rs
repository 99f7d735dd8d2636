//! Module contains different engines which can be used to run
//! evolutions.

pub mod sequential;

pub use self::sequential::Sequential;
