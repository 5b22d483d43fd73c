//! Creation of address accounts: a postal address, its two byte encodings, and the
//! checks and sizing that decide how the account that stores it is created.

pub mod state;
pub mod canonical;
pub mod laws;
pub mod processor;
