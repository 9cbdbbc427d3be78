//! NetWatch: network bandwidth monitoring with alert rules, quotas and
//! a bounded measurement history, as a verified library.

pub mod config;
pub mod table;
pub mod collector;
pub mod texte;
pub mod alerts;
pub mod master;
