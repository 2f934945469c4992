//! Verified rule core of a reputation-weighted validation network:
//! credit accounting, Fibonacci network growth, commit/reveal checks,
//! registry cache bookkeeping, the integrity rules of each DNA, and the
//! decisions of the desktop launcher.

pub mod fibonacci;
pub mod holochain;
pub mod coordination;
pub mod coordination_integrity;
pub mod json;
pub mod launcher;
pub mod mutual_credit;
pub mod mutual_credit_integrity;
pub mod registry;
pub mod registry_integrity;
