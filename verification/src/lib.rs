//! A registry of kitties: who owns which, how they change hands, and how two
//! of them are bred into a third.

pub mod consistency;
pub mod dna;
pub mod entropy;
pub mod history;
pub mod laws;
pub mod ledger;
pub mod registry;
pub mod types;
