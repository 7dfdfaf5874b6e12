//! A delegated reward-accrual engine.
//!
//! A plan administrator defines a reward plan with a numeric threshold; a
//! single authorized issuing caller reports qualifying user activity through
//! the `reward` entry point. The engine tracks each user's accrued progress
//! as a fungible balance on an asset ledger; when the balance reaches the
//! plan's threshold, the engine resets it by exactly the threshold amount,
//! issues the requested reward units, and reports whether the threshold was
//! crossed.
//!
//! The surrounding execution environment (the asset ledger's persistence,
//! transaction atomicity, and the instruction list of the enclosing
//! transaction) is modeled as plain data handed to the engine, so every rule
//! the engine enforces is stated and proved here.

pub mod engine;
pub mod errors;
pub mod identity;
pub mod introspection;
pub mod ledger;
pub mod registry;
