//! Payment-gated compute: a verifier that checks the instruction just before
//! a gated call paid enough to the right recipient, the gated operations built
//! on it, a per-payer payment ledger, and the reading of a gate's settings
//! from an argument list.

pub mod args;
pub mod error;
pub mod gate;
pub mod identity;
pub mod introspection;
pub mod ledger;
pub mod payment;
