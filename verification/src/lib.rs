//! Verified core of a removable-media archiving tool.
//!
//! The library covers the logic that decides what the tool does: parsing the
//! textual output of the external listing, identification and descriptor
//! commands, the bounded-retry policy for drive actuation, the chunked
//! streaming copy, and the per-drive lifecycle state machine.  All process
//! spawning, file handling and display work lives outside the library and
//! hands plain values in and out.

use vstd::prelude::*;

pub mod actuator;
pub mod copier;
pub mod engine;
pub mod errors;
pub mod inventory;
pub mod metadata;
pub mod presence;
pub mod scan;

verus! {

} // verus!
