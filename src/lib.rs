//! A derivation engine for annotated aggregate types: it resolves `educe`
//! annotations into attribute records, selects the field that a capability
//! acts on, and describes the implementation to generate together with the
//! generic bounds it needs.
use vstd::prelude::*;

pub mod aggregate;
pub mod bound;
pub mod capability;
pub mod default;
pub mod deref_mut;
pub mod meta;
