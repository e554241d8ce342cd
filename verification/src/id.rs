//! Identifier types: three distinct unsigned-integer identifiers that
//! are never interchangeable, even though structurally identical.

use vstd::prelude::*;

verus! {

/// Identifies an attribute; 0 means "not yet assigned".
#[derive(Debug, Clone, Copy, PartialEq, Eq, Structural)]
pub struct AttrId(pub u64);

/// Identifies an entity.
#[derive(Debug, Clone, Copy, PartialEq, Eq, Structural)]
pub struct EntityId(pub u64);

/// Identifies a transaction.
#[derive(Debug, Clone, Copy, PartialEq, Eq, Structural)]
pub struct TxId(pub u64);

} // verus!
