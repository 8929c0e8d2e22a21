//! Identifiers that Matter messages carry.

use vstd::prelude::*;

verus! {

/// Identifies a node in a fabric.
#[derive(Debug, Clone, Copy, PartialEq, Eq, Structural)]
pub struct NodeId(pub u64);

/// Identifies a group in a fabric.
#[derive(Debug, Clone, Copy, PartialEq, Eq, Structural)]
pub struct GroupId(pub u16);

/// Identifies a vendor.
#[derive(Debug, Clone, Copy, PartialEq, Eq, Structural)]
pub struct VendorId(pub u16);

/// Identifies a product of a vendor.
#[derive(Debug, Clone, Copy, PartialEq, Eq, Structural)]
pub struct ProductId(pub u16);

/// Identifies an exchange between two nodes.
#[derive(Debug, Clone, Copy, PartialEq, Eq, Structural)]
pub struct ExchangeId(pub u16);

} // verus!
