//! Wrappers that present values as single-member records.
use vstd::prelude::*;

verus! {

/// A wrapper around a sequence of items: each item behaves as if it were a
/// record with the single member `item`.
#[derive(Debug, PartialEq)]
pub struct Items<T>(pub T);

/// A wrapper around a single item: it behaves as if it were a record with the
/// single member `item`.
#[derive(Debug, PartialEq)]
pub struct Item<T>(pub T);

} // verus!
