//! Records of stock purchases: the transaction entity, its stored form as a
//! keyed record of typed attributes, and the two service operations.
use vstd::prelude::*;

pub mod number;
pub mod collection;
pub mod record;
pub mod service;
pub mod transaction;

verus! {

} // verus!
