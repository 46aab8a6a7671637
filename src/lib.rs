//! Request-scoped coordination for a query gateway: a single-flight cache for
//! backend calls, the aggregate cache policy of a response built from many
//! backend calls, and the cookie and experimental headers gathered meanwhile.
use vstd::prelude::*;

pub mod config;
pub mod context;
pub mod dedupe;
pub mod headers;
pub mod policy;
pub mod store;

verus! {

} // verus!
