//! The fixed values that the benchmarks and their checks share.
use vstd::prelude::*;

verus! {

/// The id of the user that the one-to-many benchmark loads:
/// `85e11126-a41d-4dce-98f8-731a87685d2c`.
pub const FIXED_USER_ID: u128 = 177955938094988552825808298658849381676;

/// The zero-based position of the row that "fetch last" reads; a result set
/// holds it only from 10000 rows on.
pub const LAST_ROW_OFFSET: usize = 9999;

/// Rows seeded for the bulk and positional fetches.
pub const BULK_ROWS: usize = 10000;

/// Users seeded for the relation benchmarks.
pub const RELATION_USERS: usize = 300;

/// Posts seeded for each user in the relation benchmarks.
pub const POSTS_PER_USER: usize = 30;

/// Users written by one call of the batch insert benchmark.
pub const BATCH_SIZE: usize = 25;

/// The length of a seeded post's content.
pub const CONTENT_LEN: usize = 500;

} // verus!
