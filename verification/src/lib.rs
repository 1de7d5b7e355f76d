//! Shows how a group snapshot loses the rows of a table whose `group_id`
//! column holds another encoding of the id than the one the snapshot looks up.
//!
//! Before its release 0.6.0, MDK keeps the `mls_group_id` of its own tables as
//! raw bytes, while its OpenMLS tables hold the JSON form
//! `{"value":{"vec":[..]}}` of the same id.
//! A snapshot that looks every table up under the raw bytes finds the MDK rows
//! and none of the OpenMLS rows.
//!
//! - [`text`]: decimal numbers, byte lists and padding, as text.
//! - [`key`]: the two encodings of a group id, and why they never meet.
//! - [`seed`]: the rows that a database is seeded with, and their keys.
//! - [`snapshot`]: the questions asked of the database, and the verdict.
//! - [`store`]: stored rows, and what snapshots and restores do by their keys.
//! - [`report`]: what is printed on the way.

pub mod key;
pub mod report;
pub mod seed;
pub mod snapshot;
pub mod store;
pub mod text;
