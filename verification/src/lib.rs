//! Restoring personal directories from a backup into a home directory.
//!
//! This library holds the decisions of a restore, and none of its work on
//! disk. A program around it walks the backup, creates and copies files and
//! asks its user; it reports what it met to the functions here and does
//! what they decide.
//!
//! - `scan` decides which directories of a backup are the personal
//!   directories looked for.
//! - `plan` turns walked trees into a plan of directories to create and
//!   files to copy.
//! - `copy` runs one operation of a plan: it never writes over a file that
//!   is there, and tries restore names from `restore` instead.
//! - `aggregate` gathers one record for each operation, whatever the order
//!   and however many workers.
//! - `conflict` turns a decision about a conflict into one action.
//! - `report` writes the summary of a run and the preview of a plan.
//! - `types`, `folders`, `paths` and `text` hold what the others share.

pub mod aggregate;
pub mod conflict;
pub mod copy;
pub mod folders;
pub mod paths;
pub mod plan;
pub mod report;
pub mod restore;
pub mod scan;
pub mod text;
pub mod types;
