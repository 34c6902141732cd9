//! Planning engine for sequences of frame-numbered files.
//!
//! A [`FileSequence`](sequence::FileSequence) is a non-empty, numerically
//! sorted collection of [`Item`](item::Item)s, each describing one
//! `{prefix}{delimiter?}{frame}{suffix?}.{extension}` file. Partial naming
//! overrides ([`Components`](components::Components)) are merged onto items
//! to derive batched, conflict-checked [`OperationPlan`](operation::OperationPlan)s
//! for renaming, moving, copying or deleting the files as a group. Plans are
//! purely descriptive: nothing here mutates the filesystem.

pub mod components;
pub mod digits;
pub mod error;
pub mod item;
pub mod operation;
pub mod sequence;
