//! vavlt: asset classification, metadata-only estimation, the audit chain and
//! the per-file decisions of a run, with their contracts.


use vstd::prelude::*;

pub mod audit;
pub mod audit_laws;
pub mod calendar;
pub mod classify;
pub mod codecs;
pub mod digest;
pub mod engine;
pub mod estimate;
pub mod extension_table;
pub mod film;
pub mod fmt;
pub mod hosts;
pub mod item;
pub mod picture;
pub mod report;
pub mod rounding;
pub mod text;
pub mod thumb;
pub mod tier;
pub mod video;

verus! {

} // verus!
