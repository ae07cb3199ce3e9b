//! Verified core of a gamepad diagnostics tool.

use vstd::prelude::*;

pub mod app;
pub mod art;
pub mod controls;
pub mod drift;
pub mod layout;
pub mod names;
pub mod plain_report;
pub mod range;
pub mod report;
pub mod text;
pub mod timing;
pub mod trace;

verus! {
} // verus!
