//! Core logic of the Agam toolchain: source spans and diagnostics, the
//! whitespace-stable source formatter, and the pure decision logic of the
//! `agamc` driver.

use vstd::prelude::*;

pub mod diagnostic;
pub mod driver;
pub mod format;
pub mod report;
pub mod span;
pub mod strset;
pub mod text;

verus! {

} // verus!
