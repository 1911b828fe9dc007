//! Decision logic of the `agamc` driver: backend and toolchain selection,
//! build requests, paths of the driver's artifacts, project and file-name
//! normalization, call-cache selection and daemon status reporting.

pub mod backend;
pub mod call_cache;
pub mod paths;
pub mod names;
pub mod daemon;
pub mod repl;
pub mod toolchain;
pub mod requests;
pub mod profile;
pub mod annotations;
pub mod headless;
