//! Typed records from the textual output of a systemd-like service manager.
//!
//! The crate turns captured command output (status blocks, directive dumps
//! and unit-file listings) into values, and classifies process exit codes.
//! It never spawns a process itself.

pub mod directives;
pub mod doc;
pub mod error;
pub mod header;
pub mod kinds;
pub mod listing;
pub mod outcome;
pub mod status;
pub mod systemctl;
pub mod text;
pub mod unit;

pub use doc::Doc;
pub use error::CtlError;
pub use kinds::AutoStartStatus;
pub use kinds::State;
pub use kinds::Type;
pub use listing::UnitList;
pub use outcome::Outcome;
pub use outcome::RunResult;
pub use systemctl::SystemCtl;
pub use unit::Unit;
