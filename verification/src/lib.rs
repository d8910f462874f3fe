//! Inventory of globally installed packages: classify each install by
//! provenance, resolve the latest available registry version, and build the
//! command line that would update it.

pub mod bridge;
pub mod command;
pub mod errors;
pub mod expand;
pub mod inventory;
pub mod kind;
pub mod parse;
pub mod pkg;
pub mod resolve;
pub mod text;

pub use command::{parse_update_command, UpdateParts};
pub use errors::{Error, ErrorKind};
pub use expand::expanduser;
pub use inventory::{Crates, RawEntry, RegistryEntry};
pub use pkg::{Crate, RawCrate};
pub use resolve::{latest, VersionRecord};
pub use kind::{Kind, ALL_KINDS};
pub use parse::KeyParts;
