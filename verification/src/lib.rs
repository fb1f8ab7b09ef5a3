//! Decoder for the binary package database that eix keeps for a Portage tree.
//!
//! The database is a single forward-only byte stream: a header with the
//! format version, the overlays and the string tables, followed by the
//! categories and their packages. Every length and every optional block is
//! announced by what precedes it, so the layout is described once, as
//! specification functions over a byte sequence, and each reader is proved to
//! compute exactly what that description says.

pub mod database;
pub mod defs;
pub mod encoding;
pub mod error;
pub mod format;
pub mod laws;
pub mod reader;
pub mod records;
pub mod string_hash;
pub mod text;
pub mod truncation;

pub use crate::database::Database;
pub use crate::defs::{
    Catsize, DBVersion, OffsetType, SaveBitmask, Treesize, UChar, UNumber, DB_MAGIC,
    DB_VERSION_CURRENT, MAGICNUMCHAR, MASK_HARD, MASK_IN_PROFILE, MASK_MARKED, MASK_NONE,
    MASK_PACKAGE, MASK_PROFILE, MASK_SYSTEM, MASK_WORLD, MASK_WORLD_SETS, SAVE_BITMASK_DEP,
    SAVE_BITMASK_REQUIRED_USE, SAVE_BITMASK_SRC_URI,
};
pub use crate::error::EixError;
pub use crate::reader::PackageReader;
pub use crate::records::{BasicPart, DBHeader, Depend, OverlayIdent, Package, PartType, Version};
pub use crate::string_hash::StringHash;
