//! Scalar type names and the fixed constants of the eix database format.

use vstd::prelude::*;

verus! {

/// A single byte of the stream.
pub type UChar = u8;

/// A number that the format keeps in 32 bits.
pub type UNumber = u32;

/// A number of categories.
pub type Catsize = u32;

/// A number of packages or of categories still to be read.
pub type Treesize = u32;

/// A distance in bytes within the stream.
pub type OffsetType = i64;

/// A version of the database format.
pub type DBVersion = u32;

/// Bitmask of the optional blocks that a database stores.
pub type SaveBitmask = UNumber;

/// No mask bit is set.
pub const MASK_NONE: u8 = 0x00;

/// Masked by a package mask.
pub const MASK_PACKAGE: u8 = 0x01;

/// Masked by the profile.
pub const MASK_PROFILE: u8 = 0x02;

/// Masked by a package mask or by the profile.
pub const MASK_HARD: u8 = MASK_PACKAGE | MASK_PROFILE;

/// Part of the system set.
pub const MASK_SYSTEM: u8 = 0x04;

/// Part of the world file.
pub const MASK_WORLD: u8 = 0x08;

/// Part of a world set.
pub const MASK_WORLD_SETS: u8 = 0x10;

/// Named by the profile. One of the two bits that mark a version as installed.
pub const MASK_IN_PROFILE: u8 = 0x20;

/// Marked. The other bit that marks a version as installed.
pub const MASK_MARKED: u8 = 0x40;

/// The byte that escapes a multi-byte number.
pub const MAGICNUMCHAR: u8 = 0xFF;

/// Every database starts with the bytes of "eix" and a line feed.
pub const DB_MAGIC: &'static [u8; 4] = &[0x65, 0x69, 0x78, 0x0A];

/// The newest database version this decoder knows.
pub const DB_VERSION_CURRENT: DBVersion = 39;

/// Dependency data is stored.
pub const SAVE_BITMASK_DEP: SaveBitmask = 0x01;

/// REQUIRED_USE data is stored.
pub const SAVE_BITMASK_REQUIRED_USE: SaveBitmask = 0x02;

/// SRC_URI data is stored.
pub const SAVE_BITMASK_SRC_URI: SaveBitmask = 0x04;

} // verus!
