//! The layout of the database, as specification functions.
//!
//! Each function here takes the bytes of the stream and the position at which
//! a field starts, and says what the field holds and where the next one
//! starts, or why the field cannot be decoded. The readers of `Database` and
//! `PackageReader` are proved to return exactly these results.

use crate::defs::{
    Catsize, DBVersion, SaveBitmask, Treesize, DB_MAGIC, MAGICNUMCHAR, SAVE_BITMASK_DEP,
    SAVE_BITMASK_REQUIRED_USE, SAVE_BITMASK_SRC_URI,
};
use crate::error::EixError;
use crate::records::{
    with_rendered_version, DependView, HeaderView, OverlayView, PackageView, PartType, PartView,
    VersionView,
};
use crate::string_hash::table_of;
use vstd::prelude::*;
use vstd::utf8::{decode_utf8, valid_utf8};

verus! {

/// What decoding one field gives: its value and the position after it, or the
/// reason why it cannot be decoded.
pub type Parsed<T> = Result<(T, int), EixError>;

/// Whether a field cannot be decoded, for the reason `e`.
pub open spec fn fails<T>(r: Parsed<T>, e: EixError) -> bool {
    r == Err::<(T, int), EixError>(e)
}

/// A decoder of one item of a list.
pub type Item<T> = spec_fn(Seq<u8>, int) -> Parsed<T>;

/// One byte.
pub open spec fn spec_uchar(s: Seq<u8>, pos: int) -> Parsed<u8> {
    if 0 <= pos < s.len() {
        Ok((s[pos], pos + 1))
    } else {
        Err(EixError::Truncated)
    }
}

/// How many bytes from `pos` on are the escape byte, one after the other.
pub open spec fn escape_run(s: Seq<u8>, pos: int) -> nat
    decreases s.len() - pos,
{
    if 0 <= pos < s.len() && s[pos] == MAGICNUMCHAR {
        1 + escape_run(s, pos + 1)
    } else {
        0
    }
}

/// The number whose most significant digits are those of `head` and whose
/// following base-256 digits are the `n` bytes from `pos` on.
pub open spec fn be_fold(s: Seq<u8>, pos: int, n: nat, head: nat) -> nat
    decreases n,
{
    if n == 0 {
        head
    } else {
        be_fold(s, pos, (n - 1) as nat, head) * 256 + s[pos + n - 1] as nat
    }
}

/// A number in the variable-length encoding of the format, with its full
/// value however wide it is.
///
/// A byte other than the escape byte is the number itself. An escape byte
/// opens a longer form: the escape bytes that follow it each add one byte to
/// the tail, then comes the leading byte of the value, then the tail. A
/// leading byte of zero stands for a leading 255 and shortens the tail by one
/// byte.
#[verifier::opaque]
pub open spec fn spec_num_wide(s: Seq<u8>, pos: int) -> Parsed<nat> {
    if !(0 <= pos < s.len()) {
        Err(EixError::Truncated)
    } else if s[pos] != MAGICNUMCHAR {
        Ok((s[pos] as nat, pos + 1))
    } else {
        let run = escape_run(s, pos + 1);
        let lead = pos + 1 + run;
        if lead >= s.len() {
            Err(EixError::Truncated)
        } else {
            let head: nat = if s[lead] != 0 {
                s[lead] as nat
            } else {
                MAGICNUMCHAR as nat
            };
            let tail: nat = if s[lead] != 0 {
                run + 1
            } else {
                run
            };
            if lead + 1 + tail > s.len() {
                Err(EixError::Truncated)
            } else {
                Ok((be_fold(s, lead + 1, tail, head), lead + 1 + tail))
            }
        }
    }
}

/// A number as the readers return it: the low 64 bits of its value.
pub open spec fn spec_num(s: Seq<u8>, pos: int) -> Parsed<u64> {
    match spec_num_wide(s, pos) {
        Ok((v, p)) => Ok(((v % 0x1_0000_0000_0000_0000) as u64, p)),
        Err(e) => Err(e),
    }
}

/// A text of `n` bytes of UTF-8.
#[verifier::opaque]
pub open spec fn spec_text(s: Seq<u8>, pos: int, n: nat) -> Parsed<Seq<char>> {
    if !(0 <= pos && pos + n <= s.len()) {
        Err(EixError::Truncated)
    } else if !valid_utf8(s.subrange(pos, pos + n)) {
        Err(EixError::InvalidEncoding)
    } else {
        Ok((decode_utf8(s.subrange(pos, pos + n)), pos + n))
    }
}

/// A string: its length in bytes, then its text.
pub open spec fn spec_string(s: Seq<u8>, pos: int) -> Parsed<Seq<char>> {
    match spec_num(s, pos) {
        Ok((n, p)) => spec_text(s, p, n as nat),
        Err(e) => Err(e),
    }
}

/// A string stored as its index in `table`.
pub open spec fn spec_hash_string(s: Seq<u8>, pos: int, table: Seq<Seq<char>>) -> Parsed<
    Seq<char>,
> {
    match spec_num(s, pos) {
        Ok((i, p)) => if i < table.len() {
            Ok((table[i as int], p))
        } else {
            Err(EixError::BadReference)
        },
        Err(e) => Err(e),
    }
}

/// `n` items, one after the other.
pub open spec fn spec_list<T>(item: Item<T>, s: Seq<u8>, pos: int, n: nat) -> Parsed<Seq<T>>
    decreases n,
{
    if n == 0 {
        Ok((Seq::empty(), pos))
    } else {
        match spec_list(item, s, pos, (n - 1) as nat) {
            Ok((items, p)) => match item(s, p) {
                Ok((x, q)) => Ok((items.push(x), q)),
                Err(e) => Err(e),
            },
            Err(e) => Err(e),
        }
    }
}

/// A list: the number of its items, then the items.
#[verifier::opaque]
pub open spec fn spec_counted<T>(item: Item<T>, s: Seq<u8>, pos: int) -> Parsed<Seq<T>> {
    match spec_num(s, pos) {
        Ok((n, p)) => spec_list(item, s, p, n as nat),
        Err(e) => Err(e),
    }
}

/// The item decoder of a list of strings.
pub open spec fn string_item() -> Item<Seq<char>> {
    |s: Seq<u8>, pos: int| spec_string(s, pos)
}

/// The item decoder of a list of indices into `table`.
pub open spec fn word_item(table: Seq<Seq<char>>) -> Item<Seq<char>> {
    |s: Seq<u8>, pos: int| spec_hash_string(s, pos, table)
}

/// A list of plain strings.
pub open spec fn spec_strings(s: Seq<u8>, pos: int) -> Parsed<Seq<Seq<char>>> {
    spec_counted(string_item(), s, pos)
}

/// A string table: a list of strings, each added to the table in turn.
pub open spec fn spec_hash(s: Seq<u8>, pos: int) -> Parsed<Seq<Seq<char>>> {
    match spec_strings(s, pos) {
        Ok((items, p)) => Ok((table_of(items), p)),
        Err(e) => Err(e),
    }
}

/// A list of strings, each stored as its index in `table`.
pub open spec fn spec_hash_words(s: Seq<u8>, pos: int, table: Seq<Seq<char>>) -> Parsed<
    Seq<Seq<char>>,
> {
    spec_counted(word_item(table), s, pos)
}

/// A list of indexed strings that the stream holds only where `present`.
pub open spec fn spec_optional_words(
    s: Seq<u8>,
    pos: int,
    present: bool,
    table: Seq<Seq<char>>,
) -> Parsed<Seq<Seq<char>>> {
    if present {
        spec_hash_words(s, pos, table)
    } else {
        Ok((Seq::empty(), pos))
    }
}

/// One part of a version: a number that holds the kind of the part in its
/// remainder by 32 and the length of the text in its quotient, then the text.
pub open spec fn spec_part(s: Seq<u8>, pos: int) -> Parsed<PartView> {
    match spec_num(s, pos) {
        Ok((val, p)) => match spec_text(s, p, (val / 32) as nat) {
            Ok((content, q)) => Ok(
                (PartView { part_type: PartType::of_code((val % 32) as nat), content }, q),
            ),
            Err(e) => Err(e),
        },
        Err(e) => Err(e),
    }
}

/// The item decoder of the parts of a version.
pub open spec fn part_item() -> Item<PartView> {
    |s: Seq<u8>, pos: int| spec_part(s, pos)
}

/// The two strings of one overlay: its path and its label.
pub open spec fn spec_overlay(s: Seq<u8>, pos: int) -> Parsed<(Seq<char>, Seq<char>)> {
    match spec_string(s, pos) {
        Ok((path, p)) => match spec_string(s, p) {
            Ok((label, q)) => Ok(((path, label), q)),
            Err(e) => Err(e),
        },
        Err(e) => Err(e),
    }
}

/// The item decoder of the overlays of a header.
pub open spec fn overlay_item() -> Item<(Seq<char>, Seq<char>)> {
    |s: Seq<u8>, pos: int| spec_overlay(s, pos)
}

/// The overlays that a list of paths and labels stands for: the priority of
/// each is its position in the list.
pub open spec fn ranked(pairs: Seq<(Seq<char>, Seq<char>)>) -> Seq<OverlayView> {
    Seq::new(
        pairs.len(),
        |i: int| OverlayView { path: pairs[i].0, label: pairs[i].1, priority: i as i32 },
    )
}

/// The overlays of a header.
pub open spec fn spec_overlays(s: Seq<u8>, pos: int) -> Parsed<Seq<OverlayView>> {
    match spec_counted(overlay_item(), s, pos) {
        Ok((pairs, p)) => Ok((ranked(pairs), p)),
        Err(e) => Err(e),
    }
}

/// The start of a header: the marker, the version of the format and the
/// number of categories. A version below `min_version` is refused.
#[verifier::opaque]
pub open spec fn spec_preamble(s: Seq<u8>, pos: int, min_version: DBVersion) -> Parsed<
    (DBVersion, Catsize),
> {
    if !(0 <= pos && pos + 4 <= s.len()) {
        Err(EixError::Truncated)
    } else if s.subrange(pos, pos + 4) != DB_MAGIC@ {
        Err(EixError::BadMagic)
    } else {
        match spec_num(s, pos + 4) {
            Ok((version, p)) => if (version as DBVersion) < min_version {
                Err(EixError::UnsupportedVersion)
            } else {
                match spec_num(s, p) {
                    Ok((size, q)) => Ok(((version as DBVersion, size as Catsize), q)),
                    Err(e) => Err(e),
                }
            },
            Err(e) => Err(e),
        }
    }
}

/// The table of dependency strings: where the header announces dependency
/// data, a number that is skipped and the table; else an empty table and
/// nothing read.
pub open spec fn spec_depend_hash(s: Seq<u8>, pos: int, present: bool) -> Parsed<Seq<Seq<char>>> {
    if present {
        match spec_num(s, pos) {
            Ok((_skip, p)) => spec_hash(s, p),
            Err(e) => Err(e),
        }
    } else {
        Ok((Seq::empty(), pos))
    }
}

/// Whether `bit` is set in the feature mask that the header stores as `mask`.
pub open spec fn feature(mask: u64, bit: SaveBitmask) -> bool {
    ((mask as SaveBitmask) & bit) != 0
}

/// The five string tables that every header holds.
pub struct Tables {
    pub eapi_hash: Seq<Seq<char>>,
    pub license_hash: Seq<Seq<char>>,
    pub keywords_hash: Seq<Seq<char>>,
    pub iuse_hash: Seq<Seq<char>>,
    pub slot_hash: Seq<Seq<char>>,
}

/// The tables of EAPIs, licenses, keywords, USE flags and slots, in this
/// order.
#[verifier::opaque]
pub open spec fn spec_tables(s: Seq<u8>, pos: int) -> Parsed<Tables> {
    match spec_hash(s, pos) {
        Err(e) => Err(e),
        Ok((eapi_hash, at1)) => match spec_hash(s, at1) {
            Err(e) => Err(e),
            Ok((license_hash, at2)) => match spec_hash(s, at2) {
                Err(e) => Err(e),
                Ok((keywords_hash, at3)) => match spec_hash(s, at3) {
                    Err(e) => Err(e),
                    Ok((iuse_hash, at4)) => match spec_hash(s, at4) {
                        Err(e) => Err(e),
                        Ok((slot_hash, at5)) => Ok(
                            (
                                Tables {
                                    eapi_hash,
                                    license_hash,
                                    keywords_hash,
                                    iuse_hash,
                                    slot_hash,
                                },
                                at5,
                            ),
                        ),
                    },
                },
            },
        },
    }
}

/// The header of a database, in the order of the stream: marker, version,
/// number of categories, overlays, the tables of EAPIs, licenses, keywords,
/// USE flags and slots, the world sets, the feature mask, and the table of
/// dependency strings where the mask announces one.
pub open spec fn spec_header(s: Seq<u8>, pos: int, min_version: DBVersion) -> Parsed<HeaderView> {
    match spec_preamble(s, pos, min_version) {
        Err(e) => Err(e),
        Ok((start, at0)) => match spec_overlays(s, at0) {
            Err(e) => Err(e),
            Ok((overlays, at1)) => match spec_tables(s, at1) {
                Err(e) => Err(e),
                Ok((tables, at2)) => match spec_strings(s, at2) {
                    Err(e) => Err(e),
                    Ok((world_sets, at3)) => match spec_num(s, at3) {
                        Err(e) => Err(e),
                        Ok((mask, at4)) => match spec_depend_hash(
                            s,
                            at4,
                            feature(mask, SAVE_BITMASK_DEP),
                        ) {
                            Err(e) => Err(e),
                            Ok((depend_hash, at5)) => Ok(
                                (
                                    HeaderView {
                                        version: start.0,
                                        size: start.1,
                                        overlays,
                                        eapi_hash: tables.eapi_hash,
                                        license_hash: tables.license_hash,
                                        keywords_hash: tables.keywords_hash,
                                        iuse_hash: tables.iuse_hash,
                                        slot_hash: tables.slot_hash,
                                        depend_hash,
                                        use_depend: feature(mask, SAVE_BITMASK_DEP),
                                        use_required_use: feature(
                                            mask,
                                            SAVE_BITMASK_REQUIRED_USE,
                                        ),
                                        use_src_uri: feature(mask, SAVE_BITMASK_SRC_URI),
                                        world_sets,
                                    },
                                    at5,
                                ),
                            ),
                        },
                    },
                },
            },
        },
    }
}

/// The EAPI of a version: an index into the table of EAPIs from version 36
/// of the format on; before that the empty string, and nothing read.
pub open spec fn spec_eapi(s: Seq<u8>, pos: int, hdr: HeaderView) -> Parsed<Seq<char>> {
    if hdr.version >= 36 {
        spec_hash_string(s, pos, hdr.eapi_hash)
    } else {
        Ok((Seq::empty(), pos))
    }
}

/// The overlay of a version: its index in the header's list, and the overlay
/// found there.
pub open spec fn spec_overlay_ref(s: Seq<u8>, pos: int, overlays: Seq<OverlayView>) -> Parsed<
    (u64, OverlayView),
> {
    match spec_num(s, pos) {
        Ok((key, p)) => if key < overlays.len() {
            Ok(((key, overlays[key as int]), p))
        } else {
            Err(EixError::BadReference)
        },
        Err(e) => Err(e),
    }
}

/// The dependencies of a version, where the header announces them: a number
/// that is skipped, then the build, run and post dependencies, then the
/// build-host dependencies after version 31 of the format and the install
/// dependencies after version 38.
#[verifier::opaque]
pub open spec fn spec_depend(s: Seq<u8>, pos: int, hdr: HeaderView) -> Parsed<Option<DependView>> {
    if !hdr.use_depend {
        Ok((None, pos))
    } else {
        match spec_num(s, pos) {
            Err(e) => Err(e),
            Ok((_skip, at0)) => match spec_hash_words(s, at0, hdr.depend_hash) {
                Err(e) => Err(e),
                Ok((depend, at1)) => match spec_hash_words(s, at1, hdr.depend_hash) {
                    Err(e) => Err(e),
                    Ok((rdepend, at2)) => match spec_hash_words(s, at2, hdr.depend_hash) {
                        Err(e) => Err(e),
                        Ok((pdepend, at3)) => match spec_optional_words(
                            s,
                            at3,
                            hdr.version > 31,
                            hdr.depend_hash,
                        ) {
                            Err(e) => Err(e),
                            Ok((bdepend, at4)) => match spec_optional_words(
                                s,
                                at4,
                                hdr.version > 38,
                                hdr.depend_hash,
                            ) {
                                Err(e) => Err(e),
                                Ok((idepend, at5)) => Ok(
                                    (
                                        Some(
                                            DependView {
                                                depend,
                                                rdepend,
                                                pdepend,
                                                bdepend,
                                                idepend,
                                            },
                                        ),
                                        at5,
                                    ),
                                ),
                            },
                        },
                    },
                },
            },
        }
    }
}

/// The source URI of a version, where the header announces it.
pub open spec fn spec_src_uri(s: Seq<u8>, pos: int, hdr: HeaderView) -> Parsed<Option<Seq<char>>> {
    if hdr.use_src_uri {
        match spec_string(s, pos) {
            Ok((uri, p)) => Ok((Some(uri), p)),
            Err(e) => Err(e),
        }
    } else {
        Ok((None, pos))
    }
}

/// The fields of a version that every format version stores, up to the parts
/// of the version string.
pub struct VersionHead {
    pub eapi: Seq<char>,
    pub mask_flags: u8,
    pub properties_flags: u8,
    pub restrict_flags: u64,
    pub keywords: Seq<Seq<char>>,
    pub parts: Seq<PartView>,
}

/// The first fields of a version record: EAPI, mask byte, properties byte,
/// restrict flags, keywords and the parts of the version string.
#[verifier::opaque]
pub open spec fn spec_version_head(s: Seq<u8>, pos: int, hdr: HeaderView) -> Parsed<VersionHead> {
    match spec_eapi(s, pos, hdr) {
        Err(e) => Err(e),
        Ok((eapi, at0)) => match spec_uchar(s, at0) {
            Err(e) => Err(e),
            Ok((mask_flags, at1)) => match spec_uchar(s, at1) {
                Err(e) => Err(e),
                Ok((properties_flags, at2)) => match spec_num(s, at2) {
                    Err(e) => Err(e),
                    Ok((restrict_flags, at3)) => match spec_hash_words(s, at3, hdr.keywords_hash) {
                        Err(e) => Err(e),
                        Ok((keywords, at4)) => match spec_counted(part_item(), s, at4) {
                            Err(e) => Err(e),
                            Ok((parts, at5)) => Ok(
                                (
                                    VersionHead {
                                        eapi,
                                        mask_flags,
                                        properties_flags,
                                        restrict_flags,
                                        keywords,
                                        parts,
                                    },
                                    at5,
                                ),
                            ),
                        },
                    },
                },
            },
        },
    }
}

/// One version record, decoded against the header `hdr`: the first fields,
/// then slot, overlay, USE flags, and REQUIRED_USE, dependencies and source
/// URI where the header announces them. The version string is left empty.
pub open spec fn spec_version(s: Seq<u8>, pos: int, hdr: HeaderView) -> Parsed<VersionView> {
    match spec_version_head(s, pos, hdr) {
        Err(e) => Err(e),
        Ok((head, at0)) => match spec_hash_string(s, at0, hdr.slot_hash) {
            Err(e) => Err(e),
            Ok((slot, at1)) => match spec_overlay_ref(s, at1, hdr.overlays) {
                Err(e) => Err(e),
                Ok((overlay, at2)) => match spec_hash_words(s, at2, hdr.iuse_hash) {
                    Err(e) => Err(e),
                    Ok((iuse, at3)) => match spec_optional_words(
                        s,
                        at3,
                        hdr.use_required_use,
                        hdr.iuse_hash,
                    ) {
                        Err(e) => Err(e),
                        Ok((required_use, at4)) => match spec_depend(s, at4, hdr) {
                            Err(e) => Err(e),
                            Ok((depend, at5)) => match spec_src_uri(s, at5, hdr) {
                                Err(e) => Err(e),
                                Ok((src_uri, at6)) => Ok(
                                    (
                                        VersionView {
                                            version_string: Seq::empty(),
                                            parts: head.parts,
                                            eapi: head.eapi,
                                            mask_flags: head.mask_flags,
                                            properties_flags: head.properties_flags,
                                            restrict_flags: head.restrict_flags,
                                            keywords: head.keywords,
                                            slot,
                                            overlay_key: overlay.0,
                                            reponame: overlay.1.label,
                                            priority: overlay.1.priority,
                                            iuse,
                                            required_use,
                                            depend,
                                            src_uri,
                                        },
                                        at6,
                                    ),
                                ),
                            },
                        },
                    },
                },
            },
        },
    }
}

/// The versions `versions`, each with its version string rendered.
pub open spec fn rendered(versions: Seq<VersionView>) -> Seq<VersionView> {
    versions.map_values(|v: VersionView| with_rendered_version(v))
}

/// The item decoder of the versions of a package.
pub open spec fn version_item(hdr: HeaderView) -> Item<VersionView> {
    |s: Seq<u8>, pos: int| spec_version(s, pos, hdr)
}

/// The start of a category: its name and the number of its packages.
pub open spec fn spec_category(s: Seq<u8>, pos: int) -> Parsed<(Seq<char>, Treesize)> {
    match spec_string(s, pos) {
        Ok((name, p)) => match spec_num(s, p) {
            Ok((count, q)) => Ok(((name, count as Treesize), q)),
            Err(e) => Err(e),
        },
        Err(e) => Err(e),
    }
}

/// One package of the category `category`: a number that is skipped, name,
/// description, homepage, the license as an index into the table of
/// licenses, and the versions, each with its version string rendered.
pub open spec fn spec_package(s: Seq<u8>, pos: int, hdr: HeaderView, category: Seq<char>) -> Parsed<
    PackageView,
> {
    match spec_num(s, pos) {
        Err(e) => Err(e),
        Ok((_skip, at0)) => match spec_string(s, at0) {
            Err(e) => Err(e),
            Ok((name, at1)) => match spec_string(s, at1) {
                Err(e) => Err(e),
                Ok((description, at2)) => match spec_string(s, at2) {
                    Err(e) => Err(e),
                    Ok((homepage, at3)) => match spec_hash_string(s, at3, hdr.license_hash) {
                        Err(e) => Err(e),
                        Ok((licenses, at4)) => match spec_counted(version_item(hdr), s, at4) {
                            Err(e) => Err(e),
                            Ok((versions, at5)) => Ok(
                                (
                                    PackageView {
                                        category,
                                        name,
                                        description,
                                        homepage,
                                        licenses,
                                        versions: rendered(versions),
                                    },
                                    at5,
                                ),
                            ),
                        },
                    },
                },
            },
        },
    }
}

/// Once an item of a list cannot be decoded, no longer list can be.
pub proof fn lemma_list_stops<T>(item: Item<T>, s: Seq<u8>, pos: int, i: nat, n: nat)
    requires
        i <= n,
    ensures
        spec_list(item, s, pos, i) is Err ==> spec_list(item, s, pos, n) == spec_list(
            item,
            s,
            pos,
            i,
        ),
    decreases n,
{
    if i < n {
        lemma_list_stops(item, s, pos, i, (n - 1) as nat);
    }
}

} // verus!
