//! The cursor that walks the categories of a database and, within each, its
//! packages.

use crate::database::Database;
use crate::defs::Treesize;
use crate::error::EixError;
use crate::format::{
    lemma_list_stops, rendered, spec_category, spec_counted, spec_list, spec_package, version_item,
};
use crate::records::{
    with_rendered_version, DBHeader, HeaderView, Package, Version, VersionView,
};
use vstd::prelude::*;

verus! {

/// The state of a [`PackageReader`].
///
/// Before the first category is entered `packages_left` is zero and
/// `category` is empty. Within a category `packages_left` counts the
/// packages not read yet. The cursor is exhausted once `categories_left` and
/// `packages_left` are both zero.
pub struct ReaderView {
    /// The bytes of the database.
    pub bytes: Seq<u8>,
    /// The position of the next unread byte.
    pub offset: int,
    /// The header that every record is decoded against.
    pub header: HeaderView,
    /// How many categories have not been entered yet.
    pub categories_left: Treesize,
    /// How many packages of the current category have not been read yet.
    pub packages_left: Treesize,
    /// The name of the current category.
    pub category: Seq<char>,
}

/// Walks the categories and packages that follow the header of a database.
pub struct PackageReader {
    db: Database,
    header: DBHeader,
    frames: Treesize,
    cat_size: Treesize,
    cat_name: String,
}

impl View for PackageReader {
    type V = ReaderView;

    closed spec fn view(&self) -> ReaderView {
        ReaderView {
            bytes: self.db.bytes(),
            offset: self.db.offset(),
            header: self.header@,
            categories_left: self.frames,
            packages_left: self.cat_size,
            category: self.cat_name@,
        }
    }
}

/// The state after a category was entered that starts at the cursor of `v`
/// with the name `name` and `count` packages, and ends at `end`.
pub open spec fn entered(v: ReaderView, name: Seq<char>, count: Treesize, end: int) -> ReaderView {
    ReaderView {
        offset: end,
        categories_left: (v.categories_left - 1) as Treesize,
        packages_left: count,
        category: name,
        ..v
    }
}

/// The state after a package was read that ends at `end`.
pub open spec fn advanced(v: ReaderView, end: int) -> ReaderView {
    ReaderView { offset: end, packages_left: (v.packages_left - 1) as Treesize, ..v }
}

impl PackageReader {
    /// A cursor over what follows the header `header` in `db`: `db` stands
    /// right behind the header, and no category is entered yet.
    pub fn new(db: Database, header: DBHeader) -> (r: Self)
        ensures
            r@ == (ReaderView {
                bytes: db.bytes(),
                offset: db.offset(),
                header: header@,
                categories_left: header.size,
                packages_left: 0,
                category: Seq::empty(),
            }),
    {
        let frames = header.size;
        PackageReader { db, header, frames, cat_size: 0, cat_name: String::new() }
    }

    /// The header that the records are decoded against.
    pub fn header(&self) -> (h: &DBHeader)
        ensures
            h@ == self@.header,
    {
        &self.header
    }

    /// Moves to the next category. Returns `false`, and changes nothing, once
    /// every category has been entered.
    pub fn next_category(&mut self) -> (r: Result<bool, EixError>)
        ensures
            final(self)@.bytes == old(self)@.bytes,
            final(self)@.header == old(self)@.header,
            old(self)@.categories_left == 0 ==> r == Ok::<bool, EixError>(false) && final(self)@
                == old(self)@,
            old(self)@.categories_left != 0 ==> match spec_category(
                old(self)@.bytes,
                old(self)@.offset,
            ) {
                Ok(((name, count), end)) => r == Ok::<bool, EixError>(true) && final(self)@
                    == entered(old(self)@, name, count, end),
                Err(e) => r == Err::<bool, EixError>(e),
            },
    {
        if self.frames == 0 {
            return Ok(false);
        }
        let name = self.db.read_string()?;
        let count = #[verifier::truncate]
        (self.db.read_num()? as Treesize);
        self.cat_name = name;
        self.cat_size = count;
        self.frames = self.frames - 1;
        Ok(true)
    }

    /// The name of the current category.
    pub fn current_category(&self) -> (name: &str)
        ensures
            name@ == self@.category,
    {
        self.cat_name.as_str()
    }

    /// Reads the next package of the current category. Returns nothing, and
    /// changes nothing, once the category has no package left.
    #[verifier::loop_isolation(false)]
    pub fn read_package(&mut self) -> (r: Result<Option<Package>, EixError>)
        ensures
            final(self)@.bytes == old(self)@.bytes,
            final(self)@.header == old(self)@.header,
            old(self)@.packages_left == 0 ==> (r matches Ok(None)) && final(self)@ == old(self)@,
            old(self)@.packages_left != 0 ==> match spec_package(
                old(self)@.bytes,
                old(self)@.offset,
                old(self)@.header,
                old(self)@.category,
            ) {
                Ok((package, end)) => (r matches Ok(Some(p)) && p@ == package) && final(self)@
                    == advanced(old(self)@, end),
                Err(e) => (r matches Err(f) && f == e),
            },
    {
        if self.cat_size == 0 {
            return Ok(None);
        }
        proof {
            reveal(spec_counted);
        }
        let ghost s = self.db.bytes();
        let ghost hdr = self.header@;
        let _pkg_len = self.db.read_num()?;
        let name = self.db.read_string()?;
        let description = self.db.read_string()?;
        let homepage = self.db.read_string()?;
        let licenses = self.db.read_hash_string(&self.header.license_hash)?;
        let version_count = self.db.read_num()?;
        let ghost from = self.db.offset();
        let ghost mut raw: Seq<VersionView> = Seq::empty();
        let mut versions: Vec<Version> = Vec::new();
        assert(versions.deep_view() =~= rendered(raw));
        let mut i: u64 = 0;
        while i < version_count
            invariant
                self.db.bytes() == s,
                self.header == old(self).header,
                self.frames == old(self).frames,
                self.cat_size == old(self).cat_size,
                self.cat_name == old(self).cat_name,
                i <= version_count,
                versions.deep_view() == rendered(raw),
                spec_list(version_item(hdr), s, from, i as nat) == Ok::<_, EixError>(
                    (raw, self.db.offset()),
                ),
            decreases version_count - i,
        {
            let ghost before = versions.deep_view();
            proof {
                lemma_list_stops(version_item(hdr), s, from, (i + 1) as nat, version_count as nat);
            }
            let mut v = self.db.read_version(&self.header)?;
            let ghost bare = v@;
            v.version_string = v.get_full_version();
            versions.push(v);
            proof {
                assert(v@ == with_rendered_version(bare));
                assert(versions.deep_view() =~= before.push(v@));
                assert(rendered(raw.push(bare)) =~= rendered(raw).push(v@));
                raw = raw.push(bare);
            }
            i = i + 1;
        }
        self.cat_size = self.cat_size - 1;
        Ok(
            Some(
                Package {
                    name,
                    description,
                    homepage,
                    licenses,
                    versions,
                    category: self.cat_name.clone(),
                },
            ),
        )
    }
}

} // verus!
