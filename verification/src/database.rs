//! The byte cursor over a database and the readers of its fields.

use crate::defs::{
    Catsize, DBVersion, SaveBitmask, UChar, DB_MAGIC, MAGICNUMCHAR, SAVE_BITMASK_DEP,
    SAVE_BITMASK_REQUIRED_USE, SAVE_BITMASK_SRC_URI,
};
use crate::error::EixError;
use crate::format::{
    be_fold, escape_run, lemma_list_stops, overlay_item, part_item, ranked, spec_counted,
    spec_depend, spec_depend_hash, spec_hash, spec_hash_string, spec_hash_words, spec_header,
    spec_list, spec_num, spec_num_wide, spec_optional_words, spec_overlays, spec_part,
    spec_preamble, spec_string, spec_strings, spec_tables, spec_text, spec_uchar, spec_version,
    spec_version_head, string_item, word_item, Parsed,
};
use crate::records::{BasicPart, DBHeader, Depend, OverlayIdent, PartType, PartView, Version};
use crate::string_hash::{table_of, StringHash};
use vstd::arithmetic::div_mod::{lemma_add_mod_noop, lemma_mul_mod_noop_left, lemma_small_mod};
use vstd::prelude::*;
use vstd::slice::{slice_subrange, slice_to_vec};
use vstd::utf8::encode_utf8_decode_utf8;

verus! {

/// Whether a reader that returned `r` and stopped at `end` did what the
/// format says: the value and the end where the field decodes, the same
/// error where it does not.
pub open spec fn yields<T: DeepView>(r: Result<T, EixError>, end: int, expected: Parsed<T::V>) -> bool {
    match expected {
        Ok((v, p)) => r matches Ok(x) && x.deep_view() == v && end == p,
        Err(e) => r matches Err(f) && f == e,
    }
}

/// Shifting a byte into a 64-bit number keeps the low 64 bits of the value
/// that the bytes read so far stand for.
proof fn lemma_fold_step(f: nat, r: u64, b: u8)
    requires
        r == f % 0x1_0000_0000_0000_0000,
    ensures
        ((r << 8) | (b as u64)) == (f * 256 + b) % 0x1_0000_0000_0000_0000,
{
    let m = 0x1_0000_0000_0000_0000int;
    let b64 = b as u64;
    assert(((r << 8) | b64) == (r * 256 + b64) % 0x1_0000_0000_0000_0000) by (bit_vector)
        requires
            b64 < 256,
    ;
    lemma_mul_mod_noop_left(f as int, 256, m);
    lemma_add_mod_noop((f * 256) as int, b as int, m);
    lemma_add_mod_noop((r * 256) as int, b as int, m);
}

/// A database held in memory, with the position of the next unread byte.
pub struct Database {
    data: Vec<u8>,
    pos: usize,
}

impl Database {
    /// The cursor never stands behind the end of the bytes.
    #[verifier::type_invariant]
    spec fn in_bounds(&self) -> bool {
        self.pos <= self.data@.len()
    }

    /// The bytes of the database.
    pub closed spec fn bytes(&self) -> Seq<u8> {
        self.data@
    }

    /// The position of the next unread byte.
    pub closed spec fn offset(&self) -> int {
        self.pos as int
    }

    /// A database over `data`, positioned at its first byte.
    pub fn from_bytes(data: Vec<u8>) -> (db: Self)
        ensures
            db.bytes() == data@,
            db.offset() == 0,
    {
        Database { data, pos: 0 }
    }

    /// The position of the next unread byte.
    pub fn position(&self) -> (p: usize)
        ensures
            p == self.offset(),
            p <= self.bytes().len(),
    {
        proof {
            use_type_invariant(self);
        }
        self.pos
    }

    /// Reads a single byte.
    pub fn read_uchar(&mut self) -> (r: Result<UChar, EixError>)
        ensures
            final(self).bytes() == old(self).bytes(),
            yields(r, final(self).offset(), spec_uchar(old(self).bytes(), old(self).offset())),
    {
        if self.pos < self.data.len() {
            let b = self.data[self.pos];
            self.pos = self.pos + 1;
            Ok(b)
        } else {
            Err(EixError::Truncated)
        }
    }

    /// Reads a number in the variable-length encoding of the format. A value
    /// wider than 64 bits loses its high bits.
    #[verifier::loop_isolation(false)]
    pub fn read_num(&mut self) -> (r: Result<u64, EixError>)
        ensures
            final(self).bytes() == old(self).bytes(),
            yields(r, final(self).offset(), spec_num(old(self).bytes(), old(self).offset())),
    {
        proof {
            reveal(spec_num_wide);
        }
        let ghost s = self.data@;
        let ghost start = self.pos as int;
        let ch = self.read_uchar()?;
        if ch != MAGICNUMCHAR {
            proof {
                lemma_small_mod(ch as nat, 0x1_0000_0000_0000_0000);
            }
            return Ok(ch as u64);
        }
        let mut to_get: usize = 1;
        let mut c = self.read_uchar()?;
        while c == MAGICNUMCHAR
            invariant
                self.data@ == s,
                0 <= start,
                1 <= to_get,
                self.pos == start + 1 + to_get,
                self.pos <= s.len(),
                c == s[self.pos - 1],
                s[start] == MAGICNUMCHAR,
                escape_run(s, start + 1) == (to_get - 1) + escape_run(s, self.pos - 1),
            decreases s.len() - self.pos,
        {
            to_get = to_get + 1;
            c = self.read_uchar()?;
        }
        let ghost lead = self.pos - 1;
        let mut result: u64;
        if c != 0 {
            result = c as u64;
        } else {
            result = MAGICNUMCHAR as u64;
            to_get = to_get - 1;
        }
        let ghost head = result as nat;
        proof {
            lemma_small_mod(head, 0x1_0000_0000_0000_0000);
        }
        let mut i: usize = 0;
        while i < to_get
            invariant
                self.data@ == s,
                0 <= start,
                lead == start + 1 + escape_run(s, start + 1),
                i <= to_get,
                self.pos == lead + 1 + i,
                self.pos <= s.len(),
                result == be_fold(s, lead + 1, i as nat, head) % 0x1_0000_0000_0000_0000,
            decreases to_get - i,
        {
            let byte = self.read_uchar()?;
            proof {
                lemma_fold_step(be_fold(s, lead + 1, i as nat, head), result, byte);
            }
            result = (result << 8) | (byte as u64);
            i = i + 1;
        }
        Ok(result)
    }

    /// Reads `len` bytes of text.
    fn read_text(&mut self, len: u64) -> (r: Result<String, EixError>)
        ensures
            final(self).bytes() == old(self).bytes(),
            yields(
                r,
                final(self).offset(),
                spec_text(old(self).bytes(), old(self).offset(), len as nat),
            ),
    {
        proof {
            use_type_invariant(&*self);
            reveal(spec_text);
        }
        let remaining = self.data.len() - self.pos;
        if len > remaining as u64 {
            return Err(EixError::Truncated);
        }
        let n = len as usize;
        let raw = slice_to_vec(slice_subrange(self.data.as_slice(), self.pos, self.pos + n));
        self.pos = self.pos + n;
        match String::from_utf8(raw) {
            Ok(text) => {
                proof {
                    encode_utf8_decode_utf8(text@);
                }
                Ok(text)
            },
            Err(_) => Err(EixError::InvalidEncoding),
        }
    }

    /// Reads a string: its length, then its text.
    pub fn read_string(&mut self) -> (r: Result<String, EixError>)
        ensures
            final(self).bytes() == old(self).bytes(),
            yields(r, final(self).offset(), spec_string(old(self).bytes(), old(self).offset())),
    {
        let len = self.read_num()?;
        self.read_text(len)
    }

    /// Reads an index and returns the string that `hash` holds there.
    pub fn read_hash_string(&mut self, hash: &StringHash) -> (r: Result<String, EixError>)
        ensures
            final(self).bytes() == old(self).bytes(),
            yields(
                r,
                final(self).offset(),
                spec_hash_string(old(self).bytes(), old(self).offset(), hash@),
            ),
    {
        let index = self.read_num()?;
        if index >= hash.len() as u64 {
            return Err(EixError::BadReference);
        }
        match hash.get_string(index as usize) {
            Some(text) => Ok(text.to_owned()),
            None => Err(EixError::BadReference),
        }
    }

    /// Reads a string table: the number of its strings, then the strings.
    #[verifier::loop_isolation(false)]
    pub fn read_hash(&mut self) -> (r: Result<StringHash, EixError>)
        ensures
            final(self).bytes() == old(self).bytes(),
            yields(r, final(self).offset(), spec_hash(old(self).bytes(), old(self).offset())),
    {
        proof {
            reveal(spec_counted);
        }
        let ghost s = self.data@;
        let count = self.read_num()?;
        let ghost from = self.pos as int;
        let ghost mut items: Seq<Seq<char>> = Seq::empty();
        let mut hash = StringHash::new();
        let mut i: u64 = 0;
        while i < count
            invariant
                self.data@ == s,
                i <= count,
                hash@ == table_of(items),
                spec_list(string_item(), s, from, i as nat) == Ok::<_, EixError>(
                    (items, self.pos as int),
                ),
            decreases count - i,
        {
            match self.read_string() {
                Ok(text) => {
                    proof {
                        let longer = items.push(text@);
                        assert(longer.drop_last() =~= items);
                        items = longer;
                    }
                    hash.add(text);
                },
                Err(e) => {
                    proof {
                        lemma_list_stops(string_item(), s, from, (i + 1) as nat, count as nat);
                    }
                    return Err(e);
                },
            }
            i = i + 1;
        }
        Ok(hash)
    }

    /// Reads a list of strings, each stored as its index in `hash`.
    #[verifier::loop_isolation(false)]
    pub fn read_hash_words(&mut self, hash: &StringHash) -> (r: Result<Vec<String>, EixError>)
        ensures
            final(self).bytes() == old(self).bytes(),
            yields(
                r,
                final(self).offset(),
                spec_hash_words(old(self).bytes(), old(self).offset(), hash@),
            ),
    {
        proof {
            reveal(spec_counted);
        }
        let ghost s = self.data@;
        let count = self.read_num()?;
        let ghost from = self.pos as int;
        let mut words: Vec<String> = Vec::new();
        assert(words.deep_view() =~= Seq::<Seq<char>>::empty());
        let mut i: u64 = 0;
        while i < count
            invariant
                self.data@ == s,
                i <= count,
                spec_list(word_item(hash@), s, from, i as nat) == Ok::<_, EixError>(
                    (words.deep_view(), self.pos as int),
                ),
            decreases count - i,
        {
            let ghost before = words.deep_view();
            match self.read_hash_string(hash) {
                Ok(word) => {
                    words.push(word);
                    assert(words.deep_view() =~= before.push(word@));
                },
                Err(e) => {
                    proof {
                        lemma_list_stops(word_item(hash@), s, from, (i + 1) as nat, count as nat);
                    }
                    return Err(e);
                },
            }
            i = i + 1;
        }
        Ok(words)
    }

    /// Reads one part of a version string.
    pub fn read_part(&mut self) -> (r: Result<BasicPart, EixError>)
        ensures
            final(self).bytes() == old(self).bytes(),
            yields(r, final(self).offset(), spec_part(old(self).bytes(), old(self).offset())),
    {
        let val = self.read_num()?;
        let part_type = PartType::from_u64(val % 32);
        let part_content = self.read_text(val / 32)?;
        Ok(BasicPart { part_type, part_content })
    }

    /// Reads the marker, the version of the format and the number of
    /// categories.
    fn read_preamble(&mut self, min_version: DBVersion) -> (r: Result<
        (DBVersion, Catsize),
        EixError,
    >)
        ensures
            final(self).bytes() == old(self).bytes(),
            yields(
                r,
                final(self).offset(),
                spec_preamble(old(self).bytes(), old(self).offset(), min_version),
            ),
    {
        proof {
            use_type_invariant(&*self);
            reveal(spec_preamble);
        }
        if self.data.len() - self.pos < 4 {
            return Err(EixError::Truncated);
        }
        let at = self.pos;
        let magic = DB_MAGIC;
        let same = self.data[at] == magic[0] && self.data[at + 1] == magic[1] && self.data[at
            + 2] == magic[2] && self.data[at + 3] == magic[3];
        self.pos = at + 4;
        if !same {
            return Err(EixError::BadMagic);
        }
        assert(self.data@.subrange(at as int, at + 4) =~= DB_MAGIC@);
        let version = #[verifier::truncate]
        (self.read_num()? as DBVersion);
        if version < min_version {
            return Err(EixError::UnsupportedVersion);
        }
        let size = #[verifier::truncate]
        (self.read_num()? as Catsize);
        Ok((version, size))
    }

    /// Reads the overlays of a header.
    #[verifier::loop_isolation(false)]
    fn read_overlays(&mut self) -> (r: Result<Vec<OverlayIdent>, EixError>)
        ensures
            final(self).bytes() == old(self).bytes(),
            yields(r, final(self).offset(), spec_overlays(old(self).bytes(), old(self).offset())),
    {
        proof {
            reveal(spec_counted);
        }
        let ghost s = self.data@;
        let count = self.read_num()?;
        let ghost from = self.pos as int;
        let ghost mut pairs: Seq<(Seq<char>, Seq<char>)> = Seq::empty();
        let mut overlays: Vec<OverlayIdent> = Vec::new();
        assert(overlays.deep_view() =~= ranked(pairs));
        let mut i: u64 = 0;
        while i < count
            invariant
                self.data@ == s,
                i <= count,
                pairs.len() == i,
                overlays.deep_view() == ranked(pairs),
                spec_list(overlay_item(), s, from, i as nat) == Ok::<_, EixError>(
                    (pairs, self.pos as int),
                ),
            decreases count - i,
        {
            proof {
                lemma_list_stops(overlay_item(), s, from, (i + 1) as nat, count as nat);
            }
            let ghost before = overlays.deep_view();
            let path = self.read_string()?;
            let label = self.read_string()?;
            let priority = #[verifier::truncate]
            (i as i32);
            let overlay = OverlayIdent { path, label, priority };
            overlays.push(overlay);
            proof {
                assert(overlays.deep_view() =~= before.push(overlay@));
                assert(ranked(pairs.push((path@, label@))) =~= ranked(pairs).push(overlay@));
                pairs = pairs.push((path@, label@));
            }
            i = i + 1;
        }
        Ok(overlays)
    }

    /// Reads a list of plain strings.
    #[verifier::loop_isolation(false)]
    fn read_strings(&mut self) -> (r: Result<Vec<String>, EixError>)
        ensures
            final(self).bytes() == old(self).bytes(),
            yields(r, final(self).offset(), spec_strings(old(self).bytes(), old(self).offset())),
    {
        proof {
            reveal(spec_counted);
        }
        let ghost s = self.data@;
        let count = self.read_num()?;
        let ghost from = self.pos as int;
        let mut items: Vec<String> = Vec::new();
        assert(items.deep_view() =~= Seq::<Seq<char>>::empty());
        let mut i: u64 = 0;
        while i < count
            invariant
                self.data@ == s,
                i <= count,
                spec_list(string_item(), s, from, i as nat) == Ok::<_, EixError>(
                    (items.deep_view(), self.pos as int),
                ),
            decreases count - i,
        {
            let ghost before = items.deep_view();
            proof {
                lemma_list_stops(string_item(), s, from, (i + 1) as nat, count as nat);
            }
            let item = self.read_string()?;
            items.push(item);
            assert(items.deep_view() =~= before.push(item@));
            i = i + 1;
        }
        Ok(items)
    }

    /// Reads the table of dependency strings where the header has one.
    fn read_depend_hash(&mut self, present: bool) -> (r: Result<StringHash, EixError>)
        ensures
            final(self).bytes() == old(self).bytes(),
            yields(
                r,
                final(self).offset(),
                spec_depend_hash(old(self).bytes(), old(self).offset(), present),
            ),
    {
        if present {
            let _skip = self.read_num()?;
            self.read_hash()
        } else {
            Ok(StringHash::new())
        }
    }

    /// Reads the header of the database. A database whose version is below
    /// `min_version` is refused.
    pub fn read_header(&mut self, min_version: DBVersion) -> (r: Result<DBHeader, EixError>)
        ensures
            final(self).bytes() == old(self).bytes(),
            yields(
                r,
                final(self).offset(),
                spec_header(old(self).bytes(), old(self).offset(), min_version),
            ),
    {
        proof {
            reveal(spec_tables);
        }
        let (version, size) = self.read_preamble(min_version)?;
        let overlays = self.read_overlays()?;
        let eapi_hash = self.read_hash()?;
        let license_hash = self.read_hash()?;
        let keywords_hash = self.read_hash()?;
        let iuse_hash = self.read_hash()?;
        let slot_hash = self.read_hash()?;
        let world_sets = self.read_strings()?;
        let bitmask = #[verifier::truncate]
        (self.read_num()? as SaveBitmask);
        let use_depend = (bitmask & SAVE_BITMASK_DEP) != 0;
        let use_required_use = (bitmask & SAVE_BITMASK_REQUIRED_USE) != 0;
        let use_src_uri = (bitmask & SAVE_BITMASK_SRC_URI) != 0;
        let depend_hash = self.read_depend_hash(use_depend)?;
        Ok(
            DBHeader {
                version,
                size,
                overlays,
                eapi_hash,
                license_hash,
                keywords_hash,
                iuse_hash,
                slot_hash,
                depend_hash,
                use_depend,
                use_required_use,
                use_src_uri,
                world_sets,
            },
        )
    }

    /// Reads the parts of a version string.
    #[verifier::loop_isolation(false)]
    fn read_parts(&mut self) -> (r: Result<Vec<BasicPart>, EixError>)
        ensures
            final(self).bytes() == old(self).bytes(),
            yields(
                r,
                final(self).offset(),
                spec_counted(part_item(), old(self).bytes(), old(self).offset()),
            ),
    {
        proof {
            reveal(spec_counted);
        }
        let ghost s = self.data@;
        let count = self.read_num()?;
        let ghost from = self.pos as int;
        let mut parts: Vec<BasicPart> = Vec::new();
        assert(parts.deep_view() =~= Seq::<PartView>::empty());
        let mut i: u64 = 0;
        while i < count
            invariant
                self.data@ == s,
                i <= count,
                spec_list(part_item(), s, from, i as nat) == Ok::<_, EixError>(
                    (parts.deep_view(), self.pos as int),
                ),
            decreases count - i,
        {
            let ghost before = parts.deep_view();
            proof {
                lemma_list_stops(part_item(), s, from, (i + 1) as nat, count as nat);
            }
            let part = self.read_part()?;
            parts.push(part);
            assert(parts.deep_view() =~= before.push(part@));
            i = i + 1;
        }
        Ok(parts)
    }

    /// Reads a list of indexed strings where the stream has one.
    fn read_optional_words(&mut self, present: bool, hash: &StringHash) -> (r: Result<
        Vec<String>,
        EixError,
    >)
        ensures
            final(self).bytes() == old(self).bytes(),
            yields(
                r,
                final(self).offset(),
                spec_optional_words(old(self).bytes(), old(self).offset(), present, hash@),
            ),
    {
        if present {
            self.read_hash_words(hash)
        } else {
            let none: Vec<String> = Vec::new();
            assert(none.deep_view() =~= Seq::<Seq<char>>::empty());
            Ok(none)
        }
    }

    /// Reads the dependencies of a version where the header announces them.
    fn read_depend(&mut self, hdr: &DBHeader) -> (r: Result<Option<Depend>, EixError>)
        ensures
            final(self).bytes() == old(self).bytes(),
            yields(
                r,
                final(self).offset(),
                spec_depend(old(self).bytes(), old(self).offset(), hdr@),
            ),
    {
        proof {
            reveal(spec_depend);
        }
        if !hdr.use_depend {
            return Ok(None);
        }
        let _skip = self.read_num()?;
        let depend = self.read_hash_words(&hdr.depend_hash)?;
        let rdepend = self.read_hash_words(&hdr.depend_hash)?;
        let pdepend = self.read_hash_words(&hdr.depend_hash)?;
        let bdepend = self.read_optional_words(hdr.version > 31, &hdr.depend_hash)?;
        let idepend = self.read_optional_words(hdr.version > 38, &hdr.depend_hash)?;
        Ok(Some(Depend { depend, rdepend, pdepend, bdepend, idepend }))
    }

    /// Reads one version record against the header `hdr`. The version string
    /// of the result is empty: `get_full_version` computes it.
    pub fn read_version(&mut self, hdr: &DBHeader) -> (r: Result<Version, EixError>)
        ensures
            final(self).bytes() == old(self).bytes(),
            yields(
                r,
                final(self).offset(),
                spec_version(old(self).bytes(), old(self).offset(), hdr@),
            ),
    {
        proof {
            reveal(spec_version_head);
        }
        let eapi = if hdr.version >= 36 {
            self.read_hash_string(&hdr.eapi_hash)?
        } else {
            String::new()
        };
        let mask_flags = self.read_uchar()?;
        let properties_flags = self.read_uchar()?;
        let restrict_flags = self.read_num()?;
        let keywords = self.read_hash_words(&hdr.keywords_hash)?;
        let parts = self.read_parts()?;
        let slot = self.read_hash_string(&hdr.slot_hash)?;
        let overlay_key = self.read_num()?;
        if overlay_key >= hdr.overlays.len() as u64 {
            return Err(EixError::BadReference);
        }
        let overlay = &hdr.overlays[overlay_key as usize];
        let reponame = overlay.label.clone();
        let priority = overlay.priority;
        let iuse = self.read_hash_words(&hdr.iuse_hash)?;
        let required_use = self.read_optional_words(hdr.use_required_use, &hdr.iuse_hash)?;
        let depend = self.read_depend(hdr)?;
        let src_uri = if hdr.use_src_uri {
            Some(self.read_string()?)
        } else {
            None
        };
        Ok(
            Version {
                version_string: String::new(),
                parts,
                eapi,
                mask_flags,
                properties_flags,
                restrict_flags,
                keywords,
                slot,
                overlay_key,
                reponame,
                priority,
                iuse,
                required_use,
                depend,
                src_uri,
            },
        )
    }
}

} // verus!
