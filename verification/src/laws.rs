//! What the format version of a header switches on and off in a version
//! record, and what holds of every index that a record stores.

use crate::error::EixError;
use crate::format::{
    fails, spec_counted, spec_depend, spec_eapi, spec_hash_string, spec_hash_words, spec_list,
    spec_num, spec_num_wide, spec_optional_words, spec_overlay_ref, spec_version,
    spec_version_head, word_item,
};
use crate::records::{DependView, HeaderView, OverlayView};
use vstd::prelude::*;

verus! {

/// Whether every string of `words` is an entry of `table`.
pub open spec fn all_from(words: Seq<Seq<char>>, table: Seq<Seq<char>>) -> bool {
    forall|i: int| 0 <= i < words.len() ==> table.contains(#[trigger] words[i])
}

/// Before version 36 a version record holds no EAPI: its first byte is the
/// mask byte, its EAPI is empty, and the table of EAPIs has no part in what
/// the record decodes to.
pub proof fn lemma_eapi_absent(s: Seq<u8>, pos: int, hdr: HeaderView, other: Seq<Seq<char>>)
    requires
        hdr.version < 36,
    ensures
        spec_eapi(s, pos, hdr) == Ok::<_, EixError>((Seq::<char>::empty(), pos)),
        spec_version(s, pos, hdr) == spec_version(s, pos, HeaderView { eapi_hash: other, ..hdr }),
        match spec_version(s, pos, hdr) {
            Ok((v, _)) => v.eapi == Seq::<char>::empty() && v.mask_flags == s[pos],
            Err(_) => true,
        },
{
    reveal(spec_version_head);
    reveal(spec_depend);
}

/// From version 36 on a version record starts with the index of its EAPI:
/// the index is read first, an index past the table is a `BadReference`, and
/// the mask byte is the byte behind the index.
pub proof fn lemma_eapi_present(s: Seq<u8>, pos: int, hdr: HeaderView)
    requires
        hdr.version >= 36,
    ensures
        match spec_num(s, pos) {
            Ok((i, p)) => {
                &&& pos < p
                &&& i >= hdr.eapi_hash.len() ==> fails(
                    spec_version(s, pos, hdr),
                    EixError::BadReference,
                )
                &&& match spec_version(s, pos, hdr) {
                    Ok((v, _)) => i < hdr.eapi_hash.len() && v.eapi == hdr.eapi_hash[i as int]
                        && v.mask_flags == s[p],
                    Err(_) => true,
                }
            },
            Err(e) => fails(spec_version(s, pos, hdr), e),
        },
{
    reveal(spec_num_wide);
    reveal(spec_version_head);
}

/// A version record holds dependencies exactly where the header announces
/// them, and nothing is read for them where it does not. Up to version 31
/// the build-host dependencies are empty, up to version 38 the install
/// dependencies.
pub proof fn lemma_depend_gate(s: Seq<u8>, pos: int, hdr: HeaderView)
    ensures
        match spec_depend(s, pos, hdr) {
            Ok((Some(d), _)) => {
                &&& hdr.use_depend
                &&& hdr.version <= 31 ==> d.bdepend == Seq::<Seq<char>>::empty()
                &&& hdr.version <= 38 ==> d.idepend == Seq::<Seq<char>>::empty()
            },
            Ok((None, end)) => !hdr.use_depend && end == pos,
            Err(_) => hdr.use_depend,
        },
{
    reveal(spec_depend);
}

/// After version 31 the build-host dependencies are read from the stream:
/// the dependencies decode as they do for an older header, and one more list
/// is read where the older decoding stops.
pub proof fn lemma_bdepend_read(s: Seq<u8>, pos: int, older: HeaderView, newer: HeaderView)
    requires
        older.use_depend,
        older.version <= 31,
        31 < newer.version <= 38,
        newer == (HeaderView { version: newer.version, ..older }),
    ensures
        match spec_depend(s, pos, older) {
            Ok((Some(d), p)) => spec_depend(s, pos, newer) == match spec_hash_words(
                s,
                p,
                older.depend_hash,
            ) {
                Ok((bdepend, q)) => Ok::<_, EixError>((Some(DependView { bdepend, ..d }), q)),
                Err(e) => Err(e),
            },
            Ok((None, _)) => false,
            Err(e) => fails(spec_depend(s, pos, newer), e),
        },
{
    reveal(spec_depend);
}

/// After version 38 the install dependencies are read from the stream: the
/// dependencies decode as they do for a header of version 32 to 38, and one
/// more list is read where that decoding stops.
pub proof fn lemma_idepend_read(s: Seq<u8>, pos: int, older: HeaderView, newer: HeaderView)
    requires
        older.use_depend,
        31 < older.version <= 38,
        38 < newer.version,
        newer == (HeaderView { version: newer.version, ..older }),
    ensures
        match spec_depend(s, pos, older) {
            Ok((Some(d), p)) => spec_depend(s, pos, newer) == match spec_hash_words(
                s,
                p,
                older.depend_hash,
            ) {
                Ok((idepend, q)) => Ok::<_, EixError>((Some(DependView { idepend, ..d }), q)),
                Err(e) => Err(e),
            },
            Ok((None, _)) => false,
            Err(e) => fails(spec_depend(s, pos, newer), e),
        },
{
    reveal(spec_depend);
}

/// An index past the end of its table is a `BadReference`, and a string that
/// was resolved is the entry at its index.
pub proof fn lemma_index_checked(s: Seq<u8>, pos: int, table: Seq<Seq<char>>)
    ensures
        match spec_num(s, pos) {
            Ok((i, p)) => if i < table.len() {
                spec_hash_string(s, pos, table) == Ok::<_, EixError>((table[i as int], p))
            } else {
                fails(spec_hash_string(s, pos, table), EixError::BadReference)
            },
            Err(e) => fails(spec_hash_string(s, pos, table), e),
        },
        spec_hash_string(s, pos, table) matches Ok((word, _)) ==> table.contains(word),
{
}

/// An overlay index past the end of the header's list is a `BadReference`.
pub proof fn lemma_overlay_checked(s: Seq<u8>, pos: int, overlays: Seq<OverlayView>)
    ensures
        match spec_num(s, pos) {
            Ok((key, p)) => if key < overlays.len() {
                spec_overlay_ref(s, pos, overlays) == Ok::<_, EixError>(
                    ((key, overlays[key as int]), p),
                )
            } else {
                fails(spec_overlay_ref(s, pos, overlays), EixError::BadReference)
            },
            Err(e) => fails(spec_overlay_ref(s, pos, overlays), e),
        },
{
}

/// A version record whose overlay index is past the end of the header's list
/// decodes to `BadReference`.
pub proof fn lemma_version_bad_overlay(s: Seq<u8>, pos: int, hdr: HeaderView)
    ensures
        match spec_version_head(s, pos, hdr) {
            Ok((_, at0)) => match spec_hash_string(s, at0, hdr.slot_hash) {
                Ok((_, at1)) => match spec_num(s, at1) {
                    Ok((key, _)) => key >= hdr.overlays.len() ==> fails(
                        spec_version(s, pos, hdr),
                        EixError::BadReference,
                    ),
                    Err(_) => true,
                },
                Err(_) => true,
            },
            Err(_) => true,
        },
{
}

/// Every word of a list of indexed strings is an entry of the table.
pub proof fn lemma_words_from_table(s: Seq<u8>, pos: int, table: Seq<Seq<char>>)
    ensures
        spec_hash_words(s, pos, table) matches Ok((words, _)) ==> all_from(words, table),
        forall|present: bool|
            (#[trigger] spec_optional_words(s, pos, present, table)) matches Ok((words, _))
                ==> all_from(words, table),
{
    reveal(spec_counted);
    if let Ok((n, p)) = spec_num(s, pos) {
        lemma_list_from_table(s, p, table, n as nat);
    }
}

/// Every item of a list of indexed strings is an entry of the table.
proof fn lemma_list_from_table(s: Seq<u8>, pos: int, table: Seq<Seq<char>>, n: nat)
    ensures
        spec_list(word_item(table), s, pos, n) matches Ok((words, _)) ==> all_from(words, table),
    decreases n,
{
    if n > 0 {
        lemma_list_from_table(s, pos, table, (n - 1) as nat);
    }
}

/// No index of a decoded version record was replaced by a default: the
/// overlay is the one at the stored index, and slot, EAPI, keywords, USE
/// flags, REQUIRED_USE and dependencies are entries of their tables.
pub proof fn lemma_version_references(s: Seq<u8>, pos: int, hdr: HeaderView)
    ensures
        spec_version(s, pos, hdr) matches Ok((v, _)) ==> {
            &&& v.overlay_key < hdr.overlays.len()
            &&& v.reponame == hdr.overlays[v.overlay_key as int].label
            &&& v.priority == hdr.overlays[v.overlay_key as int].priority
            &&& hdr.slot_hash.contains(v.slot)
            &&& hdr.version >= 36 ==> hdr.eapi_hash.contains(v.eapi)
            &&& all_from(v.keywords, hdr.keywords_hash)
            &&& all_from(v.iuse, hdr.iuse_hash)
            &&& all_from(v.required_use, hdr.iuse_hash)
            &&& v.depend matches Some(d) ==> {
                &&& all_from(d.depend, hdr.depend_hash)
                &&& all_from(d.rdepend, hdr.depend_hash)
                &&& all_from(d.pdepend, hdr.depend_hash)
                &&& all_from(d.bdepend, hdr.depend_hash)
                &&& all_from(d.idepend, hdr.depend_hash)
            }
        },
{
    reveal(spec_version_head);
    reveal(spec_depend);
    if let Ok((v, _)) = spec_version(s, pos, hdr) {
        let p_eapi = spec_eapi(s, pos, hdr)->Ok_0.1;
        let at3 = spec_num(s, p_eapi + 2)->Ok_0.1;
        lemma_words_from_table(s, at3, hdr.keywords_hash);
        let at0 = spec_version_head(s, pos, hdr)->Ok_0.1;
        let at1 = spec_hash_string(s, at0, hdr.slot_hash)->Ok_0.1;
        let at2 = spec_overlay_ref(s, at1, hdr.overlays)->Ok_0.1;
        lemma_words_from_table(s, at2, hdr.iuse_hash);
        let q3 = spec_hash_words(s, at2, hdr.iuse_hash)->Ok_0.1;
        lemma_words_from_table(s, q3, hdr.iuse_hash);
        let q4 = spec_optional_words(s, q3, hdr.use_required_use, hdr.iuse_hash)->Ok_0.1;
        if hdr.use_depend {
            let table = hdr.depend_hash;
            let d0 = spec_num(s, q4)->Ok_0.1;
            lemma_words_from_table(s, d0, table);
            let d1 = spec_hash_words(s, d0, table)->Ok_0.1;
            lemma_words_from_table(s, d1, table);
            let d2 = spec_hash_words(s, d1, table)->Ok_0.1;
            lemma_words_from_table(s, d2, table);
            let d3 = spec_hash_words(s, d2, table)->Ok_0.1;
            lemma_words_from_table(s, d3, table);
            let d4 = spec_optional_words(s, d3, hdr.version > 31, table)->Ok_0.1;
            lemma_words_from_table(s, d4, table);
        }
    }
}

} // verus!
