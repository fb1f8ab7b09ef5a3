//! What a stream that was cut short decodes to.
//!
//! Every field is read from a start position to an end position and depends
//! on no byte outside that range. So a field decodes the same from any prefix
//! of the stream that still holds it whole, and from a prefix that ends
//! inside the field nothing but `Truncated` can come: neither another error
//! nor a value made of the bytes that were still there.

use crate::defs::{DBVersion, MAGICNUMCHAR, SAVE_BITMASK_DEP};
use crate::error::EixError;
use crate::format::{
    be_fold, escape_run, fails, feature, overlay_item, part_item, spec_category, spec_counted,
    spec_depend, spec_depend_hash, spec_eapi, spec_hash, spec_hash_string, spec_hash_words,
    spec_header, spec_list, spec_num, spec_num_wide, spec_optional_words, spec_overlay,
    spec_overlay_ref, spec_overlays, spec_package, spec_part, spec_preamble, spec_src_uri,
    spec_string, spec_strings, spec_tables, spec_text, spec_uchar, spec_version,
    spec_version_head, string_item, version_item, word_item, Item, Parsed,
};
use crate::records::{HeaderView, OverlayView};
use vstd::prelude::*;

verus! {

/// How the result `short` of decoding a field from the first `k` bytes of a
/// stream of `len` bytes relates to the result `whole` of decoding it from
/// the full stream, for a field that starts at `pos`. Where the full stream
/// holds the field, the field ends within the stream; a prefix that reaches
/// the end of the field gives the same value and the same end; a prefix that
/// ends inside the field gives `Truncated`.
pub open spec fn cut_short<T>(whole: Parsed<T>, short: Parsed<T>, pos: int, k: int, len: int) -> bool {
    whole matches Ok((_, end)) ==> {
        &&& pos <= end <= len
        &&& k >= end ==> short == whole
        &&& pos <= k < end ==> fails(short, EixError::Truncated)
    }
}

/// Whether every item that `item` decodes behaves as `cut_short` says.
pub open spec fn item_cut_short<T>(item: Item<T>) -> bool {
    forall|s: Seq<u8>, pos: int, k: int|
        0 <= pos <= s.len() && 0 <= k <= s.len() ==> cut_short(
            item(s, pos),
            #[trigger] item(s.take(k), pos),
            pos,
            k,
            s.len() as int,
        )
}

/// A byte is there in every prefix that reaches behind it.
pub proof fn lemma_uchar_cut(s: Seq<u8>, pos: int, k: int)
    requires
        0 <= pos <= s.len(),
        0 <= k <= s.len(),
    ensures
        cut_short(spec_uchar(s, pos), spec_uchar(s.take(k), pos), pos, k, s.len() as int),
{
}

/// A run of escape bytes ends within the stream, and a prefix sees the run up
/// to its own end.
proof fn lemma_escape_run_cut(s: Seq<u8>, pos: int, k: int)
    requires
        0 <= pos <= s.len(),
        0 <= k <= s.len(),
    ensures
        pos + escape_run(s, pos) <= s.len(),
        pos + escape_run(s, pos) < k ==> escape_run(s.take(k), pos) == escape_run(s, pos),
        pos <= k <= pos + escape_run(s, pos) ==> escape_run(s.take(k), pos) == k - pos,
    decreases s.len() - pos,
{
    if pos < s.len() && s[pos] == MAGICNUMCHAR {
        lemma_escape_run_cut(s, pos + 1, k);
    }
}

/// The value of a tail depends on the bytes of the tail alone.
proof fn lemma_be_fold_cut(s: Seq<u8>, pos: int, n: nat, head: nat, k: int)
    requires
        0 <= pos,
        pos + n <= k <= s.len(),
    ensures
        be_fold(s.take(k), pos, n, head) == be_fold(s, pos, n, head),
    decreases n,
{
    if n > 0 {
        lemma_be_fold_cut(s, pos, (n - 1) as nat, head, k);
    }
}

/// A number of any width reads the same from a prefix that holds all its bytes, and
/// is `Truncated` in a prefix that ends among them.
pub proof fn lemma_num_wide_cut(s: Seq<u8>, pos: int, k: int)
    requires
        0 <= pos <= s.len(),
        0 <= k <= s.len(),
    ensures
        cut_short(spec_num_wide(s, pos), spec_num_wide(s.take(k), pos), pos, k, s.len() as int),
{
    reveal(spec_num_wide);
    if pos < s.len() && s[pos] == MAGICNUMCHAR {
        lemma_escape_run_cut(s, pos + 1, k);
        let run = escape_run(s, pos + 1);
        let lead = pos + 1 + run;
        if lead < s.len() {
            let head: nat = if s[lead] != 0 {
                s[lead] as nat
            } else {
                MAGICNUMCHAR as nat
            };
            let tail: nat = if s[lead] != 0 {
                run + 1
            } else {
                run
            };
            if lead + 1 + tail <= k {
                lemma_be_fold_cut(s, lead + 1, tail, head, k);
            }
        }
    }
}

/// A number cut short is `Truncated`; one that is whole reads the same.
pub proof fn lemma_num_cut(s: Seq<u8>, pos: int, k: int)
    requires
        0 <= pos <= s.len(),
        0 <= k <= s.len(),
    ensures
        cut_short(spec_num(s, pos), spec_num(s.take(k), pos), pos, k, s.len() as int),
{
    lemma_num_wide_cut(s, pos, k);
}

/// A text is judged as UTF-8 only once all its bytes are there: a prefix that
/// ends inside it gives `Truncated`, never `InvalidEncoding`.
pub proof fn lemma_text_cut(s: Seq<u8>, pos: int, n: nat, k: int)
    requires
        0 <= pos <= s.len(),
        0 <= k <= s.len(),
    ensures
        cut_short(spec_text(s, pos, n), spec_text(s.take(k), pos, n), pos, k, s.len() as int),
{
    reveal(spec_text);
    if pos + n <= k {
        assert(s.take(k).subrange(pos, pos + n) =~= s.subrange(pos, pos + n));
    }
}

/// A string cut short is `Truncated`, whatever its bytes are.
pub proof fn lemma_string_cut(s: Seq<u8>, pos: int, k: int)
    requires
        0 <= pos <= s.len(),
        0 <= k <= s.len(),
    ensures
        cut_short(spec_string(s, pos), spec_string(s.take(k), pos), pos, k, s.len() as int),
{
    lemma_num_cut(s, pos, k);
    if let Ok((n, p)) = spec_num(s, pos) {
        lemma_text_cut(s, p, n as nat, k);
    }
}

/// An index is looked up only once it was read whole: a prefix that ends inside
/// it gives `Truncated`, never `BadReference`.
pub proof fn lemma_hash_string_cut(s: Seq<u8>, pos: int, table: Seq<Seq<char>>, k: int)
    requires
        0 <= pos <= s.len(),
        0 <= k <= s.len(),
    ensures
        cut_short(
            spec_hash_string(s, pos, table),
            spec_hash_string(s.take(k), pos, table),
            pos,
            k,
            s.len() as int,
        ),
{
    lemma_num_cut(s, pos, k);
}

/// A list behaves as its items do.
pub proof fn lemma_list_cut<T>(item: Item<T>, s: Seq<u8>, pos: int, n: nat, k: int)
    requires
        item_cut_short(item),
        0 <= pos <= s.len(),
        0 <= k <= s.len(),
    ensures
        cut_short(
            spec_list(item, s, pos, n),
            spec_list(item, s.take(k), pos, n),
            pos,
            k,
            s.len() as int,
        ),
    decreases n,
{
    if n > 0 {
        lemma_list_cut(item, s, pos, (n - 1) as nat, k);
        if let Ok((items, p)) = spec_list(item, s, pos, (n - 1) as nat) {
            assert(cut_short(item(s, p), item(s.take(k), p), p, k, s.len() as int));
        }
    }
}

/// A list behind its count behaves as its items do.
pub proof fn lemma_counted_cut<T>(item: Item<T>, s: Seq<u8>, pos: int, k: int)
    requires
        item_cut_short(item),
        0 <= pos <= s.len(),
        0 <= k <= s.len(),
    ensures
        cut_short(
            spec_counted(item, s, pos),
            spec_counted(item, s.take(k), pos),
            pos,
            k,
            s.len() as int,
        ),
{
    reveal(spec_counted);
    lemma_num_cut(s, pos, k);
    if let Ok((n, p)) = spec_num(s, pos) {
        lemma_list_cut(item, s, p, n as nat, k);
    }
}

/// Strings are items that behave as `cut_short` says.
pub proof fn lemma_string_item_cut()
    ensures
        item_cut_short(string_item()),
{
    assert forall|s: Seq<u8>, pos: int, k: int|
        0 <= pos <= s.len() && 0 <= k <= s.len() implies cut_short(
        string_item()(s, pos),
        #[trigger] string_item()(s.take(k), pos),
        pos,
        k,
        s.len() as int,
    ) by {
        lemma_string_cut(s, pos, k);
    }
}

/// Indexed strings are items that behave as `cut_short` says.
pub proof fn lemma_word_item_cut(table: Seq<Seq<char>>)
    ensures
        item_cut_short(word_item(table)),
{
    assert forall|s: Seq<u8>, pos: int, k: int|
        0 <= pos <= s.len() && 0 <= k <= s.len() implies cut_short(
        word_item(table)(s, pos),
        #[trigger] word_item(table)(s.take(k), pos),
        pos,
        k,
        s.len() as int,
    ) by {
        lemma_hash_string_cut(s, pos, table, k);
    }
}

/// A list of strings cut short is `Truncated`.
pub proof fn lemma_strings_cut(s: Seq<u8>, pos: int, k: int)
    requires
        0 <= pos <= s.len(),
        0 <= k <= s.len(),
    ensures
        cut_short(spec_strings(s, pos), spec_strings(s.take(k), pos), pos, k, s.len() as int),
{
    lemma_string_item_cut();
    lemma_counted_cut(string_item(), s, pos, k);
}

/// A string table cut short is `Truncated`.
pub proof fn lemma_hash_cut(s: Seq<u8>, pos: int, k: int)
    requires
        0 <= pos <= s.len(),
        0 <= k <= s.len(),
    ensures
        cut_short(spec_hash(s, pos), spec_hash(s.take(k), pos), pos, k, s.len() as int),
{
    lemma_strings_cut(s, pos, k);
}

/// A list of indexed strings cut short is `Truncated`.
pub proof fn lemma_hash_words_cut(s: Seq<u8>, pos: int, table: Seq<Seq<char>>, k: int)
    requires
        0 <= pos <= s.len(),
        0 <= k <= s.len(),
    ensures
        cut_short(
            spec_hash_words(s, pos, table),
            spec_hash_words(s.take(k), pos, table),
            pos,
            k,
            s.len() as int,
        ),
{
    lemma_word_item_cut(table);
    lemma_counted_cut(word_item(table), s, pos, k);
}

/// A list that the stream may leave out, cut short, is `Truncated`; one that is
/// left out takes no bytes, so no prefix ends inside it.
pub proof fn lemma_optional_words_cut(
    s: Seq<u8>,
    pos: int,
    present: bool,
    table: Seq<Seq<char>>,
    k: int,
)
    requires
        0 <= pos <= s.len(),
        0 <= k <= s.len(),
    ensures
        cut_short(
            spec_optional_words(s, pos, present, table),
            spec_optional_words(s.take(k), pos, present, table),
            pos,
            k,
            s.len() as int,
        ),
{
    lemma_hash_words_cut(s, pos, table, k);
}

/// A part of a version cut short is `Truncated`.
pub proof fn lemma_part_cut(s: Seq<u8>, pos: int, k: int)
    requires
        0 <= pos <= s.len(),
        0 <= k <= s.len(),
    ensures
        cut_short(spec_part(s, pos), spec_part(s.take(k), pos), pos, k, s.len() as int),
{
    lemma_num_cut(s, pos, k);
    if let Ok((val, p)) = spec_num(s, pos) {
        lemma_text_cut(s, p, (val / 32) as nat, k);
    }
}

/// Parts are items that behave as `cut_short` says.
pub proof fn lemma_part_item_cut()
    ensures
        item_cut_short(part_item()),
{
    assert forall|s: Seq<u8>, pos: int, k: int|
        0 <= pos <= s.len() && 0 <= k <= s.len() implies cut_short(
        part_item()(s, pos),
        #[trigger] part_item()(s.take(k), pos),
        pos,
        k,
        s.len() as int,
    ) by {
        lemma_part_cut(s, pos, k);
    }
}

/// The two strings of an overlay, cut short, are `Truncated`.
pub proof fn lemma_overlay_cut(s: Seq<u8>, pos: int, k: int)
    requires
        0 <= pos <= s.len(),
        0 <= k <= s.len(),
    ensures
        cut_short(spec_overlay(s, pos), spec_overlay(s.take(k), pos), pos, k, s.len() as int),
{
    lemma_string_cut(s, pos, k);
    if let Ok((_, p)) = spec_string(s, pos) {
        lemma_string_cut(s, p, k);
    }
}

/// Overlays are items that behave as `cut_short` says.
pub proof fn lemma_overlay_item_cut()
    ensures
        item_cut_short(overlay_item()),
{
    assert forall|s: Seq<u8>, pos: int, k: int|
        0 <= pos <= s.len() && 0 <= k <= s.len() implies cut_short(
        overlay_item()(s, pos),
        #[trigger] overlay_item()(s.take(k), pos),
        pos,
        k,
        s.len() as int,
    ) by {
        lemma_overlay_cut(s, pos, k);
    }
}

/// The overlays of a header, cut short, are `Truncated`.
pub proof fn lemma_overlays_cut(s: Seq<u8>, pos: int, k: int)
    requires
        0 <= pos <= s.len(),
        0 <= k <= s.len(),
    ensures
        cut_short(spec_overlays(s, pos), spec_overlays(s.take(k), pos), pos, k, s.len() as int),
{
    lemma_overlay_item_cut();
    lemma_counted_cut(overlay_item(), s, pos, k);
}

/// The start of a header is compared with the marker only once four bytes are
/// there: a prefix shorter than the marker gives `Truncated`, never `BadMagic`.
pub proof fn lemma_preamble_cut(s: Seq<u8>, pos: int, min_version: DBVersion, k: int)
    requires
        0 <= pos <= s.len(),
        0 <= k <= s.len(),
    ensures
        cut_short(
            spec_preamble(s, pos, min_version),
            spec_preamble(s.take(k), pos, min_version),
            pos,
            k,
            s.len() as int,
        ),
{
    reveal(spec_preamble);
    if pos + 4 <= s.len() {
        if pos + 4 <= k {
            assert(s.take(k).subrange(pos, pos + 4) =~= s.subrange(pos, pos + 4));
        }
        lemma_num_cut(s, pos + 4, k);
        if let Ok((_, p)) = spec_num(s, pos + 4) {
            lemma_num_cut(s, p, k);
        }
    }
}

/// The table of dependency strings, cut short, is `Truncated`.
pub proof fn lemma_depend_hash_cut(s: Seq<u8>, pos: int, present: bool, k: int)
    requires
        0 <= pos <= s.len(),
        0 <= k <= s.len(),
    ensures
        cut_short(
            spec_depend_hash(s, pos, present),
            spec_depend_hash(s.take(k), pos, present),
            pos,
            k,
            s.len() as int,
        ),
{
    lemma_num_cut(s, pos, k);
    if let Ok((_, p)) = spec_num(s, pos) {
        lemma_hash_cut(s, p, k);
    }
}

/// The five tables of a header, cut short, are `Truncated`.
pub proof fn lemma_tables_cut(s: Seq<u8>, pos: int, k: int)
    requires
        0 <= pos <= s.len(),
        0 <= k <= s.len(),
    ensures
        cut_short(spec_tables(s, pos), spec_tables(s.take(k), pos), pos, k, s.len() as int),
{
    reveal(spec_tables);
    lemma_hash_cut(s, pos, k);
    if let Ok((_, at1)) = spec_hash(s, pos) {
        lemma_hash_cut(s, at1, k);
        if let Ok((_, at2)) = spec_hash(s, at1) {
            lemma_hash_cut(s, at2, k);
            if let Ok((_, at3)) = spec_hash(s, at2) {
                lemma_hash_cut(s, at3, k);
                if let Ok((_, at4)) = spec_hash(s, at3) {
                    lemma_hash_cut(s, at4, k);
                }
            }
        }
    }
}

/// A header cut short is `Truncated`: from no proper prefix of the bytes of
/// a header does a header come, nor any other error.
pub proof fn lemma_header_cut(s: Seq<u8>, pos: int, min_version: DBVersion, k: int)
    requires
        0 <= pos <= s.len(),
        0 <= k <= s.len(),
    ensures
        cut_short(
            spec_header(s, pos, min_version),
            spec_header(s.take(k), pos, min_version),
            pos,
            k,
            s.len() as int,
        ),
{
    lemma_preamble_cut(s, pos, min_version, k);
    if let Ok((_, at0)) = spec_preamble(s, pos, min_version) {
        lemma_overlays_cut(s, at0, k);
        if let Ok((_, at1)) = spec_overlays(s, at0) {
            lemma_tables_cut(s, at1, k);
            if let Ok((_, at2)) = spec_tables(s, at1) {
                lemma_strings_cut(s, at2, k);
                if let Ok((_, at3)) = spec_strings(s, at2) {
                    lemma_num_cut(s, at3, k);
                    if let Ok((mask, at4)) = spec_num(s, at3) {
                        lemma_depend_hash_cut(s, at4, feature(mask, SAVE_BITMASK_DEP), k);
                    }
                }
            }
        }
    }
}

/// The EAPI of a version, cut short, is `Truncated`.
pub proof fn lemma_eapi_cut(s: Seq<u8>, pos: int, hdr: HeaderView, k: int)
    requires
        0 <= pos <= s.len(),
        0 <= k <= s.len(),
    ensures
        cut_short(spec_eapi(s, pos, hdr), spec_eapi(s.take(k), pos, hdr), pos, k, s.len() as int),
{
    lemma_hash_string_cut(s, pos, hdr.eapi_hash, k);
}

/// The overlay index of a version, cut short, is `Truncated`.
pub proof fn lemma_overlay_ref_cut(s: Seq<u8>, pos: int, overlays: Seq<OverlayView>, k: int)
    requires
        0 <= pos <= s.len(),
        0 <= k <= s.len(),
    ensures
        cut_short(
            spec_overlay_ref(s, pos, overlays),
            spec_overlay_ref(s.take(k), pos, overlays),
            pos,
            k,
            s.len() as int,
        ),
{
    lemma_num_cut(s, pos, k);
}

/// The dependencies of a version, cut short, are `Truncated`.
pub proof fn lemma_depend_cut(s: Seq<u8>, pos: int, hdr: HeaderView, k: int)
    requires
        0 <= pos <= s.len(),
        0 <= k <= s.len(),
    ensures
        cut_short(
            spec_depend(s, pos, hdr),
            spec_depend(s.take(k), pos, hdr),
            pos,
            k,
            s.len() as int,
        ),
{
    reveal(spec_depend);
    let table = hdr.depend_hash;
    lemma_num_cut(s, pos, k);
    if let Ok((_, at0)) = spec_num(s, pos) {
        lemma_hash_words_cut(s, at0, table, k);
        if let Ok((_, at1)) = spec_hash_words(s, at0, table) {
            lemma_hash_words_cut(s, at1, table, k);
            if let Ok((_, at2)) = spec_hash_words(s, at1, table) {
                lemma_hash_words_cut(s, at2, table, k);
                if let Ok((_, at3)) = spec_hash_words(s, at2, table) {
                    lemma_optional_words_cut(s, at3, hdr.version > 31, table, k);
                    if let Ok((_, at4)) = spec_optional_words(s, at3, hdr.version > 31, table) {
                        lemma_optional_words_cut(s, at4, hdr.version > 38, table, k);
                    }
                }
            }
        }
    }
}

/// The source URI of a version, cut short, is `Truncated`.
pub proof fn lemma_src_uri_cut(s: Seq<u8>, pos: int, hdr: HeaderView, k: int)
    requires
        0 <= pos <= s.len(),
        0 <= k <= s.len(),
    ensures
        cut_short(
            spec_src_uri(s, pos, hdr),
            spec_src_uri(s.take(k), pos, hdr),
            pos,
            k,
            s.len() as int,
        ),
{
    lemma_string_cut(s, pos, k);
}

/// The first fields of a version record, cut short, are `Truncated`.
pub proof fn lemma_version_head_cut(s: Seq<u8>, pos: int, hdr: HeaderView, k: int)
    requires
        0 <= pos <= s.len(),
        0 <= k <= s.len(),
    ensures
        cut_short(
            spec_version_head(s, pos, hdr),
            spec_version_head(s.take(k), pos, hdr),
            pos,
            k,
            s.len() as int,
        ),
{
    reveal(spec_version_head);
    lemma_eapi_cut(s, pos, hdr, k);
    if let Ok((_, at0)) = spec_eapi(s, pos, hdr) {
        lemma_uchar_cut(s, at0, k);
        if let Ok((_, at1)) = spec_uchar(s, at0) {
            lemma_uchar_cut(s, at1, k);
            if let Ok((_, at2)) = spec_uchar(s, at1) {
                lemma_num_cut(s, at2, k);
                if let Ok((_, at3)) = spec_num(s, at2) {
                    lemma_hash_words_cut(s, at3, hdr.keywords_hash, k);
                    if let Ok((_, at4)) = spec_hash_words(s, at3, hdr.keywords_hash) {
                        lemma_part_item_cut();
                        lemma_counted_cut(part_item(), s, at4, k);
                    }
                }
            }
        }
    }
}

/// A version record cut short is `Truncated`: no version is made of the
/// fields that were still there.
pub proof fn lemma_version_cut(s: Seq<u8>, pos: int, hdr: HeaderView, k: int)
    requires
        0 <= pos <= s.len(),
        0 <= k <= s.len(),
    ensures
        cut_short(
            spec_version(s, pos, hdr),
            spec_version(s.take(k), pos, hdr),
            pos,
            k,
            s.len() as int,
        ),
{
    lemma_version_head_cut(s, pos, hdr, k);
    if let Ok((_, at0)) = spec_version_head(s, pos, hdr) {
        lemma_hash_string_cut(s, at0, hdr.slot_hash, k);
        if let Ok((_, at1)) = spec_hash_string(s, at0, hdr.slot_hash) {
            lemma_overlay_ref_cut(s, at1, hdr.overlays, k);
            if let Ok((_, at2)) = spec_overlay_ref(s, at1, hdr.overlays) {
                lemma_hash_words_cut(s, at2, hdr.iuse_hash, k);
                if let Ok((_, at3)) = spec_hash_words(s, at2, hdr.iuse_hash) {
                    lemma_optional_words_cut(s, at3, hdr.use_required_use, hdr.iuse_hash, k);
                    if let Ok((_, at4)) = spec_optional_words(
                        s,
                        at3,
                        hdr.use_required_use,
                        hdr.iuse_hash,
                    ) {
                        lemma_depend_cut(s, at4, hdr, k);
                        if let Ok((_, at5)) = spec_depend(s, at4, hdr) {
                            lemma_src_uri_cut(s, at5, hdr, k);
                        }
                    }
                }
            }
        }
    }
}

/// Version records are items that behave as `cut_short` says.
pub proof fn lemma_version_item_cut(hdr: HeaderView)
    ensures
        item_cut_short(version_item(hdr)),
{
    assert forall|s: Seq<u8>, pos: int, k: int|
        0 <= pos <= s.len() && 0 <= k <= s.len() implies cut_short(
        version_item(hdr)(s, pos),
        #[trigger] version_item(hdr)(s.take(k), pos),
        pos,
        k,
        s.len() as int,
    ) by {
        lemma_version_cut(s, pos, hdr, k);
    }
}

/// The start of a category cut short is `Truncated`.
pub proof fn lemma_category_cut(s: Seq<u8>, pos: int, k: int)
    requires
        0 <= pos <= s.len(),
        0 <= k <= s.len(),
    ensures
        cut_short(spec_category(s, pos), spec_category(s.take(k), pos), pos, k, s.len() as int),
{
    lemma_string_cut(s, pos, k);
    if let Ok((_, p)) = spec_string(s, pos) {
        lemma_num_cut(s, p, k);
    }
}

/// A package cut short is `Truncated`: no package comes out with fewer
/// versions than the stream announced, nor with any field left empty.
pub proof fn lemma_package_cut(
    s: Seq<u8>,
    pos: int,
    hdr: HeaderView,
    category: Seq<char>,
    k: int,
)
    requires
        0 <= pos <= s.len(),
        0 <= k <= s.len(),
    ensures
        cut_short(
            spec_package(s, pos, hdr, category),
            spec_package(s.take(k), pos, hdr, category),
            pos,
            k,
            s.len() as int,
        ),
{
    lemma_num_cut(s, pos, k);
    if let Ok((_, at0)) = spec_num(s, pos) {
        lemma_string_cut(s, at0, k);
        if let Ok((_, at1)) = spec_string(s, at0) {
            lemma_string_cut(s, at1, k);
            if let Ok((_, at2)) = spec_string(s, at1) {
                lemma_string_cut(s, at2, k);
                if let Ok((_, at3)) = spec_string(s, at2) {
                    lemma_hash_string_cut(s, at3, hdr.license_hash, k);
                    if let Ok((_, at4)) = spec_hash_string(s, at3, hdr.license_hash) {
                        lemma_version_item_cut(hdr);
                        lemma_counted_cut(version_item(hdr), s, at4, k);
                    }
                }
            }
        }
    }
}

} // verus!
