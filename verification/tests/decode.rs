use eix::{
    BasicPart, DBHeader, Database, EixError, OverlayIdent, PackageReader, PartType, StringHash,
    Version,
};

fn num(v: u64) -> Vec<u8> {
    if v < 0xFF {
        return vec![v as u8];
    }
    let digits: Vec<u8> = v.to_be_bytes().iter().copied().skip_while(|b| *b == 0).collect();
    let mut out = Vec::new();
    if digits[0] == 0xFF {
        out.extend(std::iter::repeat(0xFF).take(digits.len()));
        out.push(0x00);
        out.extend_from_slice(&digits[1..]);
    } else {
        out.extend(std::iter::repeat(0xFF).take(digits.len() - 1));
        out.extend_from_slice(&digits);
    }
    out
}

fn text(s: &str) -> Vec<u8> {
    let mut out = num(s.len() as u64);
    out.extend_from_slice(s.as_bytes());
    out
}

fn list(items: &[&str]) -> Vec<u8> {
    let mut out = num(items.len() as u64);
    for item in items {
        out.extend(text(item));
    }
    out
}

fn words(indices: &[u64]) -> Vec<u8> {
    let mut out = num(indices.len() as u64);
    for index in indices {
        out.extend(num(*index));
    }
    out
}

fn part(kind: u64, content: &str) -> Vec<u8> {
    let mut out = num(content.len() as u64 * 32 + kind);
    out.extend_from_slice(content.as_bytes());
    out
}

fn table(items: &[&str]) -> StringHash {
    let mut t = StringHash::new();
    for item in items {
        t.add(item.to_string());
    }
    t
}

fn header(version: u32, depend: bool, required_use: bool, src_uri: bool) -> DBHeader {
    DBHeader {
        version,
        size: 0,
        overlays: vec![
            OverlayIdent { path: "/usr/portage".to_string(), label: "gentoo".to_string(), priority: 0 },
            OverlayIdent { path: "/var/local".to_string(), label: "local".to_string(), priority: 1 },
        ],
        eapi_hash: table(&["7", "8"]),
        license_hash: table(&["GPL-2", "MIT"]),
        keywords_hash: table(&["amd64", "~arm64"]),
        iuse_hash: table(&["ssl", "doc", "test"]),
        slot_hash: table(&["", "2"]),
        depend_hash: table(&["dev-libs/a", "dev-libs/b", "dev-libs/c"]),
        use_depend: depend,
        use_required_use: required_use,
        use_src_uri: src_uri,
        world_sets: vec![],
    }
}

/// The fields of a version record behind the EAPI, without the optional
/// blocks: mask 0x20, properties 3, restrict 0x1234, keywords [amd64],
/// parts 1 .2, slot "2", overlay 1, USE flags [ssl, test].
fn version_body() -> Vec<u8> {
    let mut out = vec![0x20, 0x03];
    out.extend(num(0x1234));
    out.extend(words(&[0]));
    out.extend(num(2));
    out.extend(part(10, "1"));
    out.extend(part(9, "2"));
    out.extend(num(1));
    out.extend(num(1));
    out.extend(words(&[0, 2]));
    out
}

/// Version 39, no overlays, no world sets, feature mask 0, and one category
/// with one package that has no versions. The string tables are empty, but
/// for the licenses where `licenses` is given.
fn minimal_stream(licenses: &[&str]) -> Vec<u8> {
    let mut s = b"eix\n".to_vec();
    s.extend(num(39));
    s.extend(num(1));
    s.extend(num(0));
    s.extend(num(0));
    s.extend(list(licenses));
    for _ in 0..3 {
        s.extend(num(0));
    }
    s.extend(num(0));
    s.extend(num(0));
    s.extend(text("app-misc"));
    s.extend(num(1));
    s.extend(num(0));
    s.extend(text("hello"));
    s.extend(text("says hello"));
    s.extend(text("https://example.org"));
    s.extend(num(0));
    s.extend(num(0));
    s
}

fn full_stream() -> Vec<u8> {
    let mut s = b"eix\n".to_vec();
    s.extend(num(39));
    s.extend(num(2));
    s.extend(num(2));
    s.extend(text("/usr/portage"));
    s.extend(text("gentoo"));
    s.extend(text("/var/local"));
    s.extend(text("local"));
    s.extend(list(&["7", "8"]));
    s.extend(list(&["GPL-2", "MIT", "GPL-2"]));
    s.extend(list(&["amd64", "~arm64"]));
    s.extend(list(&["ssl", "doc", "test"]));
    s.extend(list(&["", "2"]));
    s.extend(list(&["@system", "@world"]));
    s.extend(num(0x07));
    s.extend(num(99));
    s.extend(list(&["dev-libs/a", "dev-libs/b", "dev-libs/c"]));
    // first category: one package with one version
    s.extend(text("app-misc"));
    s.extend(num(1));
    s.extend(num(1234));
    s.extend(text("hello"));
    s.extend(text("says hello"));
    s.extend(text("https://example.org"));
    s.extend(num(1));
    s.extend(num(1));
    s.extend(num(1));
    s.extend(version_body());
    s.extend(words(&[1]));
    s.extend(num(55));
    s.extend(words(&[0]));
    s.extend(words(&[1]));
    s.extend(words(&[]));
    s.extend(words(&[2]));
    s.extend(words(&[0, 1]));
    s.extend(text("https://example.org/hello-1.2.tar.gz"));
    // second category: empty
    s.extend(text("virtual"));
    s.extend(num(0));
    s
}

/// Decodes a whole stream; the packages, or the first error.
fn decode_all(bytes: Vec<u8>) -> Result<Vec<eix::Package>, EixError> {
    let mut db = Database::from_bytes(bytes);
    let header = db.read_header(31)?;
    let mut reader = PackageReader::new(db, header);
    let mut packages = Vec::new();
    while reader.next_category()? {
        while let Some(package) = reader.read_package()? {
            packages.push(package);
        }
    }
    Ok(packages)
}

#[test]
fn varint_single_bytes_are_themselves() {
    for v in 0u64..255 {
        let mut db = Database::from_bytes(vec![v as u8, 0xAA]);
        assert_eq!(db.read_num(), Ok(v));
        assert_eq!(db.position(), 1);
    }
}

#[test]
fn varint_round_trip_of_the_encoder() {
    let values = [
        0u64, 254, 255, 256, 0x1FF, 0xFEFF, 0xFF00, 0xFF01, 0x10000, 0xABCDEF, 0xFFABCD,
        0x01ABCDEF, 0xFFFF_FFFF, 0x1_0000_0000, u64::MAX - 1, u64::MAX,
    ];
    for v in values {
        let bytes = num(v);
        let len = bytes.len();
        let mut db = Database::from_bytes(bytes);
        assert_eq!(db.read_num(), Ok(v));
        assert_eq!(db.position(), len);
    }
}

#[test]
fn varint_named_encodings() {
    assert_eq!(num(254), vec![0xFE]);
    assert_eq!(num(255), vec![0xFF, 0x00]);
    assert_eq!(num(256), vec![0xFF, 0x01, 0x00]);
    assert_eq!(num(0xFF00), vec![0xFF, 0xFF, 0x00, 0x00]);
}

#[test]
fn varint_wider_than_64_bits_keeps_low_bits() {
    // nine digits: 0x01 followed by eight digits
    let mut bytes = vec![0xFF; 8];
    bytes.extend_from_slice(&[0x01, 0x11, 0x22, 0x33, 0x44, 0x55, 0x66, 0x77, 0x88]);
    let mut db = Database::from_bytes(bytes);
    assert_eq!(db.read_num(), Ok(0x1122_3344_5566_7788));
    assert_eq!(db.position(), 17);
}

#[test]
fn varint_truncated_in_every_place() {
    let bytes = vec![0xFF, 0xFF, 0xFF, 0x01, 0xAB, 0xCD, 0xEF];
    for cut in 0..bytes.len() {
        let mut db = Database::from_bytes(bytes[..cut].to_vec());
        assert_eq!(db.read_num(), Err(EixError::Truncated));
    }
    let mut db = Database::from_bytes(Vec::new());
    assert_eq!(db.read_uchar(), Err(EixError::Truncated));
}

#[test]
fn read_uchar_advances_by_one() {
    let mut db = Database::from_bytes(vec![7, 0xFF]);
    assert_eq!(db.read_uchar(), Ok(7));
    assert_eq!(db.read_uchar(), Ok(0xFF));
    assert_eq!(db.position(), 2);
    assert_eq!(db.read_uchar(), Err(EixError::Truncated));
}

#[test]
fn read_string_decodes_utf8() {
    let mut bytes = text("caf\u{e9} \u{4e16}\u{754c}");
    bytes.extend(text(""));
    let mut db = Database::from_bytes(bytes);
    let s = db.read_string().unwrap();
    assert_eq!(s, "caf\u{e9} \u{4e16}\u{754c}");
    assert_eq!(s.chars().count(), 7);
    assert_eq!(db.position(), 13);
    assert_eq!(db.read_string(), Ok(String::new()));
    assert_eq!(db.position(), 14);
}

#[test]
fn read_string_rejects_bad_utf8() {
    let mut db = Database::from_bytes(vec![2, 0xC3, 0x28]);
    assert_eq!(db.read_string(), Err(EixError::InvalidEncoding));
    let mut db = Database::from_bytes(vec![1, 0x80]);
    assert_eq!(db.read_string(), Err(EixError::InvalidEncoding));
}

#[test]
fn read_string_short_of_bytes_is_truncated() {
    let mut db = Database::from_bytes(vec![3, b'a', b'b']);
    assert_eq!(db.read_string(), Err(EixError::Truncated));
    // a length far beyond the stream, with bytes that are no UTF-8
    let mut bytes = num(u64::MAX);
    bytes.push(0x80);
    let mut db = Database::from_bytes(bytes);
    assert_eq!(db.read_string(), Err(EixError::Truncated));
}

#[test]
fn read_hash_string_resolves_index() {
    let t = table(&["a", "b", "c"]);
    let mut db = Database::from_bytes(vec![2, 0, 3]);
    assert_eq!(db.read_hash_string(&t), Ok("c".to_string()));
    assert_eq!(db.read_hash_string(&t), Ok("a".to_string()));
    assert_eq!(db.read_hash_string(&t), Err(EixError::BadReference));
}

#[test]
fn read_hash_string_index_equal_to_len_is_bad_reference() {
    let empty = StringHash::new();
    let mut db = Database::from_bytes(vec![0]);
    assert_eq!(db.read_hash_string(&empty), Err(EixError::BadReference));
    let t = table(&["a"]);
    let mut db = Database::from_bytes(num(u64::MAX));
    assert_eq!(db.read_hash_string(&t), Err(EixError::BadReference));
}

#[test]
fn read_hash_merges_repeated_strings() {
    let mut db = Database::from_bytes(list(&["x", "y", "x", "z", "y"]));
    let t = db.read_hash().ok().unwrap();
    assert_eq!(t.len(), 3);
    assert_eq!(t.get_string(0), Some("x"));
    assert_eq!(t.get_string(1), Some("y"));
    assert_eq!(t.get_string(2), Some("z"));
    assert_eq!(t.get_index("z"), Some(2));
}

#[test]
fn read_hash_words_resolves_each_index() {
    let t = table(&["a", "b", "c"]);
    let mut db = Database::from_bytes(words(&[2, 2, 0]));
    assert_eq!(
        db.read_hash_words(&t),
        Ok(vec!["c".to_string(), "c".to_string(), "a".to_string()])
    );
    let mut db = Database::from_bytes(words(&[0, 3]));
    assert_eq!(db.read_hash_words(&t), Err(EixError::BadReference));
    let mut db = Database::from_bytes(vec![2, 0]);
    assert_eq!(db.read_hash_words(&t), Err(EixError::Truncated));
    let mut db = Database::from_bytes(num(u64::MAX));
    assert_eq!(db.read_hash_words(&t), Err(EixError::Truncated));
}

#[test]
fn read_part_splits_kind_and_length() {
    // 3 * 32 + 4: an rc part of three bytes
    let mut db = Database::from_bytes(vec![100, b'1', b'2', b'3', 0]);
    let p = db.read_part().unwrap();
    assert_eq!(p.part_type, PartType::Rc);
    assert_eq!(p.part_content, "123");
    assert_eq!(db.position(), 4);
    // kind 0 and no text
    let p = db.read_part().unwrap();
    assert_eq!(p.part_type, PartType::Garbage);
    assert_eq!(p.part_content, "");
    // kind 11 has no meaning
    let mut db = Database::from_bytes(vec![32 + 11, b'x']);
    let p = db.read_part().unwrap();
    assert_eq!(p.part_type, PartType::Garbage);
    assert_eq!(p.part_content, "x");
    let mut db = Database::from_bytes(vec![64 + 1, b'x']);
    assert_eq!(db.read_part().err(), Some(EixError::Truncated));
    let mut db = Database::from_bytes(vec![32 + 1, 0xFF]);
    assert_eq!(db.read_part().err(), Some(EixError::InvalidEncoding));
}

#[test]
fn rendering_uses_each_separator() {
    let kinds = [
        (PartType::First, "1"),
        (PartType::Primary, "2"),
        (PartType::InterRev, "3"),
        (PartType::Character, "a"),
        (PartType::Alpha, "4"),
        (PartType::Beta, "5"),
        (PartType::Pre, "6"),
        (PartType::Rc, "7"),
        (PartType::Patch, "8"),
        (PartType::Revision, "9"),
        (PartType::Garbage, "zz"),
    ];
    let mut v = blank_version();
    for (kind, content) in kinds {
        v.parts.push(BasicPart { part_type: kind, part_content: content.to_string() });
    }
    assert_eq!(v.get_full_version(), "1.2.3a_alpha4_beta5_pre6_rc7_p8-r9zz");
    assert_eq!(blank_version().get_full_version(), "");
}

fn blank_version() -> Version {
    Version {
        version_string: String::new(),
        parts: vec![],
        eapi: String::new(),
        mask_flags: 0,
        properties_flags: 0,
        restrict_flags: 0,
        keywords: vec![],
        slot: String::new(),
        overlay_key: 0,
        reponame: String::new(),
        priority: 0,
        iuse: vec![],
        required_use: vec![],
        depend: None,
        src_uri: None,
    }
}

#[test]
fn installed_depends_on_two_bits_only() {
    let mut v = blank_version();
    for other in [0x00u8, 0x01, 0x1F, 0x80, 0x9F] {
        v.mask_flags = other;
        assert!(!v.is_installed());
        v.mask_flags = other | 0x20;
        assert!(v.is_installed());
        v.mask_flags = other | 0x40;
        assert!(v.is_installed());
        v.mask_flags = other | 0x60;
        assert!(v.is_installed());
    }
}

#[test]
fn string_table_counts_distinct_strings() {
    let mut t = StringHash::new();
    let added = ["a", "b", "a", "", "c", "b", "", "a"];
    let mut first = Vec::new();
    for s in added {
        first.push(t.add(s.to_string()));
    }
    assert_eq!(first, vec![0, 1, 0, 2, 3, 1, 2, 0]);
    assert_eq!(t.len(), 4);
    assert_eq!(t.get_string(3), Some("c"));
    assert_eq!(t.get_string(4), None);
    assert_eq!(t.get_string(usize::MAX), None);
    let copy = t.clone();
    assert_eq!(copy.len(), 4);
    assert_eq!(copy.get_index("c"), Some(3));
    assert_eq!(copy.get_string(2), Some(""));
    assert_eq!(StringHash::default().len(), 0);
}

#[test]
fn header_fields_in_stream_order() {
    let mut db = Database::from_bytes(full_stream());
    let h = db.read_header(39).ok().unwrap();
    assert_eq!(h.version, 39);
    assert_eq!(h.size, 2);
    assert_eq!(h.overlays.len(), 2);
    assert_eq!(h.overlays[0].path, "/usr/portage");
    assert_eq!(h.overlays[0].label, "gentoo");
    assert_eq!(h.overlays[0].priority, 0);
    assert_eq!(h.overlays[1].label, "local");
    assert_eq!(h.overlays[1].priority, 1);
    assert_eq!(h.eapi_hash.len(), 2);
    assert_eq!(h.license_hash.len(), 2);
    assert_eq!(h.license_hash.get_string(1), Some("MIT"));
    assert_eq!(h.keywords_hash.get_string(1), Some("~arm64"));
    assert_eq!(h.iuse_hash.len(), 3);
    assert_eq!(h.slot_hash.get_string(0), Some(""));
    assert_eq!(h.world_sets, vec!["@system".to_string(), "@world".to_string()]);
    assert!(h.use_depend && h.use_required_use && h.use_src_uri);
    assert_eq!(h.depend_hash.len(), 3);
    assert_eq!(h.depend_hash.get_string(2), Some("dev-libs/c"));
}

#[test]
fn header_feature_bits_are_independent() {
    for mask in 0u64..8 {
        let mut s = b"eix\n".to_vec();
        s.extend(num(39));
        s.extend(num(0));
        s.extend(num(0));
        for _ in 0..6 {
            s.extend(num(0));
        }
        s.extend(num(mask));
        if mask & 1 != 0 {
            s.extend(num(7));
            s.extend(list(&["d"]));
        }
        let len = s.len();
        let mut db = Database::from_bytes(s);
        let h = db.read_header(0).ok().unwrap();
        assert_eq!(h.use_depend, mask & 1 != 0);
        assert_eq!(h.use_required_use, mask & 2 != 0);
        assert_eq!(h.use_src_uri, mask & 4 != 0);
        assert_eq!(h.depend_hash.len(), (mask & 1) as usize);
        assert_eq!(db.position(), len);
    }
}

#[test]
fn header_rejects_wrong_magic() {
    let mut s = minimal_stream(&[]);
    s[3] = b' ';
    let mut db = Database::from_bytes(s);
    assert_eq!(db.read_header(0).err(), Some(EixError::BadMagic));
    let mut db = Database::from_bytes(b"EIX\n\x27".to_vec());
    assert_eq!(db.read_header(0).err(), Some(EixError::BadMagic));
    let mut db = Database::from_bytes(b"eix".to_vec());
    assert_eq!(db.read_header(0).err(), Some(EixError::Truncated));
}

#[test]
fn header_rejects_old_version() {
    let mut db = Database::from_bytes(minimal_stream(&[]));
    assert_eq!(db.read_header(40).err(), Some(EixError::UnsupportedVersion));
    let mut db = Database::from_bytes(minimal_stream(&[]));
    assert!(db.read_header(39).is_ok());
    // the version is judged before anything behind it is read
    let mut db = Database::from_bytes(b"eix\n\x26".to_vec());
    assert_eq!(db.read_header(39).err(), Some(EixError::UnsupportedVersion));
}

#[test]
fn version_record_all_fields() {
    let h = header(39, true, true, true);
    let mut s = num(1);
    s.extend(version_body());
    s.extend(words(&[1]));
    s.extend(num(55));
    s.extend(words(&[0]));
    s.extend(words(&[1]));
    s.extend(words(&[]));
    s.extend(words(&[2]));
    s.extend(words(&[0, 1]));
    s.extend(text("https://example.org/x.tar.gz"));
    let len = s.len();
    let mut db = Database::from_bytes(s);
    let v = db.read_version(&h).unwrap();
    assert_eq!(db.position(), len);
    assert_eq!(v.version_string, "");
    assert_eq!(v.eapi, "8");
    assert_eq!(v.mask_flags, 0x20);
    assert_eq!(v.properties_flags, 3);
    assert_eq!(v.restrict_flags, 0x1234);
    assert_eq!(v.keywords, vec!["amd64".to_string()]);
    assert_eq!(v.parts.len(), 2);
    assert_eq!(v.parts[0].part_type, PartType::First);
    assert_eq!(v.parts[1].part_type, PartType::Primary);
    assert_eq!(v.get_full_version(), "1.2");
    assert_eq!(v.slot, "2");
    assert_eq!(v.overlay_key, 1);
    assert_eq!(v.reponame, "local");
    assert_eq!(v.priority, 1);
    assert_eq!(v.iuse, vec!["ssl".to_string(), "test".to_string()]);
    assert_eq!(v.required_use, vec!["doc".to_string()]);
    assert_eq!(v.src_uri, Some("https://example.org/x.tar.gz".to_string()));
    assert!(v.is_installed());
    let d = v.depend.unwrap();
    assert_eq!(d.depend, vec!["dev-libs/a".to_string()]);
    assert_eq!(d.rdepend, vec!["dev-libs/b".to_string()]);
    assert!(d.pdepend.is_empty());
    assert_eq!(d.bdepend, vec!["dev-libs/c".to_string()]);
    assert_eq!(d.idepend, vec!["dev-libs/a".to_string(), "dev-libs/b".to_string()]);
}

#[test]
fn version_record_without_optional_blocks() {
    let h = header(39, false, false, false);
    let mut s = num(0);
    s.extend(version_body());
    let len = s.len();
    s.extend(words(&[1]));
    let mut db = Database::from_bytes(s);
    let v = db.read_version(&h).unwrap();
    assert_eq!(db.position(), len);
    assert_eq!(v.eapi, "7");
    assert!(v.required_use.is_empty());
    assert!(v.depend.is_none());
    assert!(v.src_uri.is_none());
}

#[test]
fn eapi_is_read_from_version_36_on() {
    // version 35: the record starts with the mask byte
    let h = header(35, false, false, false);
    let s = version_body();
    let len = s.len();
    let mut db = Database::from_bytes(s);
    let v = db.read_version(&h).unwrap();
    assert_eq!(v.eapi, "");
    assert_eq!(v.mask_flags, 0x20);
    assert_eq!(db.position(), len);
    // version 36: the same bytes behind an index into the table of EAPIs
    let h = header(36, false, false, false);
    let mut s = num(1);
    s.extend(version_body());
    let len = s.len();
    let mut db = Database::from_bytes(s);
    let v = db.read_version(&h).unwrap();
    assert_eq!(v.eapi, "8");
    assert_eq!(v.mask_flags, 0x20);
    assert_eq!(db.position(), len);
}

fn depend_record(lists: usize) -> Vec<u8> {
    let mut s = version_body();
    s.extend(num(0));
    for i in 0..lists {
        s.extend(words(&[i as u64 % 3]));
    }
    s
}

#[test]
fn dependency_lists_by_format_version() {
    for (version, lists) in [(31u32, 3usize), (32, 4), (35, 4)] {
        let h = header(version, true, false, false);
        let s = depend_record(lists);
        let len = s.len();
        let mut db = Database::from_bytes(s);
        let d = db.read_version(&h).unwrap().depend.unwrap();
        assert_eq!(db.position(), len);
        assert_eq!(d.depend, vec!["dev-libs/a".to_string()]);
        assert_eq!(d.rdepend, vec!["dev-libs/b".to_string()]);
        assert_eq!(d.pdepend, vec!["dev-libs/c".to_string()]);
        if version > 31 {
            assert_eq!(d.bdepend, vec!["dev-libs/a".to_string()]);
        } else {
            assert!(d.bdepend.is_empty());
        }
        assert!(d.idepend.is_empty());
    }
    for (version, lists) in [(38u32, 4usize), (39, 5)] {
        let h = header(version, true, false, false);
        let mut s = num(0);
        s.extend(depend_record(lists));
        let len = s.len();
        let mut db = Database::from_bytes(s);
        let d = db.read_version(&h).unwrap().depend.unwrap();
        assert_eq!(db.position(), len);
        assert_eq!(d.bdepend, vec!["dev-libs/a".to_string()]);
        if version > 38 {
            assert_eq!(d.idepend, vec!["dev-libs/b".to_string()]);
        } else {
            assert!(d.idepend.is_empty());
        }
    }
}

#[test]
fn overlay_index_out_of_range_is_bad_reference() {
    let h = header(35, false, false, false);
    let mut s = vec![0x00, 0x00];
    s.extend(num(0));
    s.extend(words(&[]));
    s.extend(num(0));
    s.extend(num(0));
    s.extend(num(2));
    s.extend(words(&[]));
    let mut db = Database::from_bytes(s);
    assert_eq!(db.read_version(&h).err(), Some(EixError::BadReference));
    let mut none = header(35, false, false, false);
    none.overlays.clear();
    let mut s = vec![0x00, 0x00];
    s.extend(num(0));
    s.extend(words(&[]));
    s.extend(num(0));
    s.extend(num(0));
    s.extend(num(0));
    s.extend(words(&[]));
    let mut db = Database::from_bytes(s);
    assert_eq!(db.read_version(&none).err(), Some(EixError::BadReference));
}

#[test]
fn table_index_out_of_range_is_bad_reference() {
    // EAPI index 2 in a table of two
    let h = header(39, false, false, false);
    let mut s = num(2);
    s.extend(version_body());
    let mut db = Database::from_bytes(s);
    assert_eq!(db.read_version(&h).err(), Some(EixError::BadReference));
    // slot index 2 in a table of two
    let h = header(35, false, false, false);
    let mut s = vec![0x00, 0x00];
    s.extend(num(0));
    s.extend(words(&[]));
    s.extend(num(0));
    s.extend(num(2));
    let mut db = Database::from_bytes(s);
    assert_eq!(db.read_version(&h).err(), Some(EixError::BadReference));
    // license index 1 in a table of one
    let mut s = minimal_stream(&["MIT"]);
    let at = s.len() - 2;
    assert!(decode_all(s.clone()).is_ok());
    s[at] = 1;
    assert_eq!(decode_all(s).err(), Some(EixError::BadReference));
}

#[test]
fn minimal_stream_has_one_package_without_versions() {
    let mut db = Database::from_bytes(minimal_stream(&[""]));
    let header = db.read_header(39).ok().unwrap();
    assert_eq!(header.version, 39);
    assert!(header.overlays.is_empty());
    assert!(header.world_sets.is_empty());
    assert!(!header.use_depend && !header.use_required_use && !header.use_src_uri);
    let mut reader = PackageReader::new(db, header);
    assert_eq!(reader.current_category(), "");
    assert!(reader.read_package().unwrap().is_none());
    assert_eq!(reader.next_category(), Ok(true));
    assert_eq!(reader.current_category(), "app-misc");
    let package = reader.read_package().unwrap().unwrap();
    assert_eq!(package.category, "app-misc");
    assert_eq!(package.name, "hello");
    assert_eq!(package.description, "says hello");
    assert_eq!(package.homepage, "https://example.org");
    assert_eq!(package.licenses, "");
    assert!(package.versions.is_empty());
    assert!(reader.read_package().unwrap().is_none());
    assert_eq!(reader.next_category(), Ok(false));
    assert_eq!(reader.next_category(), Ok(false));
    assert_eq!(reader.current_category(), "app-misc");
    assert_eq!(decode_all(minimal_stream(&[""])).unwrap().len(), 1);
}

#[test]
fn package_cannot_name_a_license_of_an_empty_table() {
    let mut db = Database::from_bytes(minimal_stream(&[]));
    let header = db.read_header(39).ok().unwrap();
    assert_eq!(header.license_hash.len(), 0);
    let mut reader = PackageReader::new(db, header);
    assert_eq!(reader.next_category(), Ok(true));
    assert_eq!(reader.read_package().err(), Some(EixError::BadReference));
}

#[test]
fn full_stream_decodes_to_its_packages() {
    let packages = decode_all(full_stream()).unwrap();
    assert_eq!(packages.len(), 1);
    let p = &packages[0];
    assert_eq!(p.category, "app-misc");
    assert_eq!(p.name, "hello");
    assert_eq!(p.licenses, "MIT");
    assert_eq!(p.versions.len(), 1);
    let v = &p.versions[0];
    assert_eq!(v.version_string, "1.2");
    assert_eq!(v.eapi, "8");
    assert_eq!(v.reponame, "local");
    assert_eq!(v.required_use, vec!["doc".to_string()]);
    assert_eq!(v.src_uri, Some("https://example.org/hello-1.2.tar.gz".to_string()));
    assert_eq!(v.depend.as_ref().unwrap().idepend.len(), 2);
}

#[test]
fn reader_exposes_its_header() {
    let mut db = Database::from_bytes(full_stream());
    let header = db.read_header(0).ok().unwrap();
    let reader = PackageReader::new(db, header);
    assert_eq!(reader.header().version, 39);
    assert_eq!(reader.header().size, 2);
}

#[test]
fn every_truncation_is_reported_as_truncated() {
    let s = full_stream();
    assert!(decode_all(s.clone()).is_ok());
    for cut in 0..s.len() {
        assert_eq!(decode_all(s[..cut].to_vec()).err(), Some(EixError::Truncated), "cut at {}", cut);
    }
}

#[test]
fn truncated_header_and_version() {
    let s = full_stream();
    let mut db = Database::from_bytes(s.clone());
    let h = db.read_header(39).ok().unwrap();
    let end = db.position();
    for cut in 0..end {
        let mut db = Database::from_bytes(s[..cut].to_vec());
        assert_eq!(db.read_header(39).err(), Some(EixError::Truncated));
    }
    let mut record = num(1);
    record.extend(version_body());
    record.extend(words(&[1]));
    record.extend(num(55));
    for _ in 0..5 {
        record.extend(words(&[0]));
    }
    record.extend(text("uri"));
    let mut db = Database::from_bytes(record.clone());
    assert!(db.read_version(&h).is_ok());
    assert_eq!(db.position(), record.len());
    for cut in 0..record.len() {
        let mut db = Database::from_bytes(record[..cut].to_vec());
        assert_eq!(db.read_version(&h).err(), Some(EixError::Truncated));
    }
}

#[test]
fn header_counts_keep_their_low_32_bits() {
    let mut s = b"eix\n".to_vec();
    s.extend(num(0x1_0000_0000 + 39));
    s.extend(num(0x2_0000_0000 + 5));
    s.extend(num(0));
    for _ in 0..6 {
        s.extend(num(0));
    }
    s.extend(num(0x1_0000_0000 + 2));
    let mut db = Database::from_bytes(s);
    let h = db.read_header(39).ok().unwrap();
    assert_eq!(h.version, 39);
    assert_eq!(h.size, 5);
    assert!(!h.use_depend && h.use_required_use && !h.use_src_uri);
}

#[test]
fn category_count_keeps_its_low_32_bits() {
    let mut s = minimal_stream(&[""]);
    s.truncate(s.len() - text("hello").len() - text("says hello").len()
        - text("https://example.org").len() - 4);
    s.extend(num(0x1_0000_0000));
    let mut db = Database::from_bytes(s);
    let header = db.read_header(0).ok().unwrap();
    let mut reader = PackageReader::new(db, header);
    assert_eq!(reader.next_category(), Ok(true));
    assert_eq!(reader.current_category(), "app-misc");
    assert!(reader.read_package().unwrap().is_none());
    assert_eq!(reader.next_category(), Ok(false));
}

#[test]
fn header_tables_answer_reverse_lookups() {
    let mut db = Database::from_bytes(full_stream());
    let h = db.read_header(0).ok().unwrap();
    assert_eq!(h.license_hash.get_index("GPL-2"), Some(0));
    assert_eq!(h.license_hash.get_index("MIT"), Some(1));
    assert_eq!(h.license_hash.get_index("BSD"), None);
    let copy = h.clone();
    assert_eq!(copy.iuse_hash.get_index("test"), Some(2));
    assert_eq!(copy.overlays.len(), 2);
}

#[test]
fn next_category_reports_truncation_and_bad_text() {
    let mut s = minimal_stream(&[""]);
    let full = s.len();
    s.truncate(full - text("hello").len() - text("says hello").len()
        - text("https://example.org").len() - 4);
    // cut inside the name of the category
    let short = s[..s.len() - 3].to_vec();
    let mut db = Database::from_bytes(short);
    let header = db.read_header(0).ok().unwrap();
    let mut reader = PackageReader::new(db, header);
    assert_eq!(reader.next_category(), Err(EixError::Truncated));
    // a name that is no UTF-8
    let at = s.len() - 2;
    s[at] = 0xFF;
    let mut db = Database::from_bytes(s);
    let header = db.read_header(0).ok().unwrap();
    let mut reader = PackageReader::new(db, header);
    assert_eq!(reader.next_category(), Err(EixError::InvalidEncoding));
}
