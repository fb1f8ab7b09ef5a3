use eix::{
    BasicPart, Database, PartType, StringHash, Version, DB_MAGIC, DB_VERSION_CURRENT,
    MASK_IN_PROFILE, MASK_MARKED,
};

#[test]
fn test_magic_bytes() {
    assert_eq!(DB_MAGIC, b"eix\n");
    assert_eq!(DB_MAGIC.len(), 4);
}

#[test]
fn test_version() {
    assert_eq!(DB_VERSION_CURRENT, 39);
}

#[test]
fn test_string_hash() {
    let mut hash = StringHash::new();
    let idx1 = hash.add("test".to_string());
    let idx2 = hash.add("another".to_string());
    let idx3 = hash.add("test".to_string());

    assert_eq!(idx1, 0);
    assert_eq!(idx2, 1);
    assert_eq!(idx1, idx3);
    assert_eq!(hash.len(), 2);

    assert_eq!(hash.get_string(0), Some("test"));
    assert_eq!(hash.get_string(1), Some("another"));
    assert_eq!(hash.get_string(2), None);

    assert_eq!(hash.get_index("test"), Some(0));
    assert_eq!(hash.get_index("another"), Some(1));
    assert_eq!(hash.get_index("nonexistent"), None);
}

#[test]
fn test_part_type_from_u64() {
    assert_eq!(PartType::from_u64(1), PartType::Alpha);
    assert_eq!(PartType::from_u64(5), PartType::Revision);
    assert_eq!(PartType::from_u64(10), PartType::First);
    assert_eq!(PartType::from_u64(0), PartType::Garbage);
    assert_eq!(PartType::from_u64(99), PartType::Garbage);
}

#[test]
fn test_read_num() {
    let cases = vec![
        (0x00, vec![0x00]),
        (0xFE, vec![0xFE]),
        (0xFF, vec![0xFF, 0x00]),
        (0x0100, vec![0xFF, 0x01, 0x00]),
        (0x01FF, vec![0xFF, 0x01, 0xFF]),
        (0xFEFF, vec![0xFF, 0xFE, 0xFF]),
        (0xFF00, vec![0xFF, 0xFF, 0x00, 0x00]),
        (0xFF01, vec![0xFF, 0xFF, 0x00, 0x01]),
        (0x010000, vec![0xFF, 0xFF, 0x01, 0x00, 0x00]),
        (0xABCDEF, vec![0xFF, 0xFF, 0xAB, 0xCD, 0xEF]),
        (0xFFABCD, vec![0xFF, 0xFF, 0xFF, 0x00, 0xAB, 0xCD]),
        (0x01ABCDEF, vec![0xFF, 0xFF, 0xFF, 0x01, 0xAB, 0xCD, 0xEF]),
    ];

    for (expected, bytes) in cases {
        let mut db = Database::from_bytes(bytes.clone());

        let result = db.read_num().expect(&format!("Failed to read {:?}", bytes));
        assert_eq!(
            result, expected,
            "Case {:?} failed: expected 0x{:X}, got 0x{:X}",
            bytes, expected, result
        );
    }
}

#[test]
fn test_version_full_string() {
    let v = Version {
        version_string: "1.2.3".to_string(),
        parts: vec![
            BasicPart {
                part_type: PartType::First,
                part_content: "1".to_string(),
            },
            BasicPart {
                part_type: PartType::Primary,
                part_content: "2".to_string(),
            },
            BasicPart {
                part_type: PartType::Primary,
                part_content: "3".to_string(),
            },
            BasicPart {
                part_type: PartType::Alpha,
                part_content: "1".to_string(),
            },
            BasicPart {
                part_type: PartType::Revision,
                part_content: "1".to_string(),
            },
        ],
        eapi: "8".to_string(),
        mask_flags: 0,
        properties_flags: 0,
        restrict_flags: 0,
        keywords: vec![],
        slot: "0".to_string(),
        overlay_key: 0,
        reponame: "gentoo".to_string(),
        priority: 0,
        iuse: vec![],
        required_use: vec![],
        depend: None,
        src_uri: None,
    };
    assert_eq!(v.get_full_version(), "1.2.3_alpha1-r1");
}

#[test]
fn test_version_is_installed() {
    let mut v = Version {
        version_string: String::new(),
        parts: vec![],
        eapi: String::new(),
        mask_flags: 0,
        properties_flags: 0,
        restrict_flags: 0,
        keywords: vec![],
        slot: String::new(),
        overlay_key: 0,
        reponame: String::new(),
        priority: 0,
        iuse: vec![],
        required_use: vec![],
        depend: None,
        src_uri: None,
    };
    assert!(!v.is_installed());

    v.mask_flags = MASK_IN_PROFILE;
    assert!(v.is_installed());

    v.mask_flags = MASK_MARKED;
    assert!(v.is_installed());
}
