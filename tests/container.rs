use font::container::{
    EmbeddedOpenTypeFile, FileType, OpenTypeCffFile, OpenTypeCollectionFile, OpenTypeFile,
    PostScriptFile, TrueTypeFile, Woff2File, WoffFile,
};

#[test]
fn embedded_opentype_detect_type() {
    let mut content = vec![0x00u8; 47252];
    content[..12].clone_from_slice(&[
        0x3c, 0x11, 0x00, 0x00, 0x58, 0x10, 0x00, 0x00, 0x01, 0x00, 0x02, 0x00,
    ]);
    assert!(EmbeddedOpenTypeFile::detect(&content));
}

#[test]
fn opentype_detect_type() {
    let mut content = vec![0x00u8; 47252];
    content[..4].clone_from_slice(&[0x00u8, 0x01, 0x00, 0x00]);
    assert!(OpenTypeFile::detect(&content));
}

#[test]
fn detect_bad_type() {
    let mut content = vec![0x00u8; 47252];
    content[..4].clone_from_slice(&[0x00u8, 0x01, 0x00, 0x01]);
    assert_eq!(OpenTypeFile::detect(&content), false);
}

#[test]
fn classify_each_signature() {
    let cases: Vec<(&[u8], FileType)> = vec![
        (b"\x00\x01\x00\x00", FileType::OpenTypeWithTrueTypeOutlines),
        (b"OTTO", FileType::OpenTypeWithCFFData),
        (b"ttcf", FileType::OpenTypeCollection),
        (b"typ1", FileType::PostScript),
        (b"true", FileType::AppleCompatibleTrueType),
        (b"wOFF", FileType::Woff),
        (b"wOF2", FileType::Woff2),
    ];
    for (magic, expected) in cases {
        let mut content = vec![0u8; 16];
        content[..4].clone_from_slice(magic);
        assert_eq!(FileType::detect(&content), Some(expected));
    }
    assert!(OpenTypeCffFile::detect(b"OTTO"));
    assert!(OpenTypeCollectionFile::detect(b"ttcf"));
    assert!(PostScriptFile::detect(b"typ1"));
    assert!(TrueTypeFile::detect(b"true"));
    assert!(WoffFile::detect(b"wOFF"));
    assert!(Woff2File::detect(b"wOF2"));
}

#[test]
fn classify_embedded_opentype_versions() {
    for version in [[0x00u8, 0x00, 0x01, 0x00], [0x01, 0x00, 0x02, 0x00], [0x02, 0x00, 0x02, 0x00]] {
        let mut content = vec![0x55u8; 16];
        content[8..12].clone_from_slice(&version);
        assert_eq!(FileType::detect(&content), Some(FileType::EmbeddedOpenType));
    }
}

#[test]
fn classify_short_or_unknown_buffer_fails() {
    assert_eq!(FileType::detect(&[]), None);
    assert_eq!(FileType::detect(&[0x00, 0x01, 0x00]), None);
    assert_eq!(FileType::detect(b"abcdefgh"), None);
    assert!(!EmbeddedOpenTypeFile::detect(&[0u8; 10]));
    assert_eq!(FileType::detect(&[0x41u8; 32]), None);
}
