use mkw_distro_tool::bundle::{
    append_packed, append_record, build_bundle, is_track_archive, name_fits, seal_bundle, write_bundle_magic,
    BuildError, DirItem, BUNDLE_BUILD_NUMBER, COMPRESSION_LEVEL,
};

fn file(name: &str, data: &[u8]) -> DirItem {
    DirItem::File { name: String::from(name), data: Some(data.to_vec()) }
}

fn luigi() -> Vec<u8> {
    (0..100u32).map(|i| (i * 31 % 251) as u8).collect()
}

/// The records of a bundle: each name text and frame, as they lie in it.
fn parse_records(bundle: &[u8]) -> Vec<(Vec<u8>, Vec<u8>)> {
    let mut out = Vec::new();
    let mut at = 16;
    while at < bundle.len() {
        let name_len = u16::from_be_bytes([bundle[at], bundle[at + 1]]) as usize;
        let name = bundle[at + 2..at + 2 + name_len].to_vec();
        let head = 2 + name_len;
        at += head + (16 - head % 16);
        let frame_len =
            u32::from_be_bytes([bundle[at], bundle[at + 1], bundle[at + 2], bundle[at + 3]])
                as usize;
        let frame = bundle[at + 4..at + 4 + frame_len].to_vec();
        let body = 4 + frame_len;
        at += body + (16 - body % 16);
        out.push((name, frame));
    }
    assert_eq!(at, bundle.len());
    out
}

#[test]
fn the_bundle_constants() {
    assert_eq!(BUNDLE_BUILD_NUMBER, 1);
    assert_eq!(COMPRESSION_LEVEL, 0);
}

#[test]
fn a_bundle_of_one_archive() {
    let data = luigi();
    let bundle = build_bundle(&vec![file("luigi.szs", &data)]).unwrap();
    assert_eq!(&bundle[..8], b"ZRP0TRC0");
    let size = u32::from_be_bytes([bundle[8], bundle[9], bundle[10], bundle[11]]) as usize;
    assert_eq!(size, bundle.len());
    assert_eq!(&bundle[12..15], &[0, 0, 0]);
    assert_eq!(bundle[15], 1);
    assert_eq!(bundle.len() % 16, 0);
    let records = parse_records(&bundle);
    assert_eq!(records.len(), 1);
    assert_eq!(records[0].0, b"bHVpZ2kuc3pz".to_vec());
    assert_eq!(base64::decode(&records[0].0).unwrap(), b"luigi.szs".to_vec());
    assert_ne!(records[0].1, data);
    assert_eq!(&records[0].1[..4], &[0x28, 0xB5, 0x2F, 0xFD]);
    assert_eq!(zstd::bulk::decompress(&records[0].1, 1000).unwrap(), data);
}

#[test]
fn the_record_layout() {
    let mut buf = vec![0xEEu8; 16];
    append_record(&mut buf, b"bHVpZ2kuc3pz", &[1, 2, 3, 4, 5]);
    let mut expected = vec![0xEEu8; 16];
    expected.extend_from_slice(&[0, 12]);
    expected.extend_from_slice(b"bHVpZ2kuc3pz");
    expected.extend_from_slice(&[0, 0]);
    expected.extend_from_slice(&[0, 0, 0, 5, 1, 2, 3, 4, 5]);
    expected.extend_from_slice(&[0u8; 7]);
    assert_eq!(buf, expected);
}

#[test]
fn a_record_part_that_fills_its_unit_gets_a_whole_unit_more() {
    let mut buf = Vec::new();
    append_record(&mut buf, &[b'A'; 14], &[7u8; 12]);
    assert_eq!(buf.len(), 64);
    assert_eq!(&buf[..2], &[0, 14]);
    assert_eq!(&buf[16..32], &[0u8; 16]);
    assert_eq!(&buf[32..36], &[0, 0, 0, 12]);
    assert_eq!(&buf[48..64], &[0u8; 16]);
}

#[test]
fn an_empty_listing_gives_a_bare_header() {
    let bundle = build_bundle(&Vec::new()).unwrap();
    assert_eq!(bundle, vec![b'Z', b'R', b'P', b'0', b'T', b'R', b'C', b'0', 0, 0, 0, 16, 0, 0, 0, 1]);
    assert_eq!(seal_bundle(&[]), bundle);
    let mut magic = Vec::new();
    write_bundle_magic(&mut magic);
    assert_eq!(magic, b"ZRP0TRC0".to_vec());
}

#[test]
fn sealing_puts_the_size_and_the_build_number_in_front() {
    let sealed = seal_bundle(&[0xAB; 32]);
    assert_eq!(&sealed[..8], b"ZRP0TRC0");
    assert_eq!(&sealed[8..16], &[0, 0, 0, 48, 0, 0, 0, 1]);
    assert_eq!(&sealed[16..], &[0xAB; 32]);
}

#[test]
fn building_twice_gives_the_same_bytes() {
    let items = vec![
        file("luigi.szs", &luigi()),
        file("readme.txt", b"hello"),
        file("empty.szs", b""),
        DirItem::Other { name: String::from("backup.szs") },
        file("big.szs", &vec![3u8; 100_000]),
    ];
    let first = build_bundle(&items).unwrap();
    let second = build_bundle(&items).unwrap();
    assert_eq!(first, second);
    let again = build_bundle(&items.clone()).unwrap();
    assert_eq!(first, again);
}

#[test]
fn archives_are_packed_in_the_order_of_the_listing() {
    let items = vec![
        file("b.szs", b"second comes first"),
        file("notes.txt", b"skipped"),
        DirItem::Other { name: String::from("dir.szs") },
        file("a.szs", b"first comes second"),
    ];
    let bundle = build_bundle(&items).unwrap();
    let records = parse_records(&bundle);
    assert_eq!(records.len(), 2);
    assert_eq!(base64::decode(&records[0].0).unwrap(), b"b.szs".to_vec());
    assert_eq!(base64::decode(&records[1].0).unwrap(), b"a.szs".to_vec());
    assert_eq!(zstd::bulk::decompress(&records[0].1, 100).unwrap(), b"second comes first".to_vec());
    assert_eq!(zstd::bulk::decompress(&records[1].1, 100).unwrap(), b"first comes second".to_vec());
    let size = u32::from_be_bytes([bundle[8], bundle[9], bundle[10], bundle[11]]) as usize;
    assert_eq!(size, bundle.len());
}

#[test]
fn only_names_that_end_in_szs_are_archives() {
    for name in ["luigi.szs", "a.szs", "a.b.szs", "..szs", "\u{96ea}.szs", "x .szs"] {
        assert!(is_track_archive(&String::from(name)), "{}", name);
    }
    for name in [
        ".szs", "szs", "", "a.SZS", "a.szs ", "a.szs.bak", "a.sz", "aszs", "a.Szs", "luigi.wbz",
        "a.szsx",
    ] {
        assert!(!is_track_archive(&String::from(name)), "{}", name);
    }
}

#[test]
fn files_without_the_extension_need_no_contents() {
    let items = vec![
        DirItem::File { name: String::from("notes.txt"), data: None },
        DirItem::File { name: String::from(".szs"), data: None },
        DirItem::Other { name: String::from("tracks") },
    ];
    assert_eq!(build_bundle(&items).unwrap().len(), 16);
}

#[test]
fn a_failed_listing_ends_the_build() {
    let items = vec![file("a.szs", b"a"), DirItem::Unreadable, file("b.szs", b"b")];
    assert_eq!(build_bundle(&items), Err(BuildError::Io));
}

#[test]
fn an_entry_of_unknown_type_ends_the_build() {
    let items = vec![
        file("a.szs", b"a"),
        DirItem::Untyped { name: String::from("socket") },
        DirItem::Unreadable,
    ];
    assert_eq!(build_bundle(&items), Err(BuildError::UnsupportedEntry));
    let items = vec![DirItem::Untyped { name: String::from("b.szs") }];
    assert_eq!(build_bundle(&items), Err(BuildError::UnsupportedEntry));
}

#[test]
fn an_archive_that_could_not_be_read_ends_the_build() {
    let items = vec![
        file("a.szs", b"a"),
        DirItem::File { name: String::from("b.szs"), data: None },
        DirItem::Untyped { name: String::from("later") },
    ];
    assert_eq!(build_bundle(&items), Err(BuildError::Io));
}

#[test]
fn the_first_failing_entry_decides_the_error() {
    let items = vec![DirItem::Unreadable, DirItem::Untyped { name: String::from("x") }];
    assert_eq!(build_bundle(&items), Err(BuildError::Io));
    let items = vec![DirItem::Untyped { name: String::from("x") }, DirItem::Unreadable];
    assert_eq!(build_bundle(&items), Err(BuildError::UnsupportedEntry));
}

#[test]
fn names_of_any_real_length_fit_the_encoder() {
    assert!(name_fits(0));
    assert!(name_fits(255));
    assert!(name_fits(usize::MAX / 2));
    assert!(!name_fits(usize::MAX));
}

#[test]
fn a_name_is_written_in_base64_with_padding() {
    let bundle = build_bundle(&vec![file("ab.szs", b"x")]).unwrap();
    let records = parse_records(&bundle);
    assert_eq!(records[0].0, b"YWIuc3pz".to_vec());
    let bundle = build_bundle(&vec![file("abc.szs", b"x")]).unwrap();
    let records = parse_records(&bundle);
    assert_eq!(records[0].0, b"YWJjLnN6cw==".to_vec());
    assert_eq!(base64::decode(&records[0].0).unwrap(), b"abc.szs".to_vec());
}

#[test]
fn an_archive_that_was_not_compressed_ends_the_build() {
    let mut buf = vec![1u8, 2, 3];
    assert_eq!(append_packed(&mut buf, b"YS5zeno=", None), Err(BuildError::CompressionFailure));
    assert_eq!(buf, vec![1, 2, 3]);
}

#[test]
fn an_archive_that_was_compressed_is_appended() {
    let mut buf = Vec::new();
    assert_eq!(append_packed(&mut buf, b"YS5zeno=", Some(vec![9u8; 3])), Ok(()));
    let mut expected = Vec::new();
    append_record(&mut expected, b"YS5zeno=", &[9u8; 3]);
    assert_eq!(buf, expected);
    assert_eq!(buf.len(), 32);
    assert_eq!(&buf[..10], &[0, 8, b'Y', b'S', b'5', b'z', b'e', b'n', b'o', b'=']);
    assert_eq!(&buf[16..23], &[0, 0, 0, 3, 9, 9, 9]);
}

#[test]
fn a_name_text_takes_four_characters_for_every_three_bytes() {
    for stem in 1usize..40 {
        let name = format!("{}.szs", "n".repeat(stem));
        let bundle = build_bundle(&vec![file(&name, b"x")]).unwrap();
        let records = parse_records(&bundle);
        let len = name.len();
        let expected = (len / 3) * 4 + if len % 3 == 0 { 0 } else { 4 };
        assert_eq!(records[0].0.len(), expected, "{}", name);
    }
}

#[test]
fn a_frame_stays_under_the_bound_of_the_compressor() {
    let mut seed: u32 = 12345;
    for len in [0usize, 1, 100, 255, 256, 4096, 70_000, 200_000] {
        let noise: Vec<u8> = (0..len)
            .map(|_| {
                seed = seed.wrapping_mul(1664525).wrapping_add(1013904223);
                (seed >> 24) as u8
            })
            .collect();
        let bundle = build_bundle(&vec![file("noise.szs", &noise)]).unwrap();
        let records = parse_records(&bundle);
        assert!(records[0].1.len() <= len + len / 256 + 64, "{} bytes", len);
        assert!(bundle.len() <= 16 + (2 + 12 + 16) + (4 + len + len / 256 + 64 + 16));
        assert!(bundle.len() >= 48);
        assert_eq!(bundle.len() % 16, 0);
    }
}

#[test]
fn a_bundle_with_an_archive_takes_at_least_three_units() {
    let bundle = build_bundle(&vec![file("a.szs", b"")]).unwrap();
    assert!(bundle.len() >= 48);
    assert_eq!(&bundle[..8], b"ZRP0TRC0");
    assert_eq!(u32::from_be_bytes([bundle[8], bundle[9], bundle[10], bundle[11]]) as usize, bundle.len());
}
