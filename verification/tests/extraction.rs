//! End-to-end tests over synthetic 32-bit PE images built byte by byte.

use vanilla_extractor::error::GameError;
use vanilla_extractor::exe_parser::{ByteRange, ExeParser};
use vanilla_extractor::vanilla::{make_bitmap_file, VanillaExtractor};

const IMAGE_BASE: u32 = 0x400000;
const RSRC_RVA: u32 = 0x3000;
const RSRC_RAW: u32 = 0x200;
const TEXT_RVA: u32 = 0x1000;
const TEXT_RAW: u32 = 0x1000;
const TEXT_RAW_SIZE: u32 = 0x200;
const DATA_RVA: u32 = 0x2000;
const DATA_RAW: u32 = 0x1200;

const SIGNATURE: [u8; 13] = [
    0x83, 0xC4, 0x08, 0x8B, 0x45, 0x08, 0x69, 0xC0, 0xC8, 0x00, 0x00, 0x00, 0x05,
];

fn put16(image: &mut Vec<u8>, off: usize, v: u16) {
    image[off..off + 2].copy_from_slice(&v.to_le_bytes());
}

fn put32(image: &mut Vec<u8>, off: usize, v: u32) {
    image[off..off + 4].copy_from_slice(&v.to_le_bytes());
}

struct Section {
    name: [u8; 8],
    virtual_size: u32,
    virtual_address: u32,
    raw_size: u32,
    raw_ptr: u32,
}

fn sec_name(s: &str) -> [u8; 8] {
    let mut n = [0u8; 8];
    n[..s.len()].copy_from_slice(s.as_bytes());
    n
}

/// Builds a minimal PE32 image: DOS header, PE signature, COFF header,
/// optional header with sixteen data directories, the given section table,
/// and `total` bytes in all.
fn build_image(sections: &[Section], rsrc_rva: u32, rsrc_size: u32, total: usize) -> Vec<u8> {
    let mut image = vec![0u8; total];
    image[0] = 0x4D;
    image[1] = 0x5A;
    let p = 0x40usize;
    put32(&mut image, 0x3C, p as u32);
    image[p] = 0x50;
    image[p + 1] = 0x45;
    // COFF header
    put16(&mut image, p + 4, 0x014C);
    put16(&mut image, p + 6, sections.len() as u16);
    put16(&mut image, p + 20, 0xE0); // size of optional header
    // optional header
    let oh = p + 24;
    put16(&mut image, oh, 0x10B);
    put32(&mut image, oh + 28, IMAGE_BASE);
    put32(&mut image, oh + 92, 16); // number of data directories
    // resource data directory (index 2)
    put32(&mut image, oh + 96 + 16, rsrc_rva);
    put32(&mut image, oh + 96 + 20, rsrc_size);
    // section table
    let st = oh + 0xE0;
    for (k, sec) in sections.iter().enumerate() {
        let o = st + 40 * k;
        image[o..o + 8].copy_from_slice(&sec.name);
        put32(&mut image, o + 8, sec.virtual_size);
        put32(&mut image, o + 12, sec.virtual_address);
        put32(&mut image, o + 16, sec.raw_size);
        put32(&mut image, o + 20, sec.raw_ptr);
    }
    image
}

fn standard_sections(data_raw_size: u32, rsrc_size: u32) -> Vec<Section> {
    vec![
        Section {
            name: sec_name(".text"),
            virtual_size: TEXT_RAW_SIZE,
            virtual_address: TEXT_RVA,
            raw_size: TEXT_RAW_SIZE,
            raw_ptr: TEXT_RAW,
        },
        Section {
            name: sec_name(".data"),
            virtual_size: 0x1000,
            virtual_address: DATA_RVA,
            raw_size: data_raw_size,
            raw_ptr: DATA_RAW,
        },
        Section {
            name: sec_name(".rsrc"),
            virtual_size: rsrc_size,
            virtual_address: RSRC_RVA,
            raw_size: rsrc_size,
            raw_ptr: RSRC_RAW,
        },
    ]
}

/// Writes a resource region holding `Root -> "ORG" -> { leaf A, "X" -> leaf B }`
/// and `Root -> #2 (bitmap) -> leaf C`, with the given payloads.
fn write_resources(image: &mut Vec<u8>, a: &[u8], b: &[u8], c: &[u8]) {
    let rs = RSRC_RAW as usize;
    // root: 1 named entry ("ORG"), 1 id entry (2 = bitmap)
    put16(image, rs + 12, 1);
    put16(image, rs + 14, 1);
    // root entry 0: name at 0x100, subdir at 0x20
    put32(image, rs + 16, 0x80000100);
    put32(image, rs + 20, 0x80000020);
    // root entry 1: id 2, subdir at 0x80
    put32(image, rs + 24, 2);
    put32(image, rs + 28, 0x80000080);
    // "ORG" directory at 0x20: 1 named entry ("X" -> 0x50), 1 id entry (leaf A)
    put16(image, rs + 0x20 + 12, 1);
    put16(image, rs + 0x20 + 14, 1);
    put32(image, rs + 0x20 + 16, 0x80000110); // name "X"
    put32(image, rs + 0x20 + 20, 0x80000050); // subdir at 0x50
    put32(image, rs + 0x20 + 24, 1); // id 1
    put32(image, rs + 0x20 + 28, 0x120); // leaf A data entry
    // "X" directory at 0x50: 1 id entry (leaf B)
    put16(image, rs + 0x50 + 12, 0);
    put16(image, rs + 0x50 + 14, 1);
    put32(image, rs + 0x50 + 16, 1);
    put32(image, rs + 0x50 + 20, 0x130); // leaf B data entry
    // bitmap directory at 0x80: 1 id entry (leaf C)
    put16(image, rs + 0x80 + 12, 0);
    put16(image, rs + 0x80 + 14, 1);
    put32(image, rs + 0x80 + 16, 1);
    put32(image, rs + 0x80 + 20, 0x140); // leaf C data entry
    // name "ORG" at 0x100
    put16(image, rs + 0x100, 3);
    put16(image, rs + 0x102, 'O' as u16);
    put16(image, rs + 0x104, 'R' as u16);
    put16(image, rs + 0x106, 'G' as u16);
    // name "X" at 0x110
    put16(image, rs + 0x110, 1);
    put16(image, rs + 0x112, 'X' as u16);
    // data entries: payloads at region offsets 0x150, 0x160, 0x170
    put32(image, rs + 0x120, RSRC_RVA + 0x150);
    put32(image, rs + 0x124, a.len() as u32);
    put32(image, rs + 0x130, RSRC_RVA + 0x160);
    put32(image, rs + 0x134, b.len() as u32);
    put32(image, rs + 0x140, RSRC_RVA + 0x170);
    put32(image, rs + 0x144, c.len() as u32);
    image[rs + 0x150..rs + 0x150 + a.len()].copy_from_slice(a);
    image[rs + 0x160..rs + 0x160 + b.len()].copy_from_slice(b);
    image[rs + 0x170..rs + 0x170 + c.len()].copy_from_slice(c);
}

/// Puts the instruction signature into `.text` with an operand addressing
/// `in_data_off` bytes into the data section.
fn write_signature(image: &mut Vec<u8>, in_data_off: u32) {
    let o = TEXT_RAW as usize + 0x40;
    image[o..o + 13].copy_from_slice(&SIGNATURE);
    put32(image, o + 13, IMAGE_BASE + DATA_RVA + in_data_off);
}

/// A full image: resources with three payloads, a signature addressing a
/// stage table that lies wholly inside the image.
fn full_image() -> Vec<u8> {
    let data_raw_size = 0x100 + 95 * 0xC8;
    let total = (DATA_RAW + data_raw_size) as usize;
    let mut image = build_image(&standard_sections(data_raw_size, 0x200), RSRC_RVA, 0x200, total);
    write_resources(&mut image, b"song-a", b"song-b", b"pixels");
    write_signature(&mut image, 0x100);
    for i in 0..(95 * 0xC8) as usize {
        image[DATA_RAW as usize + 0x100 + i] = (i % 251) as u8;
    }
    image
}

#[test]
fn parse_rejects_garbage() {
    let r = ExeParser::from(&vec![0u8; 16]);
    match r {
        Err(GameError::ParseError(m)) => assert_eq!(m, "Failed to parse PE file"),
        _ => panic!("expected a parse error"),
    }
}

#[test]
fn parse_rejects_missing_resources() {
    // Well-formed headers, but the resource directory RVA is zero.
    let image = build_image(&standard_sections(0x10, 0x200), 0, 0, 0x2000);
    match ExeParser::from(&image) {
        Err(GameError::ParseError(m)) => assert_eq!(m, "Failed to parse resources."),
        _ => panic!("expected a resource error"),
    }
}

#[test]
fn section_lookup_by_name() {
    let image = full_image();
    let parser = ExeParser::from(&image).unwrap();
    assert_eq!(parser.image_base, IMAGE_BASE);
    let r = parser.get_named_section_byte_range(".text".to_string()).unwrap();
    assert_eq!(r, Some(ByteRange { start: TEXT_RAW, end: TEXT_RAW + TEXT_RAW_SIZE }));
    let missing = parser.get_named_section_byte_range(".csmap".to_string()).unwrap();
    assert_eq!(missing, None);
}

#[test]
fn directory_flattening_tags_names() {
    // Root -> "ORG" -> { leaf A, "X" -> leaf B }: A keeps the inherited
    // "unknown" tag, B gets "X", in every traversal order.
    let image = full_image();
    let parser = ExeParser::from(&image).unwrap();
    let dir = parser.get_resource_dir(&image, "ORG".to_string()).unwrap();
    assert_eq!(dir.name, "ORG");
    assert_eq!(dir.data_files.len(), 2);
    let a = dir.data_files.iter().find(|df| df.bytes == b"song-a").expect("leaf A");
    let b = dir.data_files.iter().find(|df| df.bytes == b"song-b").expect("leaf B");
    assert_eq!(a.name, "unknown");
    assert_eq!(b.name, "X");
}

#[test]
fn missing_directory_is_an_error() {
    let image = full_image();
    let parser = ExeParser::from(&image).unwrap();
    match parser.get_resource_dir(&image, "WAV".to_string()) {
        Err(GameError::ParseError(m)) => assert_eq!(m, "Failed to find resource directory."),
        _ => panic!("expected a lookup failure"),
    }
}

#[test]
fn bitmap_directory_by_id() {
    let image = full_image();
    let parser = ExeParser::from(&image).unwrap();
    let dir = parser.get_bitmap_dir(&image).unwrap();
    assert_eq!(dir.name, "Bitmap");
    assert_eq!(dir.data_files.len(), 1);
    assert_eq!(dir.data_files[0].bytes, b"pixels");
    assert_eq!(dir.data_files[0].name, "unknown");
}

#[test]
fn bitmap_container_layout_and_round_trip() {
    let payload = vec![1u8, 2, 3];
    let file = make_bitmap_file(&payload);
    assert_eq!(
        file,
        vec![0x42, 0x4D, 17, 0, 0, 0, 0, 0, 0, 0, 0x76, 0, 0, 0, 1, 2, 3]
    );
    // Stripping the fourteen-byte header gives the payload back.
    assert_eq!(&file[14..], &payload[..]);
}

#[test]
fn rva_round_trip_resolves_expected_offset() {
    // The chosen virtual address lies 0x100 bytes into the data section, so
    // the resolved file offset must be the section's raw pointer plus 0x100.
    let image = full_image();
    let parser = ExeParser::from(&image).unwrap();
    let ext = VanillaExtractor::new(image, "data".to_string());
    let range = ext.find_stage_table_offset(&parser).expect("locator hit");
    assert_eq!(range.start, DATA_RAW + 0x100);
    assert_eq!(range.end, DATA_RAW + 0x100 + 95 * 0xC8);
}

#[test]
fn stage_table_bytes_extracted_verbatim() {
    let image = full_image();
    let parser = ExeParser::from(&image).unwrap();
    let expected: Vec<u8> = (0..(95 * 0xC8) as usize).map(|i| (i % 251) as u8).collect();
    let ext = VanillaExtractor::new(image, "data".to_string());
    let pf = ext.extract_stage_table(&parser).unwrap();
    assert_eq!(pf.path, "data/stage.sect");
    assert_eq!(pf.bytes, expected);
}

#[test]
fn short_image_fails_stage_pass_without_panicking() {
    // Same image, but cut off so the resolved range's end lies past the end
    // of the buffer: the pass must fail with an error, not read out of
    // bounds. The section table must stay consistent with the shorter file.
    let data_raw_size = 0x180u32; // too small to hold the stage table
    let total = (DATA_RAW + data_raw_size) as usize;
    let mut image = build_image(&standard_sections(data_raw_size, 0x200), RSRC_RVA, 0x200, total);
    write_resources(&mut image, b"song-a", b"song-b", b"pixels");
    write_signature(&mut image, 0x100);
    let parser = ExeParser::from(&image).unwrap();
    let ext = VanillaExtractor::new(image, "data".to_string());
    match ext.extract_stage_table(&parser) {
        Err(GameError::ParseError(m)) => assert_eq!(m, "Stage table range is out of bounds."),
        _ => panic!("expected a bounds error"),
    }
}

#[test]
fn signature_miss_fails_stage_pass_only() {
    // No signature anywhere: the stage pass reports its failure, and the
    // audio and bitmap passes still run and deliver their files.
    let data_raw_size = 0x100 + 95 * 0xC8;
    let total = (DATA_RAW + data_raw_size) as usize;
    let mut image = build_image(&standard_sections(data_raw_size, 0x200), RSRC_RVA, 0x200, total);
    write_resources(&mut image, b"song-a", b"song-b", b"pixels");
    let ext = VanillaExtractor::new(image, "data".to_string());
    let outcome = ext.extract_data().unwrap();
    assert_eq!(outcome.pass_errors.len(), 1);
    match &outcome.pass_errors[0] {
        GameError::ParseError(m) => {
            assert_eq!(m, "Failed to retrieve stage table from executable.")
        },
        _ => panic!("expected a parse error"),
    }
    let paths: Vec<&str> = outcome.files.iter().map(|pf| pf.path.as_str()).collect();
    assert_eq!(paths, vec!["data/Org/X.org", "data/Org/unknown.org", "data/unknown.pbm"]);
}

#[test]
fn extraction_is_deterministic() {
    let outcome1 = VanillaExtractor::new(full_image(), "data".to_string()).extract_data().unwrap();
    let outcome2 = VanillaExtractor::new(full_image(), "data".to_string()).extract_data().unwrap();
    assert_eq!(outcome1.files.len(), outcome2.files.len());
    for (f1, f2) in outcome1.files.iter().zip(outcome2.files.iter()) {
        assert_eq!(f1.path, f2.path);
        assert_eq!(f1.bytes, f2.bytes);
    }
    assert_eq!(outcome1.pass_errors.len(), outcome2.pass_errors.len());
}

#[test]
fn full_extraction_plans_all_passes() {
    let image = full_image();
    let ext = VanillaExtractor::new(image, "out".to_string());
    let outcome = ext.extract_data().unwrap();
    assert_eq!(outcome.pass_errors.len(), 0);
    let paths: Vec<&str> = outcome.files.iter().map(|pf| pf.path.as_str()).collect();
    assert_eq!(
        paths,
        vec!["out/Org/X.org", "out/Org/unknown.org", "out/unknown.pbm", "out/stage.sect"]
    );
    // The audio pass hands the payload through unchanged; the bitmap pass
    // prepends exactly fourteen bytes of header.
    assert_eq!(outcome.files[0].bytes, b"song-b");
    assert_eq!(outcome.files[1].bytes, b"song-a");
    assert_eq!(outcome.files[2].bytes, make_bitmap_file(&b"pixels".to_vec()));
    assert_eq!(outcome.files[2].bytes[14..], b"pixels"[..]);
}

#[test]
fn id_named_subdirectory_tags_with_decimal() {
    // Root -> "ORG" -> #12 -> leaf: the leaf is tagged "#12".
    let total = 0x1300usize;
    let mut image = build_image(&standard_sections(0x10, 0x200), RSRC_RVA, 0x200, total);
    let rs = RSRC_RAW as usize;
    put16(&mut image, rs + 12, 1);
    put16(&mut image, rs + 14, 0);
    put32(&mut image, rs + 16, 0x80000100);
    put32(&mut image, rs + 20, 0x80000020);
    // "ORG" directory: one id subdir (id 12) at 0x50
    put16(&mut image, rs + 0x20 + 12, 0);
    put16(&mut image, rs + 0x20 + 14, 1);
    put32(&mut image, rs + 0x20 + 16, 12);
    put32(&mut image, rs + 0x20 + 20, 0x80000050);
    // directory at 0x50: one leaf
    put16(&mut image, rs + 0x50 + 12, 0);
    put16(&mut image, rs + 0x50 + 14, 1);
    put32(&mut image, rs + 0x50 + 16, 1);
    put32(&mut image, rs + 0x50 + 20, 0x120);
    // name "ORG"
    put16(&mut image, rs + 0x100, 3);
    put16(&mut image, rs + 0x102, 'O' as u16);
    put16(&mut image, rs + 0x104, 'R' as u16);
    put16(&mut image, rs + 0x106, 'G' as u16);
    // leaf data entry and payload
    put32(&mut image, rs + 0x120, RSRC_RVA + 0x150);
    put32(&mut image, rs + 0x124, 4);
    image[rs + 0x150..rs + 0x154].copy_from_slice(b"beep");
    let parser = ExeParser::from(&image).unwrap();
    let dir = parser.get_resource_dir(&image, "ORG".to_string()).unwrap();
    assert_eq!(dir.data_files.len(), 1);
    assert_eq!(dir.data_files[0].name, "#12");
    assert_eq!(dir.data_files[0].bytes, b"beep");
}

#[test]
fn corrupt_leaf_is_skipped() {
    // A data entry pointing outside the resource region is skipped; the
    // well-formed sibling still comes out.
    let total = 0x1300usize;
    let mut image = build_image(&standard_sections(0x10, 0x200), RSRC_RVA, 0x200, total);
    let rs = RSRC_RAW as usize;
    put16(&mut image, rs + 12, 1);
    put16(&mut image, rs + 14, 0);
    put32(&mut image, rs + 16, 0x80000100);
    put32(&mut image, rs + 20, 0x80000020);
    // "ORG" directory: two id leaves
    put16(&mut image, rs + 0x20 + 12, 0);
    put16(&mut image, rs + 0x20 + 14, 2);
    put32(&mut image, rs + 0x20 + 16, 1);
    put32(&mut image, rs + 0x20 + 20, 0x120); // bad leaf
    put32(&mut image, rs + 0x20 + 24, 2);
    put32(&mut image, rs + 0x20 + 28, 0x130); // good leaf
    put16(&mut image, rs + 0x100, 3);
    put16(&mut image, rs + 0x102, 'O' as u16);
    put16(&mut image, rs + 0x104, 'R' as u16);
    put16(&mut image, rs + 0x106, 'G' as u16);
    // bad: data RVA far outside the region
    put32(&mut image, rs + 0x120, RSRC_RVA + 0x10000);
    put32(&mut image, rs + 0x124, 4);
    // good
    put32(&mut image, rs + 0x130, RSRC_RVA + 0x150);
    put32(&mut image, rs + 0x134, 2);
    image[rs + 0x150..rs + 0x152].copy_from_slice(b"ok");
    let parser = ExeParser::from(&image).unwrap();
    let dir = parser.get_resource_dir(&image, "ORG".to_string()).unwrap();
    assert_eq!(dir.data_files.len(), 1);
    assert_eq!(dir.data_files[0].bytes, b"ok");
}

#[test]
fn first_signature_match_wins() {
    // Two signature occurrences with different operands: the locator must
    // resolve through the first one.
    let data_raw_size = 0x200 + 95 * 0xC8;
    let total = (DATA_RAW + data_raw_size) as usize;
    let mut image = build_image(&standard_sections(data_raw_size, 0x200), RSRC_RVA, 0x200, total);
    write_resources(&mut image, b"song-a", b"song-b", b"pixels");
    write_signature(&mut image, 0x100); // first, at .text + 0x40
    let o = TEXT_RAW as usize + 0x80;
    image[o..o + 13].copy_from_slice(&SIGNATURE);
    put32(&mut image, o + 13, IMAGE_BASE + DATA_RVA + 0x180);
    let parser = ExeParser::from(&image).unwrap();
    let ext = VanillaExtractor::new(image, "data".to_string());
    let range = ext.find_stage_table_offset(&parser).expect("locator hit");
    assert_eq!(range.start, DATA_RAW + 0x100);
}

#[test]
fn non_ascii_subdirectory_name_keeps_inherited_tag() {
    // Root -> "ORG" -> <non-ASCII name> -> leaf: the name is treated as
    // unresolvable and the leaf keeps the inherited "unknown" tag.
    let total = 0x1300usize;
    let mut image = build_image(&standard_sections(0x10, 0x200), RSRC_RVA, 0x200, total);
    let rs = RSRC_RAW as usize;
    put16(&mut image, rs + 12, 1);
    put16(&mut image, rs + 14, 0);
    put32(&mut image, rs + 16, 0x80000100);
    put32(&mut image, rs + 20, 0x80000020);
    // "ORG" directory: one named subdir whose name unit is beyond ASCII
    put16(&mut image, rs + 0x20 + 12, 1);
    put16(&mut image, rs + 0x20 + 14, 0);
    put32(&mut image, rs + 0x20 + 16, 0x80000110);
    put32(&mut image, rs + 0x20 + 20, 0x80000050);
    // directory at 0x50: one leaf
    put16(&mut image, rs + 0x50 + 12, 0);
    put16(&mut image, rs + 0x50 + 14, 1);
    put32(&mut image, rs + 0x50 + 16, 1);
    put32(&mut image, rs + 0x50 + 20, 0x120);
    // name "ORG"
    put16(&mut image, rs + 0x100, 3);
    put16(&mut image, rs + 0x102, 'O' as u16);
    put16(&mut image, rs + 0x104, 'R' as u16);
    put16(&mut image, rs + 0x106, 'G' as u16);
    // the unresolvable name: one unit, far beyond ASCII
    put16(&mut image, rs + 0x110, 1);
    put16(&mut image, rs + 0x112, 0x3042);
    // leaf data entry and payload
    put32(&mut image, rs + 0x120, RSRC_RVA + 0x150);
    put32(&mut image, rs + 0x124, 3);
    image[rs + 0x150..rs + 0x153].copy_from_slice(b"org");
    let parser = ExeParser::from(&image).unwrap();
    let dir = parser.get_resource_dir(&image, "ORG".to_string()).unwrap();
    assert_eq!(dir.data_files.len(), 1);
    assert_eq!(dir.data_files[0].name, "unknown");
    assert_eq!(dir.data_files[0].bytes, b"org");
}

#[test]
fn error_messages_name_their_kind() {
    assert_eq!(
        GameError::FilesystemError("bad layout".to_string()).message(),
        "Filesystem error: bad layout"
    );
    assert_eq!(
        GameError::ResourceLoadError("bad image".to_string()).message(),
        "Error loading resource: bad image"
    );
    assert_eq!(
        GameError::ResourceNotFound("face.bmp".to_string(), vec![]).message(),
        "Resource not found: face.bmp"
    );
    assert_eq!(GameError::IOError("pipe closed".to_string()).message(), "IO error: pipe closed");
    assert_eq!(GameError::ParseError("truncated".to_string()).message(), "Parse error: truncated");
}
