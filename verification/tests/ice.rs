use pso2server::ice::{align, ascii_of, has_dds, write_utf8, Group, IceFileInfo, IceWriter};

fn u32_at(b: &[u8], off: usize) -> u32 {
    u32::from_le_bytes([b[off], b[off + 1], b[off + 2], b[off + 3]])
}

fn file(name: &str, ext: &str, data: &[u8]) -> IceFileInfo {
    IceFileInfo {
        filename: name.to_string(),
        file_extension: ext.to_string(),
        file_size: data.len() as u32,
        data: data.to_vec(),
    }
}

#[test]
fn align_rounds_up() {
    assert_eq!(align(0, 16), 0);
    assert_eq!(align(1, 16), 16);
    assert_eq!(align(16, 16), 16);
    assert_eq!(align(17, 16), 32);
    assert_eq!(align(5, 1), 5);
}

#[test]
fn fixed_fields() {
    assert_eq!(write_utf8("abc", 5), vec![b'a', b'b', b'c', 0, 0]);
    assert_eq!(write_utf8("abcdef", 4), vec![b'a', b'b', b'c', b'd']);
    assert_eq!(write_utf8("aé", 3), vec![b'a', 0, 0]);
    assert_eq!(ascii_of("xé y"), vec![b'x', b' ', b'y']);
}

#[test]
fn dds_detection() {
    assert!(has_dds("dds"));
    assert!(has_dds("xddsx"));
    assert!(!has_dds("ds"));
    assert!(!has_dds("dsd"));
    assert!(!has_dds(""));
}

#[test]
fn empty_archive() {
    let w = IceWriter::new();
    assert!(w.fits());
    let out = w.into_inner();
    assert_eq!(out.len(), 0x150);
    assert_eq!(&out[0..4], b"ICE\0");
    assert_eq!(u32_at(&out, 4), 0);
    assert_eq!(u32_at(&out, 8), 4);
    assert_eq!(u32_at(&out, 12), 0x80);
    assert_eq!(u32_at(&out, 16), 0xFF);
    assert_eq!(u32_at(&out, 28), 0x150);
}

#[test]
fn one_file_archive_layout() {
    let mut w = IceWriter::new();
    w.new_file(file("a.txt", "txt", &[1, 2, 3]));
    assert!(w.fits());
    let out = w.into_inner();
    // name field 16, data offset 0x50, data 3, padding to 96
    assert_eq!(out.len(), 0x150 + 96);
    assert_eq!(u32_at(&out, 28), 0x150 + 96);
    // group table
    assert_eq!(u32_at(&out, 0x120), 96);
    assert_eq!(u32_at(&out, 0x128), 1);
    assert_eq!(u32_at(&out, 0x130), 0);
    assert_eq!(u32_at(&out, 0x138), 0);
    let body = &out[0x150..];
    assert_eq!(&body[0..4], b"txt\0");
    assert_eq!(u32_at(body, 4), 96);
    assert_eq!(u32_at(body, 8), 3);
    assert_eq!(u32_at(body, 12), 0x50);
    assert_eq!(u32_at(body, 16), 6);
    assert_eq!(&body[0x40..0x45], b"a.txt");
    assert_eq!(&body[0x50..0x53], &[1, 2, 3]);
    assert!(body[0x53..].iter().all(|b| *b == 0));
}

#[test]
fn archive_checksums_come_from_crc32() {
    let mut w = IceWriter::new();
    w.new_file(file("a.bin", "bin", &[9; 20]));
    w.load_group(Group::Group2);
    w.new_file(file("b.bin", "bin", &[7; 5]));
    let out = w.into_inner();
    let body = &out[0x150..];
    let crc = crc32fast::hash(body);
    assert_ne!(crc, 0);
    assert_eq!(u32_at(&out, 20), crc);
    assert_eq!(u32_at(&out, 0x12C), crc32fast::hash(&[]));
    assert_eq!(u32_at(&out, 0x13C), crc);
    let len1 = u32_at(&out, 0x120) as usize;
    let len2 = u32_at(&out, 0x130) as usize;
    assert_eq!(len1 + len2, body.len());
    assert_eq!(u32_at(&out, 0x128), 1);
    assert_eq!(u32_at(&out, 0x138), 1);
}

#[test]
fn writes_extend_the_current_file() {
    let mut w = IceWriter::new();
    w.new_file(file("c.dat", "dat", &[1]));
    assert_eq!(w.write(&[2, 3]), 2);
    let out = w.into_inner();
    let body = &out[0x150..];
    assert_eq!(u32_at(body, 8), 3);
    assert_eq!(&body[0x50..0x53], &[1, 2, 3]);
}

#[test]
fn dds_files_count_extra_size() {
    let mut w = IceWriter::new();
    w.new_file(file("t.dds", "dds", &[1; 20]));
    let out = w.into_inner();
    let body = &out[0x150..];
    // 0x50 + 20 + 20 % 16 = 104, rounded up to 112; the extra 4 bytes are
    // counted but not written, so the entry takes 0x50 + 20 + 8 bytes
    assert_eq!(u32_at(body, 4), 112);
    assert_eq!(body.len(), 108);
}
