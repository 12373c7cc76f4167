use std::io::Write;

use plcrash::error::{BuildId, ErrorKind};
use plcrash::symbolicate::{build_id_from_bytes, Symbolicate};

const UUID_BYTES: [u8; 16] = [
    0x5a, 0x53, 0x7c, 0xe0, 0xc8, 0x87, 0x33, 0x73, 0xb4, 0xd9, 0x21, 0x96, 0x43, 0x6a, 0x4f, 0x14,
];

fn push_u32_le(v: &mut Vec<u8>, x: u32) {
    v.extend_from_slice(&x.to_le_bytes());
}

fn push_u64_le(v: &mut Vec<u8>, x: u64) {
    v.extend_from_slice(&x.to_le_bytes());
}

fn push_u32_be(v: &mut Vec<u8>, x: u32) {
    v.extend_from_slice(&x.to_be_bytes());
}

/// A minimal 64-bit Mach-O image: a header, optionally an identity load
/// command, and one `__TEXT` segment without sections.
fn minimal_macho(with_uuid: bool, vmaddr: u64) -> Vec<u8> {
    let mut m = Vec::new();
    let ncmds: u32 = if with_uuid { 2 } else { 1 };
    let sizeofcmds: u32 = if with_uuid { 24 + 72 } else { 72 };
    push_u32_le(&mut m, 0xfeedfacf); // 64-bit magic
    push_u32_le(&mut m, 0x0100000c); // cputype arm64
    push_u32_le(&mut m, 0); // cpusubtype
    push_u32_le(&mut m, 10); // filetype: debug companion
    push_u32_le(&mut m, ncmds);
    push_u32_le(&mut m, sizeofcmds);
    push_u32_le(&mut m, 0); // flags
    push_u32_le(&mut m, 0); // reserved
    if with_uuid {
        push_u32_le(&mut m, 0x1b); // LC_UUID
        push_u32_le(&mut m, 24);
        m.extend_from_slice(&UUID_BYTES);
    }
    push_u32_le(&mut m, 0x19); // LC_SEGMENT_64
    push_u32_le(&mut m, 72);
    let mut segname = [0u8; 16];
    segname[..6].copy_from_slice(b"__TEXT");
    m.extend_from_slice(&segname);
    push_u64_le(&mut m, vmaddr);
    push_u64_le(&mut m, 0); // vmsize
    push_u64_le(&mut m, 0); // fileoff
    push_u64_le(&mut m, 0); // filesize
    push_u32_le(&mut m, 0); // maxprot
    push_u32_le(&mut m, 0); // initprot
    push_u32_le(&mut m, 0); // nsects
    push_u32_le(&mut m, 0); // flags
    m
}

/// A two-slice multi-architecture container; only the first slice carries a
/// build identifier.
fn fat_object() -> Vec<u8> {
    let slice1 = minimal_macho(true, 0x100000000);
    let slice2 = minimal_macho(false, 0);
    let off1: u32 = 8 + 2 * 20;
    let off2: u32 = off1 + slice1.len() as u32;
    let mut f = Vec::new();
    push_u32_be(&mut f, 0xcafebabe);
    push_u32_be(&mut f, 2);
    // arch 1
    push_u32_be(&mut f, 0x0100000c);
    push_u32_be(&mut f, 0);
    push_u32_be(&mut f, off1);
    push_u32_be(&mut f, slice1.len() as u32);
    push_u32_be(&mut f, 0);
    // arch 2
    push_u32_be(&mut f, 0x0100000c);
    push_u32_be(&mut f, 1);
    push_u32_be(&mut f, off2);
    push_u32_be(&mut f, slice2.len() as u32);
    push_u32_be(&mut f, 0);
    f.extend_from_slice(&slice1);
    f.extend_from_slice(&slice2);
    f
}

const INFO_PLIST: &str = "<?xml version=\"1.0\" encoding=\"UTF-8\"?>\n<plist version=\"1.0\">\n<dict>\n<key>CFBundleIdentifier</key>\n<string>org.example.myapp</string>\n<key>CFBundleVersion</key>\n<string>1.0</string>\n</dict>\n</plist>\n";

fn build_archive(with_plist: bool, with_object: bool) -> Vec<u8> {
    let cursor = std::io::Cursor::new(Vec::new());
    let mut w = zip::ZipWriter::new(cursor);
    let opts = zip::write::SimpleFileOptions::default()
        .compression_method(zip::CompressionMethod::Stored);
    w.add_directory("MyApp.dSYM/", opts).unwrap();
    if with_plist {
        w.start_file("MyApp.dSYM/Contents/Info.plist", opts).unwrap();
        w.write_all(INFO_PLIST.as_bytes()).unwrap();
    }
    if with_object {
        w.start_file("MyApp.dSYM/Contents/Resources/DWARF/MyApp", opts).unwrap();
        w.write_all(&fat_object()).unwrap();
    }
    w.finish().unwrap().into_inner()
}

#[test]
fn engine_loads_fat_object_and_skips_identityless_slice() {
    let sym = Symbolicate::new(build_archive(true, true)).unwrap();
    let id = build_id_from_bytes(&UUID_BYTES);
    // The slice with an identity registers; its sibling without one is
    // skipped without failing the load.
    assert!(sym.get(&id).is_some());
    let lookup = sym.get(&id).unwrap();
    assert_eq!(lookup.uuid, Some(id));
    assert_eq!(lookup.slide_addr, 0x100000000);
    assert_eq!(lookup.info.identifier, "org.example.myapp");
    assert_eq!(lookup.info.version, "1.0");
    assert_eq!(lookup.info.short_version, None);
    assert_eq!(lookup.info.describe(), "org.example.myapp (1.0)");
}

#[test]
fn queries_are_deterministic() {
    let sym = Symbolicate::new(build_archive(true, true)).unwrap();
    let id = build_id_from_bytes(&UUID_BYTES);
    let first = sym.lookup(&id, 62836).unwrap();
    let second = sym.lookup(&id, 62836).unwrap();
    assert_eq!(first, second);
    let f1 = sym.frames(&id, 62836).unwrap().into_vec().len();
    let f2 = sym.frames(&id, 62836).unwrap().into_vec().len();
    assert_eq!(f1, f2);
}

#[test]
fn absent_identifier_yields_none_never_error() {
    let sym = Symbolicate::new(build_archive(true, true)).unwrap();
    let absent = BuildId { hi: 1, lo: 2 };
    assert!(sym.get(&absent).is_none());
    assert_eq!(sym.lookup(&absent, 12345).unwrap(), None);
    assert_eq!(sym.frames(&absent, 12345).unwrap().into_vec().len(), 0);
}

#[test]
fn empty_archive_gives_empty_engine() {
    let cursor = std::io::Cursor::new(Vec::new());
    let w = zip::ZipWriter::new(cursor);
    let bytes = w.finish().unwrap().into_inner();
    let sym = Symbolicate::new(bytes).unwrap();
    let id = build_id_from_bytes(&UUID_BYTES);
    assert!(sym.get(&id).is_none());
    assert_eq!(sym.lookup(&id, 1).unwrap(), None);
}

#[test]
fn unreadable_archive_is_archive_error() {
    assert!(matches!(Symbolicate::new(vec![1, 2, 3, 4]), Err(ErrorKind::ArchiveError)));
}

#[test]
fn missing_identity_metadata_is_bundle_error() {
    assert!(matches!(
        Symbolicate::new(build_archive(false, true)),
        Err(ErrorKind::BundleIdentityError)
    ));
}

#[test]
fn missing_debug_object_is_bundle_error() {
    // Locating the debug object is the loader's duty, so its absence is a
    // bundle failure rather than an object-format failure.
    assert!(matches!(
        Symbolicate::new(build_archive(true, false)),
        Err(ErrorKind::BundleIdentityError)
    ));
}

#[test]
fn truncated_debug_object_is_object_error() {
    let cursor = std::io::Cursor::new(Vec::new());
    let mut w = zip::ZipWriter::new(cursor);
    let opts = zip::write::SimpleFileOptions::default()
        .compression_method(zip::CompressionMethod::Stored);
    w.add_directory("MyApp.dSYM/", opts).unwrap();
    w.start_file("MyApp.dSYM/Contents/Info.plist", opts).unwrap();
    w.write_all(INFO_PLIST.as_bytes()).unwrap();
    w.start_file("MyApp.dSYM/Contents/Resources/DWARF/MyApp", opts).unwrap();
    w.write_all(&[0xca, 0xfe]).unwrap();
    let bytes = w.finish().unwrap().into_inner();
    assert!(matches!(Symbolicate::new(bytes), Err(ErrorKind::ObjectParseError)));
}

#[test]
fn identity_missing_version_is_bundle_error() {
    let partial = "<?xml version=\"1.0\" encoding=\"UTF-8\"?>\n<plist version=\"1.0\">\n<dict>\n<key>CFBundleIdentifier</key>\n<string>org.example.myapp</string>\n</dict>\n</plist>\n";
    let cursor = std::io::Cursor::new(Vec::new());
    let mut w = zip::ZipWriter::new(cursor);
    let opts = zip::write::SimpleFileOptions::default()
        .compression_method(zip::CompressionMethod::Stored);
    w.add_directory("MyApp.dSYM/", opts).unwrap();
    w.start_file("MyApp.dSYM/Contents/Info.plist", opts).unwrap();
    w.write_all(partial.as_bytes()).unwrap();
    w.start_file("MyApp.dSYM/Contents/Resources/DWARF/MyApp", opts).unwrap();
    w.write_all(&fat_object()).unwrap();
    let bytes = w.finish().unwrap().into_inner();
    assert!(matches!(Symbolicate::new(bytes), Err(ErrorKind::BundleIdentityError)));
}

#[test]
fn unrecognized_object_is_object_error() {
    let cursor = std::io::Cursor::new(Vec::new());
    let mut w = zip::ZipWriter::new(cursor);
    let opts = zip::write::SimpleFileOptions::default()
        .compression_method(zip::CompressionMethod::Stored);
    w.add_directory("MyApp.dSYM/", opts).unwrap();
    w.start_file("MyApp.dSYM/Contents/Info.plist", opts).unwrap();
    w.write_all(INFO_PLIST.as_bytes()).unwrap();
    w.start_file("MyApp.dSYM/Contents/Resources/DWARF/MyApp", opts).unwrap();
    w.write_all(&[0u8; 64]).unwrap();
    let bytes = w.finish().unwrap().into_inner();
    assert!(matches!(Symbolicate::new(bytes), Err(ErrorKind::ObjectParseError)));
}

#[test]
fn build_id_packs_big_endian() {
    let id = build_id_from_bytes(&UUID_BYTES);
    assert_eq!(id.hi, 0x5a537ce0c8873373);
    assert_eq!(id.lo, 0xb4d92196436a4f14);
}

#[test]
fn error_messages_are_nonempty() {
    assert!(!ErrorKind::WrongMagic.message().is_empty());
    assert!(!ErrorKind::ResolutionError(BuildId { hi: 0, lo: 0 }, 7).message().is_empty());
}

#[test]
fn duplicate_identifier_last_bundle_wins() {
    // Two bundles carry the same build identifier; the resolver of the
    // bundle enumerated later overwrites the earlier one.
    let opts = zip::write::SimpleFileOptions::default()
        .compression_method(zip::CompressionMethod::Stored);
    let cursor = std::io::Cursor::new(Vec::new());
    let mut w = zip::ZipWriter::new(cursor);
    w.add_directory("First.dSYM/", opts).unwrap();
    w.start_file("First.dSYM/Contents/Info.plist", opts).unwrap();
    w.write_all(INFO_PLIST.as_bytes()).unwrap();
    w.start_file("First.dSYM/Contents/Resources/DWARF/First", opts).unwrap();
    w.write_all(&minimal_macho(true, 0x1000)).unwrap();
    w.add_directory("Second.dSYM/", opts).unwrap();
    w.start_file("Second.dSYM/Contents/Info.plist", opts).unwrap();
    w.write_all(INFO_PLIST.as_bytes()).unwrap();
    w.start_file("Second.dSYM/Contents/Resources/DWARF/Second", opts).unwrap();
    w.write_all(&minimal_macho(true, 0x2000)).unwrap();
    let bytes = w.finish().unwrap().into_inner();
    let sym = Symbolicate::new(bytes).unwrap();
    let id = build_id_from_bytes(&UUID_BYTES);
    let lookup = sym.get(&id).unwrap();
    assert_eq!(lookup.slide_addr, 0x2000);
    assert_eq!(lookup.name, "Second.dSYM/");
}
