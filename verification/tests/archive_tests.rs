use std::io::Write;

use ruder::{Archive, ArchiveError};

fn build_tar(files: &[(&str, &[u8])]) -> Vec<u8> {
    let mut builder = tar::Builder::new(Vec::new());
    for (path, content) in files {
        let mut header = tar::Header::new_gnu();
        header.set_size(content.len() as u64);
        header.set_mode(0o644);
        header.set_cksum();
        builder.append_data(&mut header, path, *content).unwrap();
    }
    builder.into_inner().unwrap()
}

fn build_tar_gz(files: &[(&str, &[u8])]) -> Vec<u8> {
    let tar_bytes = build_tar(files);
    let mut encoder = flate2::write::GzEncoder::new(Vec::new(), flate2::Compression::default());
    encoder.write_all(&tar_bytes).unwrap();
    encoder.finish().unwrap()
}

fn build_zip(files: &[(&str, &[u8])]) -> Vec<u8> {
    let mut writer = zip::ZipWriter::new(std::io::Cursor::new(Vec::new()));
    let options = zip::write::SimpleFileOptions::default();
    for (path, content) in files {
        writer.start_file(*path, options).unwrap();
        writer.write_all(content).unwrap();
    }
    writer.finish().unwrap().into_inner()
}

const FILES: &[(&str, &[u8])] = &[
    ("tool-2.0.0/README", b"read me"),
    ("tool-2.0.0/tool", b"#!/bin/sh\necho hi"),
];

#[test]
fn suffix_tar_gz_selects_tar_gz() {
    let ar = Archive::new(build_tar_gz(FILES), "tool-2.0.0-linux.tar.gz").unwrap();
    assert!(matches!(ar, Archive::TarGz { .. }));
}

#[test]
fn suffix_tgz_selects_tar_gz() {
    let ar = Archive::new(build_tar_gz(FILES), "tool-2.0.0-linux.tgz").unwrap();
    assert!(matches!(ar, Archive::TarGz { .. }));
}

#[test]
fn suffix_tar_selects_tar() {
    let ar = Archive::new(build_tar(FILES), "tool-2.0.0-linux.tar").unwrap();
    assert!(matches!(ar, Archive::Tar { .. }));
}

#[test]
fn suffix_zip_selects_zip() {
    let ar = Archive::new(build_zip(FILES), "tool-2.0.0-windows.zip").unwrap();
    assert!(matches!(ar, Archive::Zip { .. }));
}

#[test]
fn other_suffix_selects_raw() {
    let ar = Archive::new(b"just bytes".to_vec(), "tool-2.0.0-linux").unwrap();
    assert!(matches!(ar, Archive::Raw { .. }));
    let ar = Archive::new(b"just bytes".to_vec(), "tool.tar.xz").unwrap();
    assert!(matches!(ar, Archive::Raw { .. }));
    let ar = Archive::new(b"just bytes".to_vec(), "tool.exe").unwrap();
    assert!(matches!(ar, Archive::Raw { .. }));
}

#[test]
fn round_trip_same_member_from_all_formats() {
    let mut from_tar = Archive::new(build_tar(FILES), "t.tar").unwrap();
    let mut from_tar_gz = Archive::new(build_tar_gz(FILES), "t.tar.gz").unwrap();
    let mut from_zip = Archive::new(build_zip(FILES), "t.zip").unwrap();

    let a = from_tar.extract("tool-2.0.0/tool").unwrap().read_all();
    let b = from_tar_gz.extract("tool-2.0.0/tool").unwrap().read_all();
    let c = from_zip.extract("tool-2.0.0/tool").unwrap().read_all();

    assert_eq!(a, b"#!/bin/sh\necho hi".to_vec());
    assert_eq!(a, b);
    assert_eq!(b, c);
}

#[test]
fn member_not_found_in_tar() {
    let mut ar = Archive::new(build_tar(FILES), "t.tar").unwrap();
    match ar.extract("missing/path") {
        Err(ArchiveError::MemberNotFound { member, archive }) => {
            assert_eq!(member, "missing/path");
            assert_eq!(archive, "t.tar");
        }
        other => panic!("expected MemberNotFound, got {:?}", other),
    }
}

#[test]
fn member_not_found_in_tar_gz() {
    let mut ar = Archive::new(build_tar_gz(FILES), "t.tar.gz").unwrap();
    assert!(matches!(
        ar.extract("missing/path"),
        Err(ArchiveError::MemberNotFound { .. })
    ));
}

#[test]
fn member_not_found_in_zip() {
    let mut ar = Archive::new(build_zip(FILES), "t.zip").unwrap();
    assert!(matches!(
        ar.extract("missing/path"),
        Err(ArchiveError::MemberNotFound { .. })
    ));
}

#[test]
fn raw_ignores_member_path() {
    let mut ar = Archive::new(b"the whole payload".to_vec(), "tool").unwrap();
    let bytes = ar.extract("anything/at/all").unwrap().read_all();
    assert_eq!(bytes, b"the whole payload".to_vec());
}

#[test]
fn zip_construction_rejects_garbage() {
    match Archive::new(b"this is not a zip file".to_vec(), "t.zip") {
        Err(ArchiveError::CorruptArchive { archive }) => assert_eq!(archive, "t.zip"),
        other => panic!("expected CorruptArchive, got {:?}", other),
    }
}

#[test]
fn tar_garbage_fails_on_extraction() {
    let mut ar = Archive::new(b"this is not a tar file at all, but long enough".to_vec(), "t.tar")
        .unwrap();
    assert!(matches!(
        ar.extract("anything"),
        Err(ArchiveError::CorruptArchive { .. })
    ));
}

#[test]
fn tar_gz_garbage_fails_on_extraction() {
    let mut ar = Archive::new(b"not gzip".to_vec(), "t.tar.gz").unwrap();
    assert!(matches!(
        ar.extract("anything"),
        Err(ArchiveError::CorruptArchive { .. })
    ));
}

#[test]
fn zip_supports_repeated_extraction() {
    let mut ar = Archive::new(build_zip(FILES), "t.zip").unwrap();
    let first = ar.extract("tool-2.0.0/tool").unwrap().read_all();
    let second = ar.extract("tool-2.0.0/README").unwrap().read_all();
    assert_eq!(first, b"#!/bin/sh\necho hi".to_vec());
    assert_eq!(second, b"read me".to_vec());
}

#[test]
fn extract_reads_in_chunks() {
    let mut ar = Archive::new(b"0123456789".to_vec(), "payload.bin").unwrap();
    let mut stream = ar.extract("ignored").unwrap();
    assert_eq!(stream.remaining(), 10);

    let mut buf = vec![0u8; 4];
    assert_eq!(stream.read(&mut buf), 4);
    assert_eq!(buf, b"0123".to_vec());
    assert_eq!(stream.read(&mut buf), 4);
    assert_eq!(buf, b"4567".to_vec());
    assert_eq!(stream.read(&mut buf), 2);
    assert_eq!(&buf[..2], b"89");
    assert_eq!(stream.read(&mut buf), 0);
    assert_eq!(stream.remaining(), 0);
}
