use rune_kit::package::{extract_single_binary, PackageError};
use std::io::{Cursor, Write};

fn zip_of(members: &[(&str, &[u8])]) -> Vec<u8> {
    let mut writer = zip::ZipWriter::new(Cursor::new(Vec::new()));
    let options = zip::write::SimpleFileOptions::default().compression_method(zip::CompressionMethod::Stored);
    for (name, data) in members {
        writer.start_file(*name, options).unwrap();
        writer.write_all(data).unwrap();
    }
    writer.finish().unwrap().into_inner()
}

fn tar_gz_of(members: &[(&str, &[u8])]) -> Vec<u8> {
    let encoder = flate2::write::GzEncoder::new(Vec::new(), flate2::Compression::default());
    let mut builder = tar::Builder::new(encoder);
    for (name, data) in members {
        let mut header = tar::Header::new_gnu();
        header.set_size(data.len() as u64);
        header.set_mode(0o755);
        header.set_cksum();
        builder.append_data(&mut header, name, *data).unwrap();
    }
    builder.into_inner().unwrap().finish().unwrap()
}

fn missing(r: Result<Vec<u8>, PackageError>) -> String {
    match r {
        Err(PackageError::SelfUpdate(m)) => m,
        other => panic!("unexpected {:?}", other),
    }
}

#[test]
fn zip_member_in_a_directory_is_the_binary() {
    let bytes = zip_of(&[("README.md", b"docs"), ("dist/rune", b"\x7fELF-new"), ("rune", b"second")]);
    assert_eq!(extract_single_binary(&bytes, "rune").unwrap(), b"\x7fELF-new".to_vec());
}

#[test]
fn zip_member_needs_a_whole_name() {
    let bytes = zip_of(&[("dist/xrune", b"no"), ("runes", b"no")]);
    assert_eq!(
        missing(extract_single_binary(&bytes, "rune")),
        "Binary 'rune' not found inside downloaded archive"
    );
}

#[test]
fn broken_zip_is_refused() {
    let bytes = b"PK\x03\x04 not really a zip".to_vec();
    match extract_single_binary(&bytes, "rune") {
        Err(PackageError::InvalidSpec(m)) => assert!(m.starts_with("Zip read error: "), "{}", m),
        other => panic!("unexpected {:?}", other),
    }
}

#[test]
fn tarball_entry_is_found_by_file_name() {
    let bytes = tar_gz_of(&[("pkg/LICENSE", b"mit"), ("pkg/rune", b"binary-bytes")]);
    assert_eq!(extract_single_binary(&bytes, "rune").unwrap(), b"binary-bytes".to_vec());
}

#[test]
fn tarball_without_the_binary() {
    let bytes = tar_gz_of(&[("pkg/rune-helper", b"x")]);
    assert_eq!(
        missing(extract_single_binary(&bytes, "rune")),
        "Binary 'rune' not found inside downloaded archive"
    );
}

#[test]
fn plain_download_is_the_binary() {
    let bytes = b"#!/bin/sh\necho rune\n".to_vec();
    assert_eq!(extract_single_binary(&bytes, "rune").unwrap(), bytes);
}
