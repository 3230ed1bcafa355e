use std::io::{Cursor, Read};
use file_to_html::archive::{
    ArchiveEntry, ArchiveError, Compressor, ZipCompressInput, ZipCompressor, ZipService,
    ZipServiceTrait, compress_file_content, create_inner_zip, create_zip, create_zip_buffer,
    encode_entries, encode_one,
};
use file_to_html::config::{AesLevel, CompressionKind, Layer};

fn unzip_all(bytes: &[u8], password: Option<&str>) -> Vec<(String, Vec<u8>)> {
    let mut archive = zip::ZipArchive::new(Cursor::new(bytes.to_vec())).expect("not an archive");
    let mut out = Vec::new();
    for i in 0..archive.len() {
        let mut member = match password {
            Some(p) => archive.by_index_decrypt(i, p.as_bytes()).expect("bad member"),
            None => archive.by_index(i).expect("bad member"),
        };
        let name = member.name().to_string();
        let mut data = Vec::new();
        member.read_to_end(&mut data).expect("read failed");
        out.push((name, data));
    }
    out
}

fn sample_entries() -> Vec<ArchiveEntry> {
    vec![
        ArchiveEntry { name: String::from("docs/a.txt"), data: b"alpha".to_vec() },
        ArchiveEntry { name: String::from("docs/sub/b.bin"), data: vec![0, 1, 2, 255, 254] },
        ArchiveEntry { name: String::from("docs/empty"), data: Vec::new() },
    ]
}

fn assert_round_trip(password: Option<&str>, aes: AesLevel, method: CompressionKind) {
    let entries = sample_entries();
    let bytes = encode_entries(&entries, password, aes, method).expect("encode failed");
    let read = unzip_all(&bytes, password);
    assert_eq!(read.len(), entries.len());
    for (got, want) in read.iter().zip(entries.iter()) {
        assert_eq!(got.0, want.name);
        assert_eq!(got.1, want.data);
    }
}

#[test]
fn round_trip_unencrypted_stored() {
    assert_round_trip(None, AesLevel::Aes256, CompressionKind::Stored);
}

#[test]
fn round_trip_unencrypted_deflated() {
    assert_round_trip(None, AesLevel::Aes256, CompressionKind::Deflated);
}

#[test]
fn round_trip_aes128() {
    assert_round_trip(Some("s3cret-128"), AesLevel::Aes128, CompressionKind::Stored);
}

#[test]
fn round_trip_aes192() {
    assert_round_trip(Some("s3cret-192"), AesLevel::Aes192, CompressionKind::Stored);
}

#[test]
fn round_trip_aes256() {
    assert_round_trip(Some("s3cret-256"), AesLevel::Aes256, CompressionKind::Stored);
}

#[test]
fn encode_one_wraps_a_single_buffer() {
    let data = b"payload bytes".to_vec();
    let bytes = encode_one("inner.bin", &data, Some("pw"), AesLevel::Aes256, CompressionKind::Stored)
        .expect("encode failed");
    let read = unzip_all(&bytes, Some("pw"));
    assert_eq!(read.len(), 1);
    assert_eq!(read[0].0, "inner.bin");
    assert_eq!(read[0].1, data);
}

#[test]
fn duplicate_member_names_abort_the_archive() {
    let entries = vec![
        ArchiveEntry { name: String::from("same"), data: b"one".to_vec() },
        ArchiveEntry { name: String::from("same"), data: b"two".to_vec() },
    ];
    let r = encode_entries(&entries, None, AesLevel::Aes256, CompressionKind::Stored);
    assert_eq!(r, Err(ArchiveError::IoFailure));
}

#[test]
fn create_zip_passthrough_returns_the_bytes() {
    let data = vec![9, 8, 7];
    let r = create_zip(&data, "doc.txt", Layer::Passthrough, Some("ignored"), AesLevel::Aes256);
    assert_eq!(r.unwrap(), data);
}

#[test]
fn create_zip_single_names_the_member() {
    let data = b"inner".to_vec();
    let bytes =
        create_zip(&data, "doc.txt", Layer::Single, Some("pw"), AesLevel::Aes256).unwrap();
    let read = unzip_all(&bytes, Some("pw"));
    assert_eq!(read.len(), 1);
    assert_eq!(read[0].0, "doc.txt.zip");
    assert_eq!(read[0].1, data);
}

#[test]
fn create_zip_double_names_the_outer_member() {
    let data = b"inner archive stand-in".to_vec();
    let bytes =
        create_zip(&data, "doc.txt", Layer::Double, Some("pw"), AesLevel::Aes256).unwrap();
    let read = unzip_all(&bytes, Some("pw"));
    assert_eq!(read.len(), 1);
    assert_eq!(read[0].0, "doc.txt_outer.zip");
    assert_eq!(read[0].1, data);
}

#[test]
fn double_layer_opens_twice_with_one_secret() {
    // The archive produced under the double plan with secret "abc123" is
    // extractable by applying "abc123" to the outer member, and the inner
    // archive it yields by applying "abc123" again.
    let entries = sample_entries();
    let inner = create_inner_zip(&entries, CompressionKind::Stored, Some("abc123"), AesLevel::Aes256)
        .expect("inner failed");
    let outer =
        create_zip(&inner, "tree", Layer::Double, Some("abc123"), AesLevel::Aes256).expect("outer");
    let outer_read = unzip_all(&outer, Some("abc123"));
    assert_eq!(outer_read.len(), 1);
    assert_eq!(outer_read[0].0, "tree_outer.zip");
    let inner_read = unzip_all(&outer_read[0].1, Some("abc123"));
    assert_eq!(inner_read.len(), 3);
    for (got, want) in inner_read.iter().zip(entries.iter()) {
        assert_eq!(got.0, want.name);
        assert_eq!(got.1, want.data);
    }
}

#[test]
fn create_zip_buffer_is_unencrypted() {
    let data = b"plain".to_vec();
    let bytes = create_zip_buffer("plain.txt", &data, CompressionKind::Deflated).unwrap();
    let read = unzip_all(&bytes, None);
    assert_eq!(read, vec![(String::from("plain.txt"), data)]);
}

#[test]
fn compress_file_content_encrypts_one_member() {
    let data = b"sensitive".to_vec();
    let bytes = compress_file_content(&data, "s.txt", Some("k"), AesLevel::Aes128).unwrap();
    let read = unzip_all(&bytes, Some("k"));
    assert_eq!(read, vec![(String::from("s.txt"), data)]);
}

#[test]
fn zip_compressor_encodes_members() {
    let mut compressor =
        ZipCompressor::new(CompressionKind::Stored, Some("pw"), AesLevel::Aes256, true);
    let entries = sample_entries();
    let bytes = compressor.compress_files(&entries).expect("compress failed");
    let read = unzip_all(&bytes, Some("pw"));
    assert_eq!(read.len(), entries.len());
    assert_eq!(read[0].0, "docs/a.txt");
    assert_eq!(read[0].1, b"alpha".to_vec());
}

#[test]
fn wrong_password_does_not_yield_the_payload() {
    let data = b"guarded".to_vec();
    let bytes = encode_one("g.bin", &data, Some("right"), AesLevel::Aes256, CompressionKind::Stored)
        .expect("encode failed");
    let mut archive = zip::ZipArchive::new(Cursor::new(bytes)).expect("archive");
    let recovered = match archive.by_index_decrypt(0, b"wrong") {
        Ok(mut member) => {
            let mut out = Vec::new();
            match member.read_to_end(&mut out) {
                Ok(_n) => out,
                Err(_e) => Vec::new(),
            }
        },
        Err(_e) => Vec::new(),
    };
    assert_ne!(recovered, data);
}

#[test]
fn zip_service_encodes_and_measures_a_request() {
    let service = ZipService::new();
    let input = ZipCompressInput {
        entries: sample_entries(),
        input_path: String::from("docs"),
        method: CompressionKind::Stored,
        password: Some(String::from("pw")),
        aes_mode: AesLevel::Aes256,
        no_progress: true,
    };
    let out = service.compress_files(&input).expect("encode failed");
    assert_eq!(out.total_size, 10);
    let read = unzip_all(&out.zip_buffer, Some("pw"));
    assert_eq!(read.len(), 3);
    assert_eq!(read[1].0, "docs/sub/b.bin");
}

#[test]
fn unencrypted_output_is_deterministic() {
    // Without a secret nothing random or time-dependent enters this build's
    // output, so two runs over the same members are byte-identical.
    let a = encode_entries(&sample_entries(), None, AesLevel::Aes256, CompressionKind::Stored)
        .expect("encode failed");
    let b = encode_entries(&sample_entries(), None, AesLevel::Aes256, CompressionKind::Stored)
        .expect("encode failed");
    assert_eq!(a, b);
    let c = encode_entries(&sample_entries(), None, AesLevel::Aes256, CompressionKind::Deflated)
        .expect("encode failed");
    let d = encode_entries(&sample_entries(), None, AesLevel::Aes256, CompressionKind::Deflated)
        .expect("encode failed");
    assert_eq!(c, d);
}

#[test]
fn encrypted_archive_refuses_extraction_without_the_secret() {
    let data = b"locked".to_vec();
    let bytes = encode_one("l.bin", &data, Some("pw"), AesLevel::Aes256, CompressionKind::Stored)
        .expect("encode failed");
    let mut archive = zip::ZipArchive::new(Cursor::new(bytes)).expect("archive");
    assert!(archive.by_index(0).is_err());
}

fn aes_marker_mode(bytes: &[u8]) -> Option<u8> {
    // The AES extra field: id 0x9901, length 7, vendor version, "AE", mode.
    let marker = [0x01u8, 0x99, 0x07, 0x00, 0x02, 0x00, 0x41, 0x45];
    bytes
        .windows(marker.len() + 1)
        .find(|w| w[..marker.len()] == marker)
        .map(|w| w[marker.len()])
}

#[test]
fn members_declare_the_requested_aes_strength() {
    let data = b"strength".to_vec();
    for (level, mode_byte) in [
        (AesLevel::Aes128, 0x01u8),
        (AesLevel::Aes192, 0x02u8),
        (AesLevel::Aes256, 0x03u8),
    ] {
        let bytes = encode_one("s.bin", &data, Some("pw"), level, CompressionKind::Stored)
            .expect("encode failed");
        assert_eq!(aes_marker_mode(&bytes), Some(mode_byte));
    }
    let plain = encode_one("s.bin", &data, None, AesLevel::Aes256, CompressionKind::Stored)
        .expect("encode failed");
    assert_eq!(aes_marker_mode(&plain), None);
}

#[test]
fn overlong_member_names_are_rejected_not_fatal() {
    let long_name: String = std::iter::repeat('n').take(70000).collect();
    let data = b"x".to_vec();
    let r = encode_one(&long_name, &data, None, AesLevel::Aes256, CompressionKind::Stored);
    assert_eq!(r, Err(ArchiveError::NameTooLong));
    let entries = vec![ArchiveEntry { name: long_name.clone(), data: data.clone() }];
    let r2 = encode_entries(&entries, Some("pw"), AesLevel::Aes256, CompressionKind::Stored);
    assert_eq!(r2, Err(ArchiveError::NameTooLong));
    let r3 = create_zip(&data, &long_name, Layer::Double, None, AesLevel::Aes256);
    assert_eq!(r3, Err(ArchiveError::NameTooLong));
}

#[test]
fn the_name_field_boundary_is_usable() {
    let name: String = std::iter::repeat('n').take(65535).collect();
    let data = b"edge".to_vec();
    let bytes = encode_one(&name, &data, None, AesLevel::Aes256, CompressionKind::Stored)
        .expect("a name that fills the field exactly is fine");
    let read = unzip_all(&bytes, None);
    assert_eq!(read[0].0, name);
    assert_eq!(read[0].1, data);
}
