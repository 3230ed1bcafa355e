use std::io::{Cursor, Read};
use file_to_html::archive::ArchiveEntry;
use file_to_html::config::{AesLevel, CompressionKind, Layer, PasswordMode};
use file_to_html::archive::create_zip_buffer;
use file_to_html::convert::{
    ConversionError, ConversionInput, ConversionUnits, LoadedFile, compress_single_file,
    convert_file_to_html, execute_conversion, finalize_compression, process_compressed,
    process_individual,
};
use file_to_html::password::PasswordError;
use base64::Engine;

fn unzip_with(bytes: &[u8], password: Option<&str>) -> Vec<(String, Vec<u8>)> {
    let mut archive = zip::ZipArchive::new(Cursor::new(bytes.to_vec())).expect("not an archive");
    let mut out = Vec::new();
    for i in 0..archive.len() {
        let mut member = match password {
            Some(p) => archive.by_index_decrypt(i, p.as_bytes()).expect("bad member"),
            None => archive.by_index(i).expect("bad member"),
        };
        let name = member.name().to_string();
        let mut data = Vec::new();
        member.read_to_end(&mut data).expect("read failed");
        out.push((name, data));
    }
    out
}

fn base64_payload_of(html: &str) -> Vec<u8> {
    let marker = "base64,";
    let start = html.find(marker).expect("no payload") + marker.len();
    let end = html[start..].find('"').expect("unterminated payload") + start;
    base64::engine::general_purpose::STANDARD
        .decode(&html[start..end])
        .expect("bad base64")
}

#[test]
fn single_layer_with_secret_wraps_the_file() {
    let data = b"file body".to_vec();
    let out = compress_single_file(&data, "f.txt", true, Some("pw"), AesLevel::Aes256, Layer::Single)
        .unwrap();
    let read = unzip_with(&out, Some("pw"));
    assert_eq!(read, vec![(String::from("f.txt"), data)]);
}

#[test]
fn passthrough_layer_returns_the_bytes() {
    let data = b"as is".to_vec();
    let out =
        compress_single_file(&data, "f.txt", true, None, AesLevel::Aes256, Layer::Passthrough)
            .unwrap();
    assert_eq!(out, data);
}

#[test]
fn uncompressed_single_layer_without_secret_returns_the_bytes() {
    let data = b"raw".to_vec();
    let out = compress_single_file(&data, "f.txt", false, None, AesLevel::Aes256, Layer::Single)
        .unwrap();
    assert_eq!(out, data);
}

#[test]
fn double_layer_per_file_opens_twice() {
    let data = b"the payload".to_vec();
    let out = compress_single_file(&data, "f.txt", true, Some("pw"), AesLevel::Aes256, Layer::Double)
        .unwrap();
    let outer = unzip_with(&out, Some("pw"));
    assert_eq!(outer.len(), 1);
    assert_eq!(outer[0].0, "f.txt_outer.zip");
    let inner = unzip_with(&outer[0].1, Some("pw"));
    assert_eq!(inner, vec![(String::from("f.txt"), data)]);
}

#[test]
fn converted_file_document_carries_the_archive() {
    let data = b"hello document".to_vec();
    let out = convert_file_to_html(
        "in/doc.txt",
        &data,
        "out",
        true,
        Some("pw"),
        false,
        Layer::Single,
        AesLevel::Aes256,
    )
    .unwrap();
    assert_eq!(out.html_file_path, "out/doc.txt.html");
    assert_eq!(out.download_name, "doc.txt.zip");
    let (key_name, key_content) = out.key_sidecar.expect("hidden secret owes a sidecar");
    assert_eq!(key_name, "doc.txt.html.key");
    assert_eq!(key_content, "pw");
    let payload = base64_payload_of(&out.html_content);
    let read = unzip_with(&payload, Some("pw"));
    assert_eq!(read, vec![(String::from("doc.txt"), data)]);
}

#[test]
fn finalize_only_wraps_under_the_double_plan() {
    let inner = b"pseudo inner".to_vec();
    let out = finalize_compression(
        "in/tree",
        "out",
        inner.clone(),
        Layer::Single,
        None,
        true,
        10,
        AesLevel::Aes256,
    )
    .unwrap();
    let payload = base64_payload_of(&out.html_content);
    assert_eq!(payload, inner);
}

#[test]
fn whole_tree_double_layer_unlocks_with_one_secret() {
    let entries = vec![
        ArchiveEntry { name: String::from("tree/a.txt"), data: b"aaa".to_vec() },
        ArchiveEntry { name: String::from("tree/b.txt"), data: b"bbb".to_vec() },
    ];
    let (doc, password) = process_compressed(
        &entries,
        6,
        "in/tree",
        "out",
        &PasswordMode::Manual,
        Some(String::from("abc123")),
        true,
        CompressionKind::Stored,
        Layer::Double,
        AesLevel::Aes256,
    )
    .unwrap();
    assert_eq!(password.as_deref(), Some("abc123"));
    assert_eq!(doc.download_name, "tree_outer.zip");
    let payload = base64_payload_of(&doc.html_content);
    let outer = unzip_with(&payload, Some("abc123"));
    assert_eq!(outer.len(), 1);
    assert_eq!(outer[0].0, "tree_outer.zip");
    let inner = unzip_with(&outer[0].1, Some("abc123"));
    assert_eq!(inner.len(), 2);
    assert_eq!(inner[0], (String::from("tree/a.txt"), b"aaa".to_vec()));
    assert_eq!(inner[1], (String::from("tree/b.txt"), b"bbb".to_vec()));
}

#[test]
fn per_file_mode_over_nothing_is_a_no_op() {
    let files: Vec<LoadedFile> = Vec::new();
    let (docs, password, failed) = process_individual(
        &files,
        "out",
        true,
        &PasswordMode::Random,
        None,
        true,
        Layer::Single,
        AesLevel::Aes256,
    )
    .unwrap();
    assert_eq!(docs.len(), 0);
    assert!(password.is_none());
    assert_eq!(failed, 0);
}

#[test]
fn per_file_mode_converts_every_file_with_one_secret() {
    let files = vec![
        LoadedFile { path: String::from("in/a.txt"), data: b"one".to_vec() },
        LoadedFile { path: String::from("in/b.txt"), data: b"two".to_vec() },
    ];
    let (docs, password, failed) = process_individual(
        &files,
        "out",
        true,
        &PasswordMode::Random,
        None,
        true,
        Layer::Single,
        AesLevel::Aes256,
    )
    .unwrap();
    assert_eq!(failed, 0);
    assert_eq!(docs.len(), 2);
    let secret = password.expect("random mode owes a secret");
    for (doc, file) in docs.iter().zip(files.iter()) {
        let payload = base64_payload_of(&doc.html_content);
        let read = unzip_with(&payload, Some(secret.as_str()));
        assert_eq!(read.len(), 1);
        assert_eq!(read[0].1, file.data);
    }
}

fn conversion_input(is_compressed: bool) -> ConversionInput {
    ConversionInput {
        input_path: String::from("in/tree"),
        output_dir: String::from("out"),
        is_compressed,
        compress: true,
        includes: vec![String::from("*")],
        excludes: None,
        password_mode: PasswordMode::Manual,
        preset_password: Some(String::from("abc123")),
        display_password: true,
        layer: Layer::Single,
        encryption_method: AesLevel::Aes256,
        compression_level: CompressionKind::Stored,
        no_progress: true,
        max_size: None,
    }
}

#[test]
fn execute_conversion_tree_mode_produces_one_document() {
    let input = conversion_input(true);
    let entries =
        vec![ArchiveEntry { name: String::from("tree/a.txt"), data: b"aaa".to_vec() }];
    let (summary, docs, password) =
        execute_conversion(&input, ConversionUnits::Tree { entries, total_size: 3 }).unwrap();
    assert_eq!(summary.output_path, "out");
    assert_eq!(summary.processed_files, 1);
    assert_eq!(docs.len(), 1);
    let payload = base64_payload_of(&docs[0].html_content);
    let read = unzip_with(&payload, password.as_deref());
    assert_eq!(read[0].0, "tree/a.txt");
    assert_eq!(read[0].1, b"aaa".to_vec());
}

#[test]
fn execute_conversion_per_file_mode_produces_one_document_each() {
    let input = conversion_input(false);
    let files = vec![
        LoadedFile { path: String::from("in/a.txt"), data: b"one".to_vec() },
        LoadedFile { path: String::from("in/b.txt"), data: b"two".to_vec() },
    ];
    let (summary, docs, _password) =
        execute_conversion(&input, ConversionUnits::Files { files }).unwrap();
    assert_eq!(summary.processed_files, 2);
    assert_eq!(docs.len(), 2);
    assert_eq!(docs[0].html_file_path, "out/a.txt.html");
    assert_eq!(docs[1].html_file_path, "out/b.txt.html");
}

#[test]
fn manual_mode_without_preset_fails_before_any_encoding() {
    let mut input = conversion_input(true);
    input.preset_password = None;
    let entries =
        vec![ArchiveEntry { name: String::from("tree/a.txt"), data: b"aaa".to_vec() }];
    let r = execute_conversion(&input, ConversionUnits::Tree { entries, total_size: 3 });
    match r {
        Err(ConversionError::Password(PasswordError::SecretRequired)) => {},
        _ => panic!("expected the missing-secret failure"),
    }
}

#[test]
fn whole_tree_mode_over_nothing_is_fatal() {
    let entries: Vec<ArchiveEntry> = Vec::new();
    let r = process_compressed(
        &entries,
        0,
        "in/tree",
        "out",
        &PasswordMode::Random,
        None,
        true,
        CompressionKind::Stored,
        Layer::Single,
        AesLevel::Aes256,
    );
    match r {
        Err(ConversionError::Selection(e)) => {
            assert_eq!(e, file_to_html::select::SelectionError::NoEligibleFiles)
        },
        _ => panic!("expected the no-eligible-files failure"),
    }
}

#[test]
fn compressed_single_layer_without_secret_equals_the_plain_archive() {
    // The unencrypted single-layer archive is the one this build writes for
    // the member, so it is byte-identical to create_zip_buffer's output.
    let data = b"deterministic".to_vec();
    let via_pipeline =
        compress_single_file(&data, "f.txt", true, None, AesLevel::Aes256, Layer::Single).unwrap();
    let direct = create_zip_buffer("f.txt", &data, CompressionKind::Stored).unwrap();
    assert_eq!(via_pipeline, direct);
}
