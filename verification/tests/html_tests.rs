use file_to_html::config::Layer;
use file_to_html::html::{
    HtmlGenerateInput, HtmlService, HtmlServiceTrait, encode_to_base64, format_file_size,
    generate_html_content, generate_instructions, get_file_name, handle_password_display,
};

#[test]
fn base64_of_known_values() {
    assert_eq!(encode_to_base64(&Vec::new()), "");
    assert_eq!(encode_to_base64(&vec![1, 2, 3]), "AQID");
    assert_eq!(encode_to_base64(&b"Man".to_vec()), "TWFu");
    assert_eq!(encode_to_base64(&b"M".to_vec()), "TQ==");
    assert_eq!(encode_to_base64(&b"Ma".to_vec()), "TWE=");
    assert_eq!(encode_to_base64(&vec![251, 239, 190]), "++++");
}

#[test]
fn file_sizes_below_one_mb_show_as_kb() {
    assert_eq!(format_file_size(0), "0.00 KB");
    assert_eq!(format_file_size(512), "0.50 KB");
    assert_eq!(format_file_size(1024), "1.00 KB");
    assert_eq!(format_file_size(1023), "1.00 KB");
    assert_eq!(format_file_size(1536), "1.50 KB");
    assert_eq!(format_file_size(10240), "10.00 KB");
}

#[test]
fn file_sizes_from_one_mb_show_as_mb() {
    assert_eq!(format_file_size(1048576), "1.00 MB");
    assert_eq!(format_file_size(1572864), "1.50 MB");
    assert_eq!(format_file_size(5242880), "5.00 MB");
}

#[test]
fn layering_naming_for_each_plan() {
    let (name, download) = get_file_name("path/to/doc.txt", Layer::Passthrough);
    assert_eq!(name, "doc.txt");
    assert_eq!(download, "doc.txt");
    let (_name, download) = get_file_name("path/to/doc.txt", Layer::Single);
    assert_eq!(download, "doc.txt.zip");
    let (_name, download) = get_file_name("path/to/doc.txt", Layer::Double);
    assert_eq!(download, "doc.txt_outer.zip");
}

#[test]
fn base_name_falls_back_to_archive() {
    assert_eq!(get_file_name("", Layer::Single).0, "archive");
    assert_eq!(get_file_name("..", Layer::Single).0, "archive");
    assert_eq!(get_file_name(".", Layer::Single).0, "archive");
    assert_eq!(get_file_name("dir/..", Layer::Single).0, "archive");
}

#[test]
fn base_name_ignores_trailing_separators() {
    assert_eq!(get_file_name("some/dir/", Layer::Single).0, "dir");
}

#[test]
fn instructions_match_the_plan_and_password() {
    let d = generate_instructions(Layer::Double, true);
    assert!(d.contains("outer and the inner ZIP"));
    assert!(d.contains("same password"));
    let s = generate_instructions(Layer::Single, false);
    assert!(s.contains("no password is needed"));
    assert!(!s.contains("outer"));
    let p = generate_instructions(Layer::Passthrough, false);
    assert!(p.contains("nothing needs extracting"));
}

#[test]
fn displayed_password_is_embedded_inline() {
    let (info, display, sidecar) = handle_password_display(Some("s3cret"), true, "doc.txt");
    assert_eq!(info, "the password shown below");
    assert_eq!(
        display,
        "<p>Password: <span class=\"password-display\">s3cret</span></p>"
    );
    assert!(sidecar.is_none());
}

#[test]
fn hidden_password_goes_to_the_sidecar_file() {
    let (info, display, sidecar) = handle_password_display(Some("s3cret"), false, "doc.txt");
    assert_eq!(info, "the doc.txt.html.key file next to this document");
    assert_eq!(display, "");
    let (name, content) = sidecar.expect("a sidecar is owed");
    assert_eq!(name, "doc.txt.html.key");
    assert_eq!(content, "s3cret");
}

#[test]
fn absent_password_leaves_no_trace() {
    let (info, display, sidecar) = handle_password_display(None, true, "doc.txt");
    assert_eq!(info, "no password");
    assert_eq!(display, "");
    assert!(sidecar.is_none());
}

#[test]
fn html_content_is_the_filled_template() {
    let html = generate_html_content("QUJD", "doc.txt", "doc.txt.zip", "<p>i</p>", "1.00 KB", "pi", "pd");
    let expected = String::new()
        + "<!DOCTYPE html>\n<html>\n<head>\n<meta charset=\"utf-8\">\n<title>"
        + "doc.txt"
        + "</title>\n</head>\n<body>\n<h1>"
        + "doc.txt"
        + "</h1>\n<p>File size: "
        + "1.00 KB"
        + "</p>\n<p>To open the payload you need "
        + "pi"
        + ".</p>\n"
        + "<p>i</p>"
        + "\n"
        + "pd"
        + "\n<a download=\""
        + "doc.txt.zip"
        + "\" href=\"data:application/octet-stream;base64,"
        + "QUJD"
        + "\">Download "
        + "doc.txt.zip"
        + "</a>\n</body>\n</html>\n";
    assert_eq!(html, expected);
}

#[test]
fn generate_html_embeds_the_payload_and_names() {
    let service = HtmlService::new();
    let input = HtmlGenerateInput {
        zip_buffer: vec![1, 2, 3],
        input_path: String::from("in/doc.txt"),
        output_dir: String::from("out"),
        layer: Layer::Single,
        password: Some(String::from("pw")),
        display_password: true,
        total_size: 1024,
    };
    let out = service.generate_html(&input);
    assert_eq!(out.html_file_path, "out/doc.txt.html");
    assert_eq!(out.download_name, "doc.txt.zip");
    assert!(out.key_sidecar.is_none());
    assert!(out.html_content.contains("base64,AQID\""));
    assert!(out.html_content.contains("<title>doc.txt</title>"));
    assert!(out.html_content.contains("1.00 KB"));
    assert!(out.html_content.contains("pw"));
}

#[test]
fn the_service_trait_renders_like_the_service() {
    let service: &dyn HtmlServiceTrait = &HtmlService::new();
    let input = HtmlGenerateInput {
        zip_buffer: vec![1, 2, 3],
        input_path: String::from("in/doc.txt"),
        output_dir: String::from("out"),
        layer: Layer::Double,
        password: None,
        display_password: false,
        total_size: 3,
    };
    let out = service.generate_html(&input);
    assert_eq!(out.download_name, "doc.txt_outer.zip");
    assert!(out.key_sidecar.is_none());
}

#[test]
fn base_name_drops_trailing_dot_components() {
    assert_eq!(get_file_name("foo/.", Layer::Single).0, "foo");
    assert_eq!(get_file_name("foo/./", Layer::Single).0, "foo");
    assert_eq!(get_file_name("foo/././", Layer::Single).0, "foo");
    assert_eq!(get_file_name("./", Layer::Single).0, "archive");
    // A hidden file's name is not a trailing dot component.
    assert_eq!(get_file_name("dir/.y", Layer::Single).0, ".y");
}
