//! Rendering one conversion unit as a self-contained HTML document: the
//! archive bytes embedded as base64, the download name, the extraction
//! instructions and the password presentation.  Writing the document to
//! disk is the caller's business; everything here is computed.

use vstd::prelude::*;
use base64::Engine;
use crate::archive::spec_download_name;
use crate::config::Layer;
use crate::select::{parent_prefix_len, trim_trailing_dots};
use crate::text::{chars_of, dec_chars, push_decimal, string_from_chars};
use crate::password::two_digits;

verus! {

/// The standard base64 alphabet.
pub open spec fn b64_alphabet() -> Seq<char> {
    "ABCDEFGHIJKLMNOPQRSTUVWXYZabcdefghijklmnopqrstuvwxyz0123456789+/"@
}

/// The classic padded base64 rendering of a byte sequence: four characters
/// for every three bytes, `=`-padded at the end.
pub open spec fn base64_of(bytes: Seq<u8>) -> Seq<char>
    decreases bytes.len(),
{
    let a = b64_alphabet();
    if bytes.len() == 0 {
        Seq::empty()
    } else if bytes.len() == 1 {
        let b0 = bytes[0] as int;
        seq![a[b0 / 4], a[(b0 % 4) * 16], '=', '=']
    } else if bytes.len() == 2 {
        let b0 = bytes[0] as int;
        let b1 = bytes[1] as int;
        seq![a[b0 / 4], a[(b0 % 4) * 16 + b1 / 16], a[(b1 % 16) * 4], '=']
    } else {
        let b0 = bytes[0] as int;
        let b1 = bytes[1] as int;
        let b2 = bytes[2] as int;
        seq![
            a[b0 / 4],
            a[(b0 % 4) * 16 + b1 / 16],
            a[(b1 % 16) * 4 + b2 / 64],
            a[b2 % 64],
        ] + base64_of(bytes.skip(3))
    }
}

/// Relies on the base64 crate's standard engine with padding: it produces
/// exactly the classic base64 rendering of the bytes.
#[verifier::external_body]
pub fn encode_to_base64(data: &Vec<u8>) -> (r: String)
    ensures
        r@ == base64_of(data@),
{
    base64::engine::general_purpose::STANDARD.encode(data.as_slice())
}

/// The base file name of a path: its last component once trailing
/// separators and `.` components are dropped, with `archive` standing in
/// when the path has no usable one.
pub open spec fn spec_base_name(path: Seq<char>) -> Seq<char> {
    let t = trim_trailing_dots(path);
    let c = t.skip(parent_prefix_len(t));
    if c.len() == 0 || c == "."@ || c == ".."@ {
        "archive"@
    } else {
        c
    }
}

/// Computes the base file name of the input path and, from it and the layer
/// plan, the name the produced artifact is downloaded under.
pub fn get_file_name(path: &str, layer: Layer) -> (r: (String, String))
    ensures
        r.0@ == spec_base_name(path@),
        r.1@ == spec_download_name(spec_base_name(path@), layer),
{
    let rv = chars_of(path);
    let (t_end, pl) = crate::select::base_bounds(&rv);
    let mut comp: Vec<char> = Vec::new();
    let mut i: usize = pl;
    while i < t_end
        invariant
            pl <= i <= t_end <= rv@.len(),
            rv@ == path@,
            comp@ == rv@.subrange(pl as int, i as int),
        decreases t_end - i,
    {
        comp.push(rv[i]);
        proof {
            assert(rv@.subrange(pl as int, i as int).push(rv@[i as int]) =~= rv@.subrange(
                pl as int,
                i + 1 as int,
            ));
        }
        i = i + 1;
    }
    proof {
        assert(trim_trailing_dots(path@) == path@.take(t_end as int));
        assert(comp@ =~= path@.take(t_end as int).skip(pl as int));
        reveal_strlit(".");
        reveal_strlit("..");
        reveal_strlit("archive");
    }
    let is_dot = comp.len() == 1 && comp[0] == '.';
    let is_dotdot = comp.len() == 2 && {
        let a = comp[0];
        let b = comp[1];
        a == '.' && b == '.'
    };
    let base: String = if comp.len() == 0 || is_dot || is_dotdot {
        proof {
            if comp@.len() == 1 && comp@[0] == '.' {
                assert(comp@ =~= "."@);
            }
            if comp@.len() == 2 && comp@[0] == '.' && comp@[1] == '.' {
                assert(comp@ =~= ".."@);
            }
        }
        String::from_str("archive")
    } else {
        proof {
            if comp@.len() == 1 {
                assert(comp@ == "."@ ==> comp@[0] == "."@[0]);
            }
            if comp@.len() == 2 {
                assert(comp@ == ".."@ ==> comp@[0] == ".."@[0] && comp@[1] == ".."@[1]);
            }
        }
        string_from_chars(&comp)
    };
    let download: String = match layer {
        Layer::Passthrough => base.clone(),
        Layer::Single => base.clone().concat(".zip"),
        Layer::Double => base.clone().concat("_outer.zip"),
    };
    (base, download)
}

/// The size rendering shown in the document: hundredths of a KB below one
/// MB, hundredths of a MB from there on, rounded half-up.
pub open spec fn spec_format_file_size(size: u64) -> Seq<char> {
    if size < 1048576 {
        let h = (size as int * 100 + 512) / 1024;
        dec_chars(h / 100) + "."@ + two_digits(h % 100) + " KB"@
    } else {
        let h = (size as int * 100 + 524288) / 1048576;
        dec_chars(h / 100) + "."@ + two_digits(h % 100) + " MB"@
    }
}

/// Renders a byte count for display.
pub fn format_file_size(size: u64) -> (r: String)
    ensures
        r@ == spec_format_file_size(size),
{
    let mut out = String::new();
    if size < 1048576 {
        let h: u64 = (size * 100 + 512) / 1024;
        push_decimal(&mut out, h / 100);
        out.append(".");
        crate::password::push_two_digits(&mut out, h % 100);
        out.append(" KB");
        proof {
            assert(out@ =~= spec_format_file_size(size));
        }
    } else {
        let wide: u128 = ((size as u128) * 100 + 524288) / 1048576;
        assert(wide < 0x10000000000000000u128) by {
            assert((size as u128) * 100 + 524288 <= (u64::MAX as u128) * 100 + 524288);
        };
        let h: u64 = wide as u64;
        push_decimal(&mut out, h / 100);
        out.append(".");
        crate::password::push_two_digits(&mut out, h % 100);
        out.append(" MB");
        proof {
            assert(out@ =~= spec_format_file_size(size));
        }
    }
    out
}

/// The extraction instructions for each layer plan, phrased with or without
/// a password.
pub open spec fn spec_instructions(layer: Layer, has_password: bool) -> Seq<char> {
    match (layer, has_password) {
        (
            Layer::Double,
            true,
        ) => "<p>Use the download link or decode the Base64 data into a ZIP file by hand, then unlock the outer and the inner ZIP with the same password. 7-Zip or WinRAR is recommended.</p>"@,
        (
            Layer::Double,
            false,
        ) => "<p>Use the download link or decode the Base64 data into a ZIP file by hand, then extract the outer and the inner ZIP; no password is needed. 7-Zip or WinRAR is recommended.</p>"@,
        (
            Layer::Single,
            true,
        ) => "<p>Use the download link or decode the Base64 data into a ZIP file by hand, then unlock the ZIP with the password. 7-Zip or WinRAR is recommended.</p>"@,
        (
            Layer::Single,
            false,
        ) => "<p>Use the download link or decode the Base64 data into a ZIP file by hand, then extract the ZIP; no password is needed. 7-Zip or WinRAR is recommended.</p>"@,
        (
            Layer::Passthrough,
            _,
        ) => "<p>Use the download link or decode the Base64 data into the file by hand; nothing needs extracting.</p>"@,
    }
}

/// Phrases the extraction instructions for the layer plan.
pub fn generate_instructions(layer: Layer, has_password: bool) -> (r: String)
    ensures
        r@ == spec_instructions(layer, has_password),
{
    match (layer, has_password) {
        (Layer::Double, true) => String::from_str(
            "<p>Use the download link or decode the Base64 data into a ZIP file by hand, then unlock the outer and the inner ZIP with the same password. 7-Zip or WinRAR is recommended.</p>",
        ),
        (Layer::Double, false) => String::from_str(
            "<p>Use the download link or decode the Base64 data into a ZIP file by hand, then extract the outer and the inner ZIP; no password is needed. 7-Zip or WinRAR is recommended.</p>",
        ),
        (Layer::Single, true) => String::from_str(
            "<p>Use the download link or decode the Base64 data into a ZIP file by hand, then unlock the ZIP with the password. 7-Zip or WinRAR is recommended.</p>",
        ),
        (Layer::Single, false) => String::from_str(
            "<p>Use the download link or decode the Base64 data into a ZIP file by hand, then extract the ZIP; no password is needed. 7-Zip or WinRAR is recommended.</p>",
        ),
        (Layer::Passthrough, _) => String::from_str(
            "<p>Use the download link or decode the Base64 data into the file by hand; nothing needs extracting.</p>",
        ),
    }
}


/// Where the reader is told the password lives.
pub open spec fn spec_password_info(
    p: Option<Seq<char>>,
    display_password: bool,
    file_name: Seq<char>,
) -> Seq<char> {
    match p {
        Some(_pw) => if display_password {
            "the password shown below"@
        } else {
            "the "@ + file_name + ".html.key file next to this document"@
        },
        None => "no password"@,
    }
}

/// The inline password block, present only when the secret is displayed.
pub open spec fn spec_password_display(p: Option<Seq<char>>, display_password: bool) -> Seq<
    char,
> {
    match p {
        Some(pw) => if display_password {
            "<p>Password: <span class=\"password-display\">"@ + pw + "</span></p>"@
        } else {
            Seq::empty()
        },
        None => Seq::empty(),
    }
}

/// The sidecar key file, written only when the secret is kept out of the
/// document: its name and its exact content, the raw secret.
pub open spec fn spec_password_sidecar(
    p: Option<Seq<char>>,
    display_password: bool,
    file_name: Seq<char>,
) -> Option<(Seq<char>, Seq<char>)> {
    match p {
        Some(pw) => if display_password {
            None
        } else {
            Some((file_name + ".html.key"@, pw))
        },
        None => None,
    }
}

/// Decides how the secret is presented: shown inline in the document, or
/// kept in a `{file_name}.html.key` sidecar file whose raw content is the
/// secret, or absent altogether.
pub fn handle_password_display(
    password: Option<&str>,
    display_password: bool,
    file_name: &str,
) -> (r: (String, String, Option<(String, String)>))
    ensures
        r.0@ == spec_password_info(
            crate::archive::opt_str_view(password),
            display_password,
            file_name@,
        ),
        r.1@ == spec_password_display(crate::archive::opt_str_view(password), display_password),
        (r.2 is Some) == (spec_password_sidecar(
            crate::archive::opt_str_view(password),
            display_password,
            file_name@,
        ) is Some),
        r.2 matches Some(sc) ==> (spec_password_sidecar(
            crate::archive::opt_str_view(password),
            display_password,
            file_name@,
        ) matches Some(sp) && sc.0@ == sp.0 && sc.1@ == sp.1),
{
    match password {
        Some(pw) => {
            if display_password {
                let block = String::from_str("<p>Password: <span class=\"password-display\">")
                    .concat(pw).concat("</span></p>");
                (String::from_str("the password shown below"), block, None)
            } else {
                let key_name = String::from_str(file_name).concat(".html.key");
                let info = String::from_str("the ").concat(file_name).concat(
                    ".html.key file next to this document",
                );
                (info, String::new(), Some((key_name, pw.to_owned())))
            }
        },
        None => (String::from_str("no password"), String::new(), None),
    }
}

/// The whole document: the template with every placeholder replaced.
pub open spec fn spec_html_content(
    zip_base64: Seq<char>,
    file_name: Seq<char>,
    download_zip_name: Seq<char>,
    instructions: Seq<char>,
    file_size_str: Seq<char>,
    password_info: Seq<char>,
    password_display: Seq<char>,
) -> Seq<char> {
    "<!DOCTYPE html>\n<html>\n<head>\n<meta charset=\"utf-8\">\n<title>"@ + file_name
        + "</title>\n</head>\n<body>\n<h1>"@ + file_name + "</h1>\n<p>File size: "@
        + file_size_str + "</p>\n<p>To open the payload you need "@ + password_info + ".</p>\n"@
        + instructions + "\n"@ + password_display + "\n<a download=\""@ + download_zip_name
        + "\" href=\"data:application/octet-stream;base64,"@ + zip_base64 + "\">Download "@
        + download_zip_name + "</a>\n</body>\n</html>\n"@
}

/// Fills the document template with the base64 payload, the names, the
/// instructions, the size and the password presentation.
pub fn generate_html_content(
    zip_base64: &str,
    file_name: &str,
    download_zip_name: &str,
    instructions: &str,
    file_size_str: &str,
    password_info: &str,
    password_display: &str,
) -> (r: String)
    ensures
        r@ == spec_html_content(
            zip_base64@,
            file_name@,
            download_zip_name@,
            instructions@,
            file_size_str@,
            password_info@,
            password_display@,
        ),
{
    let mut out = String::new();
    out.append("<!DOCTYPE html>\n<html>\n<head>\n<meta charset=\"utf-8\">\n<title>");
    out.append(file_name);
    out.append("</title>\n</head>\n<body>\n<h1>");
    out.append(file_name);
    out.append("</h1>\n<p>File size: ");
    out.append(file_size_str);
    out.append("</p>\n<p>To open the payload you need ");
    out.append(password_info);
    out.append(".</p>\n");
    out.append(instructions);
    out.append("\n");
    out.append(password_display);
    out.append("\n<a download=\"");
    out.append(download_zip_name);
    out.append("\" href=\"data:application/octet-stream;base64,");
    out.append(zip_base64);
    out.append("\">Download ");
    out.append(download_zip_name);
    out.append("</a>\n</body>\n</html>\n");
    proof {
        assert(out@ =~= spec_html_content(
            zip_base64@,
            file_name@,
            download_zip_name@,
            instructions@,
            file_size_str@,
            password_info@,
            password_display@,
        ));
    }
    out
}

/// Everything one document rendering consumes.
#[derive(Debug)]
pub struct HtmlGenerateInput {
    pub zip_buffer: Vec<u8>,
    pub input_path: String,
    pub output_dir: String,
    pub layer: Layer,
    pub password: Option<String>,
    pub display_password: bool,
    pub total_size: u64,
}

/// Everything one document rendering produces; the caller writes the
/// content to the path and the sidecar, when there is one, next to it.
#[derive(Debug)]
pub struct HtmlGenerateOutput {
    pub html_file_path: String,
    pub html_content: String,
    pub download_name: String,
    pub key_sidecar: Option<(String, String)>,
}

/// What one correctly rendered document looks like, as a relation between
/// the produced output and the unit's inputs: the path the document goes
/// to, the download name, the filled template over the base64 payload, and
/// the sidecar exactly when a hidden secret asks for one.
pub open spec fn spec_document_of(
    r: HtmlGenerateOutput,
    zip: Seq<u8>,
    input_path: Seq<char>,
    output_dir: Seq<char>,
    layer: Layer,
    pw: Option<Seq<char>>,
    display_password: bool,
    total_size: u64,
) -> bool {
    let name = spec_base_name(input_path);
    let dl = spec_download_name(name, layer);
    &&& r.html_file_path@ == output_dir + "/"@ + name + ".html"@
    &&& r.download_name@ == dl
    &&& r.html_content@ == spec_html_content(
        base64_of(zip),
        name,
        dl,
        spec_instructions(layer, pw is Some),
        spec_format_file_size(total_size),
        spec_password_info(pw, display_password, name),
        spec_password_display(pw, display_password),
    )
    &&& (r.key_sidecar is Some) == (spec_password_sidecar(pw, display_password, name) is Some)
    &&& (r.key_sidecar matches Some(sc) ==> (spec_password_sidecar(pw, display_password, name)
        matches Some(sp) && sc.0@ == sp.0 && sc.1@ == sp.1))
}

/// The document-rendering half of the pipeline.
pub trait HtmlServiceTrait {
    /// Renders one conversion unit as a document; the produced output
    /// satisfies [`spec_document_of`] for the unit's inputs.
    fn generate_html(&self, input: &HtmlGenerateInput) -> (r: HtmlGenerateOutput)
        ensures
            spec_document_of(
                r,
                input.zip_buffer@,
                input.input_path@,
                input.output_dir@,
                input.layer,
                input.password.deep_view(),
                input.display_password,
                input.total_size,
            ),
    ;
}

/// The document-rendering service.
pub struct HtmlService;

impl HtmlServiceTrait for HtmlService {
    fn generate_html(&self, input: &HtmlGenerateInput) -> (r: HtmlGenerateOutput) {
        HtmlService::generate_html(self, input)
    }
}

impl HtmlService {
    /// There is nothing to configure: every call is pure.
    pub fn new() -> (r: HtmlService) {
        HtmlService
    }

    /// Renders one conversion unit as a document: the payload embedded as
    /// base64, named and phrased from the input path, the layer plan and
    /// the password presentation.
    pub fn generate_html(&self, input: &HtmlGenerateInput) -> (r: HtmlGenerateOutput)
        ensures
            spec_document_of(
                r,
                input.zip_buffer@,
                input.input_path@,
                input.output_dir@,
                input.layer,
                input.password.deep_view(),
                input.display_password,
                input.total_size,
            ),
    {
        let (file_name, download_name) = get_file_name(input.input_path.as_str(), input.layer);
        let zip_base64 = encode_to_base64(&input.zip_buffer);
        let instructions = generate_instructions(input.layer, input.password.is_some());
        let pw_ref: Option<&str> = match &input.password {
            Some(p) => Some(p.as_str()),
            None => None,
        };
        let (password_info, password_display, key_sidecar) = handle_password_display(
            pw_ref,
            input.display_password,
            file_name.as_str(),
        );
        let file_size_str = format_file_size(input.total_size);
        let html_content = generate_html_content(
            zip_base64.as_str(),
            file_name.as_str(),
            download_name.as_str(),
            instructions.as_str(),
            file_size_str.as_str(),
            password_info.as_str(),
            password_display.as_str(),
        );
        let html_file_path = input.output_dir.clone().concat("/").concat(
            file_name.as_str(),
        ).concat(".html");
        HtmlGenerateOutput { html_file_path, html_content, download_name, key_sidecar }
    }
}

} // verus!
