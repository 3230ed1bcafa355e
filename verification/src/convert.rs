//! The conversion pipeline: turns selected, in-memory input into layered
//! archive bytes and rendered documents, once per file or once for the
//! whole tree.  The caller reads the files beforehand and writes the
//! produced documents afterwards.

use vstd::prelude::*;
use crate::archive::{
    ArchiveEntry, ArchiveError, compress_file_content, create_inner_zip, create_zip,
    create_zip_buffer, encode_one, entry_pairs, opt_str_view, plain_zip_bytes, read_back,
    spec_layer_encrypted, spec_name_fits,
};
use crate::config::{AesLevel, CompressionKind, Layer, PasswordMode};
use crate::html::{HtmlGenerateInput, HtmlGenerateOutput, HtmlService, spec_base_name, spec_document_of};
use crate::password::{PasswordError, generate_password, spec_resolved_secret};
use crate::select::SelectionError;

verus! {

/// What a conversion run can report.
#[derive(Clone, Copy, PartialEq, Eq, Structural, Debug)]
pub enum ConversionError {
    /// Resolving the secret failed.
    Password(PasswordError),
    /// Encoding an archive failed.
    Archive(ArchiveError),
    /// Whole-tree mode had nothing to compress.
    Selection(SelectionError),
}

/// One file read whole into memory for per-file conversion.
#[derive(Debug)]
pub struct LoadedFile {
    pub path: String,
    pub data: Vec<u8>,
}

/// The resolved configuration of one conversion run over in-memory input.
#[derive(Debug)]
pub struct ConversionInput {
    pub input_path: String,
    pub output_dir: String,
    pub is_compressed: bool,
    pub compress: bool,
    pub includes: Vec<String>,
    pub excludes: Option<Vec<String>>,
    pub password_mode: PasswordMode,
    pub preset_password: Option<String>,
    pub display_password: bool,
    pub layer: Layer,
    pub encryption_method: AesLevel,
    pub compression_level: CompressionKind,
    pub no_progress: bool,
    /// Size cap in bytes, applied during selection.
    pub max_size: Option<u64>,
}

/// What one conversion run reports back.
#[derive(Debug)]
pub struct ConversionOutput {
    pub output_path: String,
    pub processed_files: usize,
}

/// What the archive built for one single file satisfies, related to the
/// file's content, its base name, the compress switch, the secret, the AES
/// strength and the layer plan.  Every produced layer carries the secret
/// at that strength, or none when there is no secret.
pub open spec fn spec_single_file_result(
    b: Seq<u8>,
    data: Seq<u8>,
    name: Seq<char>,
    compress: bool,
    pw: Option<Seq<char>>,
    aes: AesLevel,
    layer: Layer,
) -> bool {
    match layer {
        Layer::Passthrough => b == data,
        Layer::Single => if pw is Some || compress {
            &&& read_back(b, pw) == Some(seq![(name, data)])
            &&& spec_layer_encrypted(b, pw, aes, 1)
            &&& (pw is None ==> b == plain_zip_bytes(seq![(name, data)], false))
        } else {
            b == data
        },
        Layer::Double => if compress {
            exists|inner: Seq<u8>|
                {
                    &&& #[trigger] read_back(inner, pw) == Some(seq![(name, data)])
                    &&& read_back(b, pw) == Some(seq![(name + "_outer.zip"@, inner)])
                    &&& spec_layer_encrypted(inner, pw, aes, 1)
                    &&& spec_layer_encrypted(b, pw, aes, 1)
                    &&& (pw is None ==> inner == plain_zip_bytes(seq![(name, data)], false) && b
                        == plain_zip_bytes(seq![(name + "_outer.zip"@, inner)], false))
                }
        } else {
            &&& read_back(b, pw) == Some(seq![(name + "_outer.zip"@, data)])
            &&& spec_layer_encrypted(b, pw, aes, 1)
            &&& (pw is None ==> b == plain_zip_bytes(seq![(name + "_outer.zip"@, data)], false))
        },
    }
}

/// Builds the archive for one single file: optionally an inner compressed
/// layer, wrapped according to the layer plan; one secret serves every
/// layer it produces.
pub fn compress_single_file(
    data: &Vec<u8>,
    file_name: &str,
    compress: bool,
    password: Option<&str>,
    aes_mode: AesLevel,
    layer: Layer,
) -> (r: Result<Vec<u8>, ArchiveError>)
    ensures
        r matches Ok(b) ==> spec_single_file_result(
            b@,
            data@,
            file_name@,
            compress,
            opt_str_view(password),
            aes_mode,
            layer,
        ),
        layer == Layer::Passthrough ==> r is Ok,
        layer == Layer::Single && password is None && !compress ==> r is Ok,
        layer == Layer::Single && password is None && compress && spec_name_fits(file_name@)
            && data@.len() <= 0xFFFFFFFF ==> r is Ok,
        layer == Layer::Double && password is None && !compress && spec_name_fits(
            file_name@ + "_outer.zip"@,
        ) && data@.len() <= 0xFFFFFFFF ==> r is Ok,
{
    match layer {
        Layer::Single => {
            match password {
                Some(pw) => encode_one(
                    file_name,
                    data,
                    Some(pw),
                    aes_mode,
                    CompressionKind::Stored,
                ),
                None => {
                    if compress {
                        create_zip_buffer(file_name, data, CompressionKind::Stored)
                    } else {
                        Ok(vstd::slice::slice_to_vec(data.as_slice()))
                    }
                },
            }
        },
        Layer::Passthrough => Ok(vstd::slice::slice_to_vec(data.as_slice())),
        Layer::Double => {
            if compress {
                let inner = match compress_file_content(data, file_name, password, aes_mode) {
                    Ok(b) => b,
                    Err(e) => {
                        return Err(e);
                    },
                };
                create_zip(&inner, file_name, Layer::Double, password, aes_mode)
            } else {
                create_zip(data, file_name, Layer::Double, password, aes_mode)
            }
        },
    }
}

/// What a finished layering step satisfies: under a double plan the final
/// bytes are the outer archive holding the prepared buffer as its sole
/// member `{name}_outer.zip`, carrying the secret at the requested AES
/// strength or none; under any other plan they are the prepared buffer
/// itself.
pub open spec fn spec_layered(
    fin: Seq<u8>,
    inner: Seq<u8>,
    name: Seq<char>,
    layer: Layer,
    pw: Option<Seq<char>>,
    aes: AesLevel,
) -> bool {
    match layer {
        Layer::Double => {
            &&& read_back(fin, pw) == Some(seq![(name + "_outer.zip"@, inner)])
            &&& spec_layer_encrypted(fin, pw, aes, 1)
            &&& (pw is None ==> fin == plain_zip_bytes(seq![(name + "_outer.zip"@, inner)], false))
        },
        Layer::Single => fin == inner,
        Layer::Passthrough => fin == inner,
    }
}

/// What one finished per-file conversion satisfies: some archive buffer
/// built from the file's content per the layer plan, and the document
/// rendered around exactly that buffer.
pub open spec fn spec_unit_converted(
    out: HtmlGenerateOutput,
    path: Seq<char>,
    data: Seq<u8>,
    output_dir: Seq<char>,
    compress: bool,
    pw: Option<Seq<char>>,
    aes: AesLevel,
    display_password: bool,
    layer: Layer,
) -> bool {
    exists|b: Seq<u8>|
        {
            &&& #[trigger] spec_single_file_result(
                b,
                data,
                spec_base_name(path),
                compress,
                pw,
                aes,
                layer,
            )
            &&& spec_document_of(
                out,
                b,
                path,
                output_dir,
                layer,
                pw,
                display_password,
                data.len() as u64,
            )
        }
}

/// Converts one file, read into memory, to its document: archive per the
/// layer plan, then the rendered page.
pub fn convert_file_to_html(
    file_path: &str,
    data: &Vec<u8>,
    output_dir: &str,
    compress: bool,
    password: Option<&str>,
    display_password: bool,
    layer: Layer,
    encryption_method: AesLevel,
) -> (r: Result<HtmlGenerateOutput, ArchiveError>)
    ensures
        r matches Ok(out) ==> spec_unit_converted(
            out,
            file_path@,
            data@,
            output_dir@,
            compress,
            opt_str_view(password),
            encryption_method,
            display_password,
            layer,
        ),
        layer == Layer::Passthrough ==> r is Ok,
        layer == Layer::Single && password is None && !compress ==> r is Ok,
        layer == Layer::Single && password is None && compress && spec_name_fits(
            spec_base_name(file_path@),
        ) && data@.len() <= 0xFFFFFFFF ==> r is Ok,
{
    let (file_name, _download_name) = crate::html::get_file_name(file_path, layer);
    let final_zip_buffer = match compress_single_file(
        data,
        file_name.as_str(),
        compress,
        password,
        encryption_method,
        layer,
    ) {
        Ok(b) => b,
        Err(e) => {
            return Err(e);
        },
    };
    let password_owned: Option<String> = match password {
        Some(p) => Some(p.to_owned()),
        None => None,
    };
    proof {
        assert(password_owned.deep_view() == opt_str_view(password));
    }
    let total_size: u64 = data.len() as u64;
    let service = HtmlService::new();
    let html_input = HtmlGenerateInput {
        zip_buffer: final_zip_buffer,
        input_path: file_path.to_owned(),
        output_dir: output_dir.to_owned(),
        layer,
        password: password_owned,
        display_password,
        total_size,
    };
    let out = service.generate_html(&html_input);
    proof {
        let fin = html_input.zip_buffer@;
        assert(spec_single_file_result(
            fin,
            data@,
            spec_base_name(file_path@),
            compress,
            opt_str_view(password),
            encryption_method,
            layer,
        ));
        assert(spec_document_of(
            out,
            fin,
            file_path@,
            output_dir@,
            layer,
            opt_str_view(password),
            display_password,
            data@.len() as u64,
        ));
    }
    Ok(out)
}

/// Wraps an already-encoded inner archive according to the layer plan and
/// renders the whole-tree document around the result.
pub fn finalize_compression(
    input_path: &str,
    output_dir: &str,
    zip_buffer: Vec<u8>,
    layer: Layer,
    password: Option<&str>,
    display_password: bool,
    total_size: u64,
    aes_mode: AesLevel,
) -> (r: Result<HtmlGenerateOutput, ArchiveError>)
    ensures
        r matches Ok(out) ==> (exists|fin: Seq<u8>|
            {
                &&& #[trigger] spec_layered(
                    fin,
                    zip_buffer@,
                    spec_base_name(input_path@),
                    layer,
                    opt_str_view(password),
                    aes_mode,
                )
                &&& spec_document_of(
                    out,
                    fin,
                    input_path@,
                    output_dir@,
                    layer,
                    opt_str_view(password),
                    display_password,
                    total_size,
                )
            }),
        layer != Layer::Double ==> r is Ok,
{
    let ghost zb = zip_buffer@;
    let (file_name, _download_name) = crate::html::get_file_name(input_path, layer);
    let final_zip_buffer: Vec<u8> = match layer {
        Layer::Double => {
            match create_zip(&zip_buffer, file_name.as_str(), Layer::Double, password, aes_mode) {
                Ok(b) => b,
                Err(e) => {
                    return Err(e);
                },
            }
        },
        _ => zip_buffer,
    };
    let password_owned: Option<String> = match password {
        Some(p) => Some(p.to_owned()),
        None => None,
    };
    proof {
        assert(password_owned.deep_view() == opt_str_view(password));
    }
    let service = HtmlService::new();
    let html_input = HtmlGenerateInput {
        zip_buffer: final_zip_buffer,
        input_path: input_path.to_owned(),
        output_dir: output_dir.to_owned(),
        layer,
        password: password_owned,
        display_password,
        total_size,
    };
    let out = service.generate_html(&html_input);
    proof {
        let fin = html_input.zip_buffer@;
        assert(spec_layered(
            fin,
            zb,
            spec_base_name(input_path@),
            layer,
            opt_str_view(password),
            aes_mode,
        ));
        assert(spec_document_of(
            out,
            fin,
            input_path@,
            output_dir@,
            layer,
            opt_str_view(password),
            display_password,
            total_size,
        ));
    }
    Ok(out)
}

/// What a finished whole-tree conversion satisfies: some inner archive
/// reads back, under the resolved secret, as exactly the selected members
/// — with no secret it is the one archive this build writes for them —
/// the final bytes wrap it per the layer plan, so one secret unlocks both
/// layers of a double plan, and the document renders those final bytes.
pub open spec fn spec_tree_converted(
    out: HtmlGenerateOutput,
    resolved: Option<String>,
    entries: Seq<ArchiveEntry>,
    input_path: Seq<char>,
    output_dir: Seq<char>,
    layer: Layer,
    aes: AesLevel,
    deflated: bool,
    display_password: bool,
    total_size: u64,
) -> bool {
    exists|inner: Seq<u8>, fin: Seq<u8>|
        #![trigger read_back(inner, resolved.deep_view()), spec_layered(fin, inner, spec_base_name(input_path), layer, resolved.deep_view(), aes)]
        {
            &&& read_back(inner, resolved.deep_view()) == Some(entry_pairs(entries))
            &&& spec_layer_encrypted(inner, resolved.deep_view(), aes, entries.len() as int)
            &&& (resolved is None ==> inner == plain_zip_bytes(entry_pairs(entries), deflated))
            &&& spec_layered(
                fin,
                inner,
                spec_base_name(input_path),
                layer,
                resolved.deep_view(),
                aes,
            )
            &&& spec_document_of(
                out,
                fin,
                input_path,
                output_dir,
                layer,
                resolved.deep_view(),
                display_password,
                total_size,
            )
        }
}

/// Whole-tree conversion over the selected files, already read into their
/// archive members: an empty selection is fatal — there is nothing to
/// compress — and otherwise the secret is resolved once, the inner archive
/// encoded, wrapped per the layer plan and the document rendered.
pub fn process_compressed(
    entries: &Vec<ArchiveEntry>,
    total_size: u64,
    input_path: &str,
    output_dir: &str,
    password_mode: &PasswordMode,
    preset_password: Option<String>,
    display_password: bool,
    compression_level: CompressionKind,
    layer: Layer,
    encryption_method: AesLevel,
) -> (r: Result<(HtmlGenerateOutput, Option<String>), ConversionError>)
    ensures
        r matches Ok(out) ==> ({
            &&& spec_resolved_secret(*password_mode, preset_password, out.1)
            &&& spec_tree_converted(
                out.0,
                out.1,
                entries@,
                input_path@,
                output_dir@,
                layer,
                encryption_method,
                compression_level == CompressionKind::Deflated,
                display_password,
                total_size,
            )
        }),
        entries@.len() == 0 ==> r == Err::<(HtmlGenerateOutput, Option<String>), ConversionError>(
            ConversionError::Selection(SelectionError::NoEligibleFiles),
        ),
        entries@.len() > 0 && *password_mode == PasswordMode::Manual && preset_password is None
            ==> r == Err::<(HtmlGenerateOutput, Option<String>), ConversionError>(
            ConversionError::Password(PasswordError::SecretRequired),
        ),
        r matches Err(ConversionError::Password(e)) ==> (*password_mode == PasswordMode::Manual
            && preset_password is None && e == PasswordError::SecretRequired),
        r matches Err(ConversionError::Selection(e)) ==> (entries@.len() == 0 && e
            == SelectionError::NoEligibleFiles),
{
    if entries.len() == 0 {
        return Err(ConversionError::Selection(SelectionError::NoEligibleFiles));
    }
    let password = match generate_password(password_mode, preset_password) {
        Ok(p) => p,
        Err(e) => {
            return Err(ConversionError::Password(e));
        },
    };
    let password_ref: Option<&str> = match &password {
        Some(p) => Some(p.as_str()),
        None => None,
    };
    proof {
        assert(opt_str_view(password_ref) == password.deep_view());
    }
    let inner_zip_buffer = match create_inner_zip(
        entries,
        compression_level,
        password_ref,
        encryption_method,
    ) {
        Ok(b) => b,
        Err(e) => {
            return Err(ConversionError::Archive(e));
        },
    };
    let out = match finalize_compression(
        input_path,
        output_dir,
        inner_zip_buffer,
        layer,
        password_ref,
        display_password,
        total_size,
        encryption_method,
    ) {
        Ok(o) => o,
        Err(e) => {
            return Err(ConversionError::Archive(e));
        },
    };
    Ok((out, password))
}


/// Whether a produced document is the conversion of one of the given
/// files.
pub open spec fn spec_some_unit_converted(
    out: HtmlGenerateOutput,
    files: Seq<LoadedFile>,
    output_dir: Seq<char>,
    compress: bool,
    pw: Option<Seq<char>>,
    aes: AesLevel,
    display_password: bool,
    layer: Layer,
) -> bool {
    exists|j: int|
        0 <= j < files.len() && spec_unit_converted(
            out,
            (#[trigger] files[j]).path@,
            files[j].data@,
            output_dir,
            compress,
            pw,
            aes,
            display_password,
            layer,
        )
}

/// Per-file conversion over the selected files, each read whole into
/// memory: one secret is resolved for the whole batch, every file is
/// converted, and the batch carries on past a failed unit — one file's
/// failure is not the run's.  Returns the produced documents, the resolved
/// secret, and how many units failed.
pub fn process_individual(
    files: &Vec<LoadedFile>,
    output_dir: &str,
    compress: bool,
    password_mode: &PasswordMode,
    preset_password: Option<String>,
    display_password: bool,
    layer: Layer,
    encryption_method: AesLevel,
) -> (r: Result<(Vec<HtmlGenerateOutput>, Option<String>, usize), ConversionError>)
    ensures
        r matches Ok(out) ==> ({
            &&& out.0@.len() + out.2 == files@.len()
            &&& (files@.len() > 0 ==> spec_resolved_secret(*password_mode, preset_password, out.1))
            &&& (files@.len() == 0 ==> out.0@.len() == 0 && out.1 is None)
            &&& (forall|k: int|
                0 <= k < out.0@.len() ==> #[trigger] spec_some_unit_converted(
                    out.0@[k],
                    files@,
                    output_dir@,
                    compress,
                    out.1.deep_view(),
                    encryption_method,
                    display_password,
                    layer,
                ))
        }),
        (r is Err) <==> (files@.len() > 0 && *password_mode == PasswordMode::Manual
            && preset_password is None),
        r is Err ==> r == Err::<(Vec<HtmlGenerateOutput>, Option<String>, usize), ConversionError>(
            ConversionError::Password(PasswordError::SecretRequired),
        ),
        layer == Layer::Passthrough ==> (r matches Ok(out) ==> out.2 == 0),
        layer == Layer::Single && !compress && *password_mode == PasswordMode::Disabled ==> (r
            matches Ok(out) ==> out.2 == 0),
{
    if files.len() == 0 {
        return Ok((Vec::new(), None, 0));
    }
    let ghost preset0 = preset_password;
    let password = match generate_password(password_mode, preset_password) {
        Ok(p) => p,
        Err(e) => {
            return Err(ConversionError::Password(e));
        },
    };
    let mut outputs: Vec<HtmlGenerateOutput> = Vec::new();
    let mut failed: usize = 0;
    let mut i: usize = 0;
    while i < files.len()
        invariant
            spec_resolved_secret(*password_mode, preset0, password),
            i <= files@.len(),
            outputs@.len() + failed == i,
            layer == Layer::Passthrough ==> failed == 0,
            layer == Layer::Single && !compress && *password_mode == PasswordMode::Disabled
                ==> failed == 0,
            forall|k: int|
                0 <= k < outputs@.len() ==> #[trigger] spec_some_unit_converted(
                    outputs@[k],
                    files@,
                    output_dir@,
                    compress,
                    password.deep_view(),
                    encryption_method,
                    display_password,
                    layer,
                ),
        decreases files.len() - i,
    {
        let pw_ref: Option<&str> = match &password {
            Some(p) => Some(p.as_str()),
            None => None,
        };
        proof {
            assert(opt_str_view(pw_ref) == password.deep_view());
        }
        let f = &files[i];
        match convert_file_to_html(
            f.path.as_str(),
            &f.data,
            output_dir,
            compress,
            pw_ref,
            display_password,
            layer,
            encryption_method,
        ) {
            Ok(out) => {
                outputs.push(out);
                proof {
                    assert(spec_unit_converted(
                        outputs@[outputs@.len() - 1],
                        files@[i as int].path@,
                        files@[i as int].data@,
                        output_dir@,
                        compress,
                        password.deep_view(),
                        encryption_method,
                        display_password,
                        layer,
                    ));
                    assert(spec_some_unit_converted(
                        outputs@[outputs@.len() - 1],
                        files@,
                        output_dir@,
                        compress,
                        password.deep_view(),
                        encryption_method,
                        display_password,
                        layer,
                    ));
                }
            },
            Err(_e) => {
                failed = failed + 1;
            },
        }
        i = i + 1;
    }
    Ok((outputs, password, failed))
}

/// The in-memory payload one conversion run works over.
#[derive(Debug)]
pub enum ConversionUnits {
    /// Whole-tree mode: the selected files as archive members, and their
    /// total size.
    Tree { entries: Vec<ArchiveEntry>, total_size: u64 },
    /// Per-file mode: each selected file read whole.
    Files { files: Vec<LoadedFile> },
}

/// Runs one whole conversion over in-memory input: a tree payload is
/// compressed into one archive and one document, a per-file payload
/// becomes one document per file.  Returns the run summary, the produced
/// documents and the resolved secret; a failure of the dispatched stage
/// propagates unchanged, and the clauses below say exactly which failures
/// can come out.
pub fn execute_conversion(input: &ConversionInput, payload: ConversionUnits) -> (r: Result<
    (ConversionOutput, Vec<HtmlGenerateOutput>, Option<String>),
    ConversionError,
>)
    requires
        input.is_compressed <==> payload is Tree,
    ensures
        r matches Ok(out) ==> out.0.output_path@ == input.output_dir@,
        payload matches ConversionUnits::Tree { entries, total_size } ==> ({
            &&& (r matches Ok(out) ==> ({
                &&& out.0.processed_files == entries@.len()
                &&& out.1@.len() == 1
                &&& spec_resolved_secret(input.password_mode, input.preset_password, out.2)
                &&& spec_tree_converted(
                    out.1@[0],
                    out.2,
                    entries@,
                    input.input_path@,
                    input.output_dir@,
                    input.layer,
                    input.encryption_method,
                    input.compression_level == CompressionKind::Deflated,
                    input.display_password,
                    total_size,
                )
            }))
            &&& (entries@.len() == 0 ==> (r matches Err(e) && e == ConversionError::Selection(
                SelectionError::NoEligibleFiles,
            )))
            &&& (entries@.len() > 0 && input.password_mode == PasswordMode::Manual
                && input.preset_password is None ==> (r matches Err(e) && e
                == ConversionError::Password(PasswordError::SecretRequired)))
            &&& (r matches Err(ConversionError::Password(e)) ==> (input.password_mode
                == PasswordMode::Manual && input.preset_password is None && e
                == PasswordError::SecretRequired))
            &&& (r matches Err(ConversionError::Selection(e)) ==> (entries@.len() == 0 && e
                == SelectionError::NoEligibleFiles))
        }),
        payload matches ConversionUnits::Files { files } ==> ({
            &&& (r matches Ok(out) ==> ({
                &&& out.0.processed_files == files@.len()
                &&& out.1@.len() <= files@.len()
                &&& (files@.len() > 0 ==> spec_resolved_secret(
                    input.password_mode,
                    input.preset_password,
                    out.2,
                ))
                &&& (files@.len() == 0 ==> out.1@.len() == 0 && out.2 is None)
                &&& (input.layer == Layer::Passthrough ==> out.1@.len() == files@.len())
                &&& (input.layer == Layer::Single && !input.compress && input.password_mode
                    == PasswordMode::Disabled ==> out.1@.len() == files@.len())
                &&& (forall|k: int|
                    0 <= k < out.1@.len() ==> #[trigger] spec_some_unit_converted(
                        out.1@[k],
                        files@,
                        input.output_dir@,
                        input.compress,
                        out.2.deep_view(),
                        input.encryption_method,
                        input.display_password,
                        input.layer,
                    ))
            }))
            &&& ((r is Err) <==> (files@.len() > 0 && input.password_mode == PasswordMode::Manual
                && input.preset_password is None))
            &&& (r is Err ==> (r matches Err(e) && e == ConversionError::Password(
                PasswordError::SecretRequired,
            )))
        }),
{
    let preset: Option<String> = match &input.preset_password {
        Some(p) => Some(p.clone()),
        None => None,
    };
    match payload {
        ConversionUnits::Tree { entries, total_size } => {
            let (doc, password) = match process_compressed(
                &entries,
                total_size,
                input.input_path.as_str(),
                input.output_dir.as_str(),
                &input.password_mode,
                preset,
                input.display_password,
                input.compression_level,
                input.layer,
                input.encryption_method,
            ) {
                Ok(p) => p,
                Err(e) => {
                    return Err(e);
                },
            };
            let processed_files = entries.len();
            let mut docs: Vec<HtmlGenerateOutput> = Vec::new();
            docs.push(doc);
            Ok(
                (
                    ConversionOutput { output_path: input.output_dir.clone(), processed_files },
                    docs,
                    password,
                ),
            )
        },
        ConversionUnits::Files { files } => {
            let (docs, password, _failed) = match process_individual(
                &files,
                input.output_dir.as_str(),
                input.compress,
                &input.password_mode,
                preset,
                input.display_password,
                input.layer,
                input.encryption_method,
            ) {
                Ok(p) => p,
                Err(e) => {
                    return Err(e);
                },
            };
            let processed_files = files.len();
            Ok(
                (
                    ConversionOutput { output_path: input.output_dir.clone(), processed_files },
                    docs,
                    password,
                ),
            )
        },
    }
}

} // verus!
