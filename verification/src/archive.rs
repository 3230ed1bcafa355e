//! The archive encoder and the layering orchestrator.
//!
//! Archives are written with the `zip` crate into an in-memory buffer; each
//! member may be AES-encrypted with one secret per archive layer.  The
//! produced bytes are modelled through [`read_back`]: what a standard
//! ZIP/AES reader, given the same secret, would extract from them.  Every
//! encoding function promises that reading its output back yields exactly
//! the entries that went in, in order.

use vstd::prelude::*;
use crate::config::{AesLevel, CompressionKind, Layer};

verus! {

/// What a standard ZIP/AES reader, given `password`, extracts from `bytes`:
/// the members' names and decrypted contents in order, or nothing when the
/// bytes are not such an archive or the password does not fit.  Parsing and
/// decryption are functions of the bytes and the password alone.
pub uninterp spec fn read_back(bytes: Seq<u8>, password: Option<Seq<char>>) -> Option<
    Seq<(Seq<char>, Seq<u8>)>,
>;

/// The AES key length, in bits, that each member of an archive declares,
/// in member order: 128, 192 or 256 for an AES-encrypted member, 0 for one
/// written in the clear.  The declaration sits in the member's header, so
/// this is a function of the bytes alone.
pub uninterp spec fn aes_bits_of(bytes: Seq<u8>) -> Seq<int>;

/// The archive this zip build writes, with no secret, for the given
/// members: without encryption nothing random enters, and the build stamps
/// a fixed date, so the bytes are a function of the members and the
/// compression method alone.
pub uninterp spec fn plain_zip_bytes(members: Seq<(Seq<char>, Seq<u8>)>, deflated: bool) -> Seq<
    u8,
>;

/// The key length, in bits, of an AES strength marker.
pub open spec fn spec_aes_bits(level: AesLevel) -> int {
    match level {
        AesLevel::Aes128 => 128,
        AesLevel::Aes192 => 192,
        AesLevel::Aes256 => 256,
    }
}

/// The encryption stamp of one produced archive layer of `members`
/// members: with a secret, every member declares the requested AES key
/// length and the archive cannot be extracted without the secret; with
/// none, every member is written in the clear.
pub open spec fn spec_layer_encrypted(
    bytes: Seq<u8>,
    pw: Option<Seq<char>>,
    aes: AesLevel,
    members: int,
) -> bool {
    &&& (pw is Some ==> aes_bits_of(bytes) == Seq::new(members as nat, |i: int| spec_aes_bits(aes)))
    &&& (pw is Some && members > 0 ==> read_back(bytes, None) is None)
    &&& (pw is None ==> aes_bits_of(bytes) == Seq::new(members as nat, |i: int| 0int))
}

/// Whether a member name fits the ZIP format's 16-bit name-length field.
pub open spec fn spec_name_fits(name: Seq<char>) -> bool {
    vstd::utf8::encode_utf8(name).len() <= 65535
}

/// Every member name fits the ZIP format's name-length field.
pub open spec fn spec_all_names_fit(members: Seq<(Seq<char>, Seq<u8>)>) -> bool {
    forall|i: int| 0 <= i < members.len() ==> spec_name_fits((#[trigger] members[i]).0)
}

/// No two members share a name; the writer refuses duplicates.
pub open spec fn spec_names_distinct(members: Seq<(Seq<char>, Seq<u8>)>) -> bool {
    forall|i: int, j: int|
        0 <= i < j < members.len() ==> (#[trigger] members[i]).0 != (#[trigger] members[j]).0
}

/// Every member's content fits the ZIP format's 32-bit size fields.
pub open spec fn spec_members_fit(members: Seq<(Seq<char>, Seq<u8>)>) -> bool {
    forall|i: int| 0 <= i < members.len() ==> (#[trigger] members[i]).1.len() <= 0xFFFFFFFF
}

/// What archive encoding can report.
#[derive(Clone, Copy, PartialEq, Eq, Structural, Debug)]
pub enum ArchiveError {
    /// The archive writer refused an entry or could not finish the archive.
    IoFailure,
    /// A member name longer than the 65,535 bytes the ZIP format's name
    /// field can carry; the encoders reject it before any writing starts.
    NameTooLong,
}

/// The view of an optional borrowed secret.
pub open spec fn opt_str_view(p: Option<&str>) -> Option<Seq<char>> {
    match p {
        Some(s) => Some(s@),
        None => None,
    }
}

/// One archive layer being written: an in-memory ZIP whose members are all
/// stored with one method and, when a secret is set, encrypted with that one
/// secret and AES strength.
///
/// The writer type of the `zip` crate cannot be declared to Verus (its
/// bounds name std's `Write` and `Seek`), so the whole builder is opaque;
/// its state is modelled by [`builder_entries`] and [`builder_secret`].
#[verifier::external_body]
pub struct ZipBuilder {
    writer: zip::write::ZipWriter<std::io::Cursor<Vec<u8>>>,
    password: Option<String>,
    aes: zip::AesMode,
    method: zip::CompressionMethod,
}

/// The members the builder holds so far: each one's name and exact content,
/// in the order they were added.
pub uninterp spec fn builder_entries(b: ZipBuilder) -> Seq<(Seq<char>, Seq<u8>)>;

/// The secret the builder was created with, applied to every member.
pub uninterp spec fn builder_secret(b: ZipBuilder) -> Option<Seq<char>>;

/// The AES key length, in bits, the builder was created with.
pub uninterp spec fn builder_aes_bits(b: ZipBuilder) -> int;

/// Whether the builder deflates its members rather than storing them.
pub uninterp spec fn builder_deflated(b: ZipBuilder) -> bool;

impl ZipBuilder {
    /// Relies on `zip::write::ZipWriter::new` over a fresh in-memory
    /// cursor: the new archive holds no members yet.
    #[verifier::external_body]
    pub(crate) fn new(password: Option<&str>, aes: AesLevel, method: CompressionKind) -> (b:
        ZipBuilder)
        ensures
            builder_entries(b) == Seq::<(Seq<char>, Seq<u8>)>::empty(),
            builder_secret(b) == opt_str_view(password),
            builder_aes_bits(b) == spec_aes_bits(aes),
            builder_deflated(b) == (method == CompressionKind::Deflated),
    {
        ZipBuilder {
            writer: zip::write::ZipWriter::new(std::io::Cursor::new(Vec::new())),
            password: password.map(String::from),
            aes: match aes {
                AesLevel::Aes128 => zip::AesMode::Aes128,
                AesLevel::Aes192 => zip::AesMode::Aes192,
                AesLevel::Aes256 => zip::AesMode::Aes256,
            },
            method: match method {
                CompressionKind::Stored => zip::CompressionMethod::Stored,
                CompressionKind::Deflated => zip::CompressionMethod::Deflated,
            },
        }
    }

    /// Relies on `zip::write::ZipWriter::start_file` and
    /// `std::io::Write::write_all` on the writer: on success one member
    /// named `name` holding exactly `data` is appended, encrypted with this
    /// builder's secret when one is set; the builder's secret is untouched.
    /// On failure nothing is promised and the archive is abandoned.
    ///
    /// The name-length bound is a precondition because the writer asserts
    /// the format's 16-bit name field rather than checking it.  With no
    /// secret, stored members, contents within the format's 32-bit size
    /// fields and a name no member carries yet, the writer has nothing to
    /// refuse and the in-memory cursor nothing to fail: the call succeeds.
    /// Any failure is reported as `IoFailure`.
    #[verifier::external_body]
    pub(crate) fn add_entry(&mut self, name: &str, data: &[u8]) -> (r: Result<(), ArchiveError>)
        requires
            spec_name_fits(name@),
        ensures
            r is Ok ==> builder_entries(*final(self)) == builder_entries(*old(self)).push(
                (name@, data@),
            ),
            r is Ok ==> builder_secret(*final(self)) == builder_secret(*old(self)),
            r is Ok ==> builder_aes_bits(*final(self)) == builder_aes_bits(*old(self)),
            r is Ok ==> builder_deflated(*final(self)) == builder_deflated(*old(self)),
            r is Err ==> (r matches Err(e) && e == ArchiveError::IoFailure),
            builder_secret(*old(self)) is None && !builder_deflated(*old(self))
                && spec_members_fit(builder_entries(*old(self)).push((name@, data@))) && (forall|
                i: int,
            |
                0 <= i < builder_entries(*old(self)).len() ==> (#[trigger] builder_entries(
                    *old(self),
                )[i]).0 != name@) ==> r is Ok,
    {
        let base = zip::write::SimpleFileOptions::default().compression_method(self.method);
        let started = if let Some(p) = &self.password {
            self.writer.start_file(name, base.with_aes_encryption(self.aes, p))
        } else {
            self.writer.start_file(name, base)
        };
        if started.is_err() {
            return Err(ArchiveError::IoFailure);
        }
        std::io::Write::write_all(&mut self.writer, data).map_err(|_e| ArchiveError::IoFailure)
    }

    /// Relies on `zip::write::ZipWriter::finish`: on success the returned
    /// buffer is a complete archive whose members read back, with this
    /// builder's secret, as exactly the members that were added, in order.
    /// With a secret, every member's header declares this builder's AES
    /// strength, and a reader given no secret refuses the extraction
    /// outright.  With no secret nothing random or time-dependent enters
    /// this build's output (it stamps a fixed date), so the bytes are the
    /// one archive this build writes for these members and this method —
    /// and, for stored members whose names and contents fit the format's
    /// fields, writing the central directory to the in-memory cursor has
    /// nothing left to fail: finishing succeeds.  Any failure is reported
    /// as `IoFailure`.
    #[verifier::external_body]
    pub(crate) fn finish(self) -> (r: Result<Vec<u8>, ArchiveError>)
        ensures
            r is Err ==> (r matches Err(e) && e == ArchiveError::IoFailure),
            builder_secret(self) is None && !builder_deflated(self) && spec_all_names_fit(
                builder_entries(self),
            ) && spec_members_fit(builder_entries(self)) ==> r is Ok,
            r matches Ok(bytes) ==> read_back(bytes@, builder_secret(self)) == Some(
                builder_entries(self),
            ),
            builder_secret(self) is Some ==> (r matches Ok(bytes) ==> aes_bits_of(bytes@)
                == Seq::new(builder_entries(self).len(), |i: int| builder_aes_bits(self))),
            builder_secret(self) is None ==> (r matches Ok(bytes) ==> aes_bits_of(bytes@)
                == Seq::new(builder_entries(self).len(), |i: int| 0int)),
            builder_secret(self) is Some && builder_entries(self).len() > 0 ==> (r matches Ok(
                bytes,
            ) ==> read_back(bytes@, None) is None),
            builder_secret(self) is None ==> (r matches Ok(bytes) ==> bytes@ == plain_zip_bytes(
                builder_entries(self),
                builder_deflated(self),
            )),
    {
        match self.writer.finish() {
            Ok(cursor) => Ok(cursor.into_inner()),
            Err(_e) => Err(ArchiveError::IoFailure),
        }
    }
}

/// An in-memory archive member: its name within the archive and its exact
/// content.
#[derive(Debug)]
pub struct ArchiveEntry {
    pub name: String,
    pub data: Vec<u8>,
}

/// The name/content pairs of a sequence of members.
pub open spec fn entry_pairs(s: Seq<ArchiveEntry>) -> Seq<(Seq<char>, Seq<u8>)> {
    s.map_values(|e: ArchiveEntry| (e.name@, e.data@))
}

/// Decides whether a member name fits the ZIP format's name field.
fn name_fits(name: &str) -> (r: bool)
    ensures
        r == spec_name_fits(name@),
{
    let bytes = name.as_bytes();
    bytes.len() <= 65535
}

/// Encodes the given members, in order, into one archive layer.  On success
/// the produced bytes read back, under the same secret, as exactly those
/// members; with a secret every member is AES-encrypted with it at the
/// requested strength, and without one the bytes are the one archive this
/// build writes for these members.  A member name beyond the format's
/// name field is rejected up front; with no secret, stored members whose
/// names are distinct and whose contents fit the format's size fields
/// cannot fail.  Any writer failure aborts the whole archive: no partial
/// result is returned.
pub fn encode_entries(
    entries: &Vec<ArchiveEntry>,
    password: Option<&str>,
    aes: AesLevel,
    method: CompressionKind,
) -> (r: Result<Vec<u8>, ArchiveError>)
    ensures
        r matches Ok(bytes) ==> read_back(bytes@, opt_str_view(password)) == Some(
            entry_pairs(entries@),
        ),
        r matches Ok(bytes) ==> spec_layer_encrypted(
            bytes@,
            opt_str_view(password),
            aes,
            entries@.len() as int,
        ),
        password is None ==> (r matches Ok(bytes) ==> bytes@ == plain_zip_bytes(
            entry_pairs(entries@),
            method == CompressionKind::Deflated,
        )),
        (r matches Err(e) && e == ArchiveError::NameTooLong) <==> !spec_all_names_fit(
            entry_pairs(entries@),
        ),
        password is None && method == CompressionKind::Stored && spec_all_names_fit(
            entry_pairs(entries@),
        ) && spec_names_distinct(entry_pairs(entries@)) && spec_members_fit(entry_pairs(entries@))
            ==> r is Ok,
{
    let mut j: usize = 0;
    while j < entries.len()
        invariant
            j <= entries@.len(),
            forall|k: int| 0 <= k < j ==> spec_name_fits((#[trigger] entry_pairs(entries@)[k]).0),
        decreases entries.len() - j,
    {
        if !name_fits(entries[j].name.as_str()) {
            proof {
                assert(entry_pairs(entries@)[j as int].0 == entries@[j as int].name@);
            }
            return Err(ArchiveError::NameTooLong);
        }
        proof {
            assert(entry_pairs(entries@)[j as int].0 == entries@[j as int].name@);
        }
        j = j + 1;
    }
    let mut b = ZipBuilder::new(password, aes, method);
    proof {
        assert(entry_pairs(entries@.take(0)) =~= Seq::<(Seq<char>, Seq<u8>)>::empty());
    }
    let mut i: usize = 0;
    while i < entries.len()
        invariant
            i <= entries@.len(),
            spec_all_names_fit(entry_pairs(entries@)),
            builder_entries(b) == entry_pairs(entries@.take(i as int)),
            builder_secret(b) == opt_str_view(password),
            builder_aes_bits(b) == spec_aes_bits(aes),
            builder_deflated(b) == (method == CompressionKind::Deflated),
        decreases entries.len() - i,
    {
        let e = &entries[i];
        proof {
            assert(spec_name_fits(entry_pairs(entries@)[i as int].0));
        }
        match b.add_entry(e.name.as_str(), e.data.as_slice()) {
            Ok(()) => {},
            Err(err) => {
                proof {
                    if opt_str_view(password) is None && method == CompressionKind::Stored
                        && spec_names_distinct(entry_pairs(entries@)) && spec_members_fit(
                        entry_pairs(entries@),
                    ) {
                        let pre = entry_pairs(entries@.take(i as int));
                        let pushed = pre.push((entries@[i as int].name@, entries@[i as int].data@));
                        assert(pushed =~= entry_pairs(entries@.take(i + 1 as int)));
                        assert forall|k: int| 0 <= k < pushed.len() implies (#[trigger] pushed[k]).1.len()
                            <= 0xFFFFFFFF by {
                            assert(pushed[k] == entry_pairs(entries@)[k]);
                        }
                        assert forall|k: int| 0 <= k < pre.len() implies (#[trigger] pre[k]).0
                            != entries@[i as int].name@ by {
                            assert(pre[k] == entry_pairs(entries@)[k]);
                            assert(entry_pairs(entries@)[i as int].0 == entries@[i as int].name@);
                        }
                        assert(false);
                    }
                }
                return Err(err);
            },
        }
        proof {
            assert(entry_pairs(entries@.take(i as int)).push((entries@[i as int].name@, entries@[i as int].data@))
                =~= entry_pairs(entries@.take(i + 1 as int)));
        }
        i = i + 1;
    }
    proof {
        assert(entries@.take(entries@.len() as int) =~= entries@);
        assert(entry_pairs(entries@.take(entries@.len() as int)) =~= entry_pairs(entries@));
        if opt_str_view(password) is None && method == CompressionKind::Stored && spec_members_fit(
            entry_pairs(entries@),
        ) {
            assert(spec_members_fit(builder_entries(b)));
            assert(spec_all_names_fit(builder_entries(b)));
        }
    }
    match b.finish() {
        Ok(bytes) => {
            proof {
                if opt_str_view(password) is Some {
                    assert(aes_bits_of(bytes@) =~= Seq::new(
                        entries@.len() as nat,
                        |i: int| spec_aes_bits(aes),
                    ));
                } else {
                    assert(aes_bits_of(bytes@) =~= Seq::new(entries@.len() as nat, |i: int| 0int));
                }
                assert(spec_layer_encrypted(
                    bytes@,
                    opt_str_view(password),
                    aes,
                    entries@.len() as int,
                ));
            }
            Ok(bytes)
        },
        Err(e) => Err(e),
    }
}

/// Encodes one in-memory buffer as the sole member of an archive layer.
/// A name beyond the format's name field is rejected up front; with no
/// secret, a stored buffer within the format's size fields cannot fail.
pub fn encode_one(
    name: &str,
    data: &Vec<u8>,
    password: Option<&str>,
    aes: AesLevel,
    method: CompressionKind,
) -> (r: Result<Vec<u8>, ArchiveError>)
    ensures
        r matches Ok(bytes) ==> read_back(bytes@, opt_str_view(password)) == Some(
            seq![(name@, data@)],
        ),
        r matches Ok(bytes) ==> spec_layer_encrypted(bytes@, opt_str_view(password), aes, 1),
        password is None ==> (r matches Ok(bytes) ==> bytes@ == plain_zip_bytes(
            seq![(name@, data@)],
            method == CompressionKind::Deflated,
        )),
        (r matches Err(e) && e == ArchiveError::NameTooLong) <==> !spec_name_fits(name@),
        password is None && method == CompressionKind::Stored && spec_name_fits(name@)
            && data@.len() <= 0xFFFFFFFF ==> r is Ok,
{
    if !name_fits(name) {
        return Err(ArchiveError::NameTooLong);
    }
    let mut b = ZipBuilder::new(password, aes, method);
    let ghost one = Seq::<(Seq<char>, Seq<u8>)>::empty().push((name@, data@));
    proof {
        assert(one =~= seq![(name@, data@)]);
    }
    match b.add_entry(name, data.as_slice()) {
        Ok(()) => {},
        Err(err) => {
            proof {
                if opt_str_view(password) is None && method == CompressionKind::Stored && data@.len()
                    <= 0xFFFFFFFF {
                    assert(spec_members_fit(builder_entries(b).push((name@, data@)))) by {
                        assert(builder_entries(b).push((name@, data@)) =~= one);
                    }
                    assert(false);
                }
            }
            return Err(err);
        },
    }
    match b.finish() {
        Ok(bytes) => {
            proof {
                if opt_str_view(password) is Some {
                    assert(aes_bits_of(bytes@) =~= Seq::new(1nat, |i: int| spec_aes_bits(aes)));
                } else {
                    assert(aes_bits_of(bytes@) =~= Seq::new(1nat, |i: int| 0int));
                }
                assert(spec_layer_encrypted(bytes@, opt_str_view(password), aes, 1));
            }
            Ok(bytes)
        },
        Err(e) => {
            proof {
                if opt_str_view(password) is None && method == CompressionKind::Stored && data@.len()
                    <= 0xFFFFFFFF {
                    assert(spec_members_fit(builder_entries(b))) by {
                        assert(builder_entries(b) =~= one);
                    }
                    assert(spec_all_names_fit(builder_entries(b))) by {
                        assert(builder_entries(b) =~= one);
                    }
                    assert(false);
                }
            }
            Err(e)
        },
    }
}

/// The name of the downloadable artifact for a payload named `name` under a
/// layer plan: unchanged for passthrough, `name.zip` for a single layer,
/// `name_outer.zip` for a double layer.
pub open spec fn spec_download_name(name: Seq<char>, layer: Layer) -> Seq<char> {
    match layer {
        Layer::Passthrough => name,
        Layer::Single => name + ".zip"@,
        Layer::Double => name + "_outer.zip"@,
    }
}

/// Copies a byte buffer.
fn copy_bytes(data: &Vec<u8>) -> (r: Vec<u8>)
    ensures
        r@ == data@,
{
    vstd::slice::slice_to_vec(data.as_slice())
}

/// Encodes one in-memory buffer as the sole, optionally encrypted, stored
/// member of an archive; the buffer is typically an already compressed
/// inner payload.
pub fn compress_file_content(
    data: &Vec<u8>,
    file_name: &str,
    password: Option<&str>,
    aes_mode: AesLevel,
) -> (r: Result<Vec<u8>, ArchiveError>)
    ensures
        r matches Ok(bytes) ==> read_back(bytes@, opt_str_view(password)) == Some(
            seq![(file_name@, data@)],
        ),
        r matches Ok(bytes) ==> spec_layer_encrypted(bytes@, opt_str_view(password), aes_mode, 1),
        password is None ==> (r matches Ok(bytes) ==> bytes@ == plain_zip_bytes(
            seq![(file_name@, data@)],
            false,
        )),
        (r matches Err(e) && e == ArchiveError::NameTooLong) <==> !spec_name_fits(file_name@),
        password is None && spec_name_fits(file_name@) && data@.len() <= 0xFFFFFFFF ==> r is Ok,
{
    encode_one(file_name, data, password, aes_mode, CompressionKind::Stored)
}

/// Encodes one buffer as the sole unencrypted member of an archive.
pub fn create_zip_buffer(file_name: &str, data: &Vec<u8>, method: CompressionKind) -> (r: Result<
    Vec<u8>,
    ArchiveError,
>)
    ensures
        r matches Ok(bytes) ==> read_back(bytes@, None) == Some(seq![(file_name@, data@)]),
        r matches Ok(bytes) ==> aes_bits_of(bytes@) == Seq::new(1nat, |i: int| 0int),
        r matches Ok(bytes) ==> bytes@ == plain_zip_bytes(
            seq![(file_name@, data@)],
            method == CompressionKind::Deflated,
        ),
        (r matches Err(e) && e == ArchiveError::NameTooLong) <==> !spec_name_fits(file_name@),
        method == CompressionKind::Stored && spec_name_fits(file_name@) && data@.len()
            <= 0xFFFFFFFF ==> r is Ok,
{
    encode_one(file_name, data, None, AesLevel::Aes256, method)
}

/// Encodes the selected files' contents into the inner archive layer, one
/// member per file, in the given order.
pub fn create_inner_zip(
    entries: &Vec<ArchiveEntry>,
    method: CompressionKind,
    password: Option<&str>,
    aes_mode: AesLevel,
) -> (r: Result<Vec<u8>, ArchiveError>)
    ensures
        r matches Ok(bytes) ==> read_back(bytes@, opt_str_view(password)) == Some(
            entry_pairs(entries@),
        ),
        r matches Ok(bytes) ==> spec_layer_encrypted(
            bytes@,
            opt_str_view(password),
            aes_mode,
            entries@.len() as int,
        ),
        password is None ==> (r matches Ok(bytes) ==> bytes@ == plain_zip_bytes(
            entry_pairs(entries@),
            method == CompressionKind::Deflated,
        )),
        (r matches Err(e) && e == ArchiveError::NameTooLong) <==> !spec_all_names_fit(
            entry_pairs(entries@),
        ),
        password is None && method == CompressionKind::Stored && spec_all_names_fit(
            entry_pairs(entries@),
        ) && spec_names_distinct(entry_pairs(entries@)) && spec_members_fit(entry_pairs(entries@))
            ==> r is Ok,
{
    encode_entries(entries, password, aes_mode, method)
}

/// Wraps an already-prepared payload buffer according to the layer plan:
/// passthrough returns the bytes unchanged, a single layer stores them as
/// the member `{file_name}.zip`, a double layer stores them as the member
/// `{file_name}_outer.zip` of the outer archive.  The secret, when one is
/// given, is applied to the produced layer.
pub fn create_zip(
    data: &Vec<u8>,
    file_name: &str,
    layer: Layer,
    password: Option<&str>,
    aes_mode: AesLevel,
) -> (r: Result<Vec<u8>, ArchiveError>)
    ensures
        layer == Layer::Passthrough ==> (r matches Ok(bytes) && bytes@ == data@),
        layer == Layer::Single ==> (r matches Ok(bytes) ==> read_back(
            bytes@,
            opt_str_view(password),
        ) == Some(seq![(file_name@ + ".zip"@, data@)])),
        layer == Layer::Double ==> (r matches Ok(bytes) ==> read_back(
            bytes@,
            opt_str_view(password),
        ) == Some(seq![(file_name@ + "_outer.zip"@, data@)])),
        layer != Layer::Passthrough ==> (r matches Ok(bytes) ==> spec_layer_encrypted(
            bytes@,
            opt_str_view(password),
            aes_mode,
            1,
        )),
        layer == Layer::Single ==> ((r matches Err(e) && e == ArchiveError::NameTooLong)
            <==> !spec_name_fits(file_name@ + ".zip"@)),
        layer == Layer::Double ==> ((r matches Err(e) && e == ArchiveError::NameTooLong)
            <==> !spec_name_fits(file_name@ + "_outer.zip"@)),
        layer == Layer::Single && password is None && spec_name_fits(file_name@ + ".zip"@)
            && data@.len() <= 0xFFFFFFFF ==> r is Ok,
        layer == Layer::Double && password is None && spec_name_fits(file_name@ + "_outer.zip"@)
            && data@.len() <= 0xFFFFFFFF ==> r is Ok,
        layer == Layer::Single && password is None ==> (r matches Ok(bytes) ==> bytes@
            == plain_zip_bytes(seq![(file_name@ + ".zip"@, data@)], false)),
        layer == Layer::Double && password is None ==> (r matches Ok(bytes) ==> bytes@
            == plain_zip_bytes(seq![(file_name@ + "_outer.zip"@, data@)], false)),
{
    match layer {
        Layer::Double => {
            let outer_name = String::from_str(file_name).concat("_outer.zip");
            encode_one(outer_name.as_str(), data, password, aes_mode, CompressionKind::Stored)
        },
        Layer::Single => {
            let member_name = String::from_str(file_name).concat(".zip");
            encode_one(member_name.as_str(), data, password, aes_mode, CompressionKind::Stored)
        },
        Layer::Passthrough => Ok(copy_bytes(data)),
    }
}

/// The compressing stage of the pipeline: turns a list of members into one
/// archive layer.
pub trait Compressor {
    /// The secret the implementation applies to every member.
    spec fn secret_view(&self) -> Option<Seq<char>>;

    /// The AES strength the implementation encrypts with when its secret is
    /// set.
    spec fn aes_level_view(&self) -> AesLevel;

    /// Whether the implementation deflates members rather than storing
    /// them.
    spec fn deflated_view(&self) -> bool;

    /// Encodes the members, in order, into one archive layer; on success
    /// the bytes read back, under the implementation's secret, as exactly
    /// those members, every member carries the implementation's secret and
    /// AES strength or none does, and without a secret the bytes are the
    /// one archive this build writes for these members.  An over-long
    /// member name is rejected as such, and with no secret, stored,
    /// distinct members within the format's fields cannot fail.
    fn compress_files(&mut self, entries: &Vec<ArchiveEntry>) -> (r: Result<Vec<u8>, ArchiveError>)
        ensures
            r matches Ok(bytes) ==> read_back(bytes@, old(self).secret_view()) == Some(
                entry_pairs(entries@),
            ),
            r matches Ok(bytes) ==> spec_layer_encrypted(
                bytes@,
                old(self).secret_view(),
                old(self).aes_level_view(),
                entries@.len() as int,
            ),
            old(self).secret_view() is None ==> (r matches Ok(bytes) ==> bytes@
                == plain_zip_bytes(entry_pairs(entries@), old(self).deflated_view())),
            (r matches Err(e) && e == ArchiveError::NameTooLong) <==> !spec_all_names_fit(
                entry_pairs(entries@),
            ),
            old(self).secret_view() is None && !old(self).deflated_view() && spec_all_names_fit(
                entry_pairs(entries@),
            ) && spec_names_distinct(entry_pairs(entries@)) && spec_members_fit(
                entry_pairs(entries@),
            ) ==> r is Ok,
    ;
}

/// The ZIP-backed archive encoder: stateless between calls but carrying the
/// settings one archive is written with.
#[derive(Debug)]
pub struct ZipCompressor {
    pub password: Option<String>,
    pub aes_mode: AesLevel,
    pub method: CompressionKind,
    pub no_progress: bool,
}

impl ZipCompressor {
    /// Remembers the settings every member of the archive is written with.
    pub fn new(
        method: CompressionKind,
        password: Option<&str>,
        aes_mode: AesLevel,
        no_progress: bool,
    ) -> (r: ZipCompressor)
        ensures
            r.password.deep_view() == opt_str_view(password),
            r.aes_mode == aes_mode,
            r.method == method,
            r.no_progress == no_progress,
    {
        let owned: Option<String> = match password {
            Some(p) => Some(p.to_owned()),
            None => None,
        };
        ZipCompressor { password: owned, aes_mode, method, no_progress }
    }
}

impl Compressor for ZipCompressor {
    open spec fn secret_view(&self) -> Option<Seq<char>> {
        self.password.deep_view()
    }

    open spec fn aes_level_view(&self) -> AesLevel {
        self.aes_mode
    }

    open spec fn deflated_view(&self) -> bool {
        self.method == CompressionKind::Deflated
    }

    fn compress_files(&mut self, entries: &Vec<ArchiveEntry>) -> (r: Result<Vec<u8>, ArchiveError>)
    {
        let pw: Option<&str> = match &self.password {
            Some(p) => Some(p.as_str()),
            None => None,
        };
        proof {
            assert(opt_str_view(pw) == self.password.deep_view());
            assert(self.method == CompressionKind::Stored || self.method
                == CompressionKind::Deflated);
        }
        encode_entries(entries, pw, self.aes_mode, self.method)
    }
}

/// Everything one archive-encoding call consumes.
#[derive(Debug)]
pub struct ZipCompressInput {
    pub entries: Vec<ArchiveEntry>,
    pub input_path: String,
    pub method: CompressionKind,
    pub password: Option<String>,
    pub aes_mode: AesLevel,
    pub no_progress: bool,
}

/// Everything one archive-encoding call produces: the archive bytes and the
/// total uncompressed size that went in.
#[derive(Debug)]
pub struct ZipCompressOutput {
    pub zip_buffer: Vec<u8>,
    pub total_size: u64,
}


/// The combined size of the members' contents.
pub open spec fn spec_entries_data_sum(s: Seq<ArchiveEntry>) -> int
    decreases s.len(),
{
    if s.len() == 0 {
        0
    } else {
        spec_entries_data_sum(s.drop_last()) + s.last().data@.len()
    }
}

proof fn lemma_entries_data_sum_prefix(s: Seq<ArchiveEntry>, i: int)
    requires
        0 <= i <= s.len(),
    ensures
        0 <= spec_entries_data_sum(s.take(i)) <= spec_entries_data_sum(s),
    decreases s.len(),
{
    if i == s.len() {
        assert(s.take(i) =~= s);
        lemma_entries_data_sum_nonneg(s);
    } else {
        assert(s.drop_last() =~= s.take(s.len() - 1));
        assert(s.take(i) =~= s.drop_last().take(i));
        lemma_entries_data_sum_prefix(s.drop_last(), i);
    }
}

proof fn lemma_entries_data_sum_nonneg(s: Seq<ArchiveEntry>)
    ensures
        spec_entries_data_sum(s) >= 0,
    decreases s.len(),
{
    if s.len() > 0 {
        lemma_entries_data_sum_nonneg(s.drop_last());
    }
}

/// The archive-encoding half of the pipeline, phrased over one request.
pub trait ZipServiceTrait {
    /// Encodes the request's members into one archive layer; on success the
    /// bytes read back, under the request's secret, as exactly those
    /// members, every member carries the request's secret and AES strength
    /// or none does, the reported total is their combined content size, and
    /// without a secret the bytes are the one archive this build writes for
    /// the request.
    fn compress_files(&self, input: &ZipCompressInput) -> (r: Result<
        ZipCompressOutput,
        ArchiveError,
    >)
        requires
            spec_entries_data_sum(input.entries@) <= u64::MAX,
        ensures
            r matches Ok(out) ==> ({
                &&& read_back(out.zip_buffer@, input.password.deep_view()) == Some(
                    entry_pairs(input.entries@),
                )
                &&& spec_layer_encrypted(
                    out.zip_buffer@,
                    input.password.deep_view(),
                    input.aes_mode,
                    input.entries@.len() as int,
                )
                &&& out.total_size as int == spec_entries_data_sum(input.entries@)
            }),
            input.password is None ==> (r matches Ok(out) ==> out.zip_buffer@ == plain_zip_bytes(
                entry_pairs(input.entries@),
                input.method == CompressionKind::Deflated,
            )),
            (r matches Err(e) && e == ArchiveError::NameTooLong) <==> !spec_all_names_fit(
                entry_pairs(input.entries@),
            ),
            input.password is None && input.method == CompressionKind::Stored
                && spec_all_names_fit(entry_pairs(input.entries@)) && spec_names_distinct(
                entry_pairs(input.entries@),
            ) && spec_members_fit(entry_pairs(input.entries@)) ==> r is Ok,
    ;
}

/// The stateless archive-encoding service.
pub struct ZipService;

impl ZipService {
    /// There is nothing to configure: every request carries its settings.
    pub fn new() -> (r: ZipService) {
        ZipService
    }
}

impl ZipServiceTrait for ZipService {
    fn compress_files(&self, input: &ZipCompressInput) -> (r: Result<
        ZipCompressOutput,
        ArchiveError,
    >) {
        let pw: Option<&str> = match &input.password {
            Some(p) => Some(p.as_str()),
            None => None,
        };
        proof {
            assert(opt_str_view(pw) == input.password.deep_view());
        }
        let zip_buffer = match encode_entries(&input.entries, pw, input.aes_mode, input.method) {
            Ok(b) => b,
            Err(e) => {
                return Err(e);
            },
        };
        let mut total_size: u64 = 0;
        let mut i: usize = 0;
        proof {
            assert(input.entries@.take(0) =~= Seq::<ArchiveEntry>::empty());
        }
        while i < input.entries.len()
            invariant
                i <= input.entries@.len(),
                spec_entries_data_sum(input.entries@) <= u64::MAX,
                total_size as int == spec_entries_data_sum(input.entries@.take(i as int)),
            decreases input.entries.len() - i,
        {
            proof {
                assert(input.entries@.take(i + 1 as int).drop_last() =~= input.entries@.take(
                    i as int,
                ));
                assert(input.entries@.take(i + 1 as int).last() == input.entries@[i as int]);
                lemma_entries_data_sum_prefix(input.entries@, i + 1 as int);
            }
            total_size = total_size + (input.entries[i].data.len() as u64);
            i = i + 1;
        }
        proof {
            assert(input.entries@.take(input.entries@.len() as int) =~= input.entries@);
        }
        Ok(ZipCompressOutput { zip_buffer, total_size })
    }
}

} // verus!
