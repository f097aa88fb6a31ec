//! The archive writers of the `zip`, `tar` and `flate2` crates, each behind a
//! contract over the entries that it was handed.

use vstd::prelude::*;

verus! {

/// `std::io::Error`, as the writers of `tar` and `flate2` return it.
#[verifier::external_type_specification]
#[verifier::external_body]
pub struct ExIoError(std::io::Error);

/// A `zip::ZipWriter` that writes into a buffer in memory.
#[verifier::external_body]
pub struct ZipBuffer {
    writer: zip::ZipWriter<std::io::Cursor<Vec<u8>>>,
}

/// `zip::result::ZipError`, as the zip writer returns it.
#[verifier::external_type_specification]
#[verifier::external_body]
pub struct ExZipError(zip::result::ZipError);

/// A `tar::Builder` that writes into a buffer in memory.
#[verifier::external_body]
pub struct TarBuffer {
    builder: tar::Builder<Vec<u8>>,
}

/// The entries that a zip writer was handed, in their order: the name of
/// each, whether it is a directory, and its data.
pub uninterp spec fn zip_entries(writer: ZipBuffer) -> Seq<
    (Seq<char>, bool, Seq<u8>),
>;

/// The bytes of the zip archive that holds the given entries, each file
/// deflated at the default level, each entry under the earliest time stamp
/// that the format knows.
pub uninterp spec fn zip_image(entries: Seq<(Seq<char>, bool, Seq<u8>)>) -> Seq<u8>;

/// Whether a zip writer that holds the given entries starts a file of the
/// given name. It refuses, among others, a name that an entry has already
/// and a name too long for a header.
pub uninterp spec fn zip_takes_file(entries: Seq<(Seq<char>, bool, Seq<u8>)>, name: Seq<char>) -> bool;

/// Whether a zip writer that holds the given entries enters a directory of
/// the given name.
pub uninterp spec fn zip_takes_directory(
    entries: Seq<(Seq<char>, bool, Seq<u8>)>,
    name: Seq<char>,
) -> bool;

/// Whether a zip writer that holds the given entries, the last of them a
/// file without data yet, takes the given data for that file. It refuses
/// data too long for an entry of the plain format.
pub uninterp spec fn zip_takes_data(entries: Seq<(Seq<char>, bool, Seq<u8>)>, data: Seq<u8>) -> bool;

/// Whether a zip writer that holds the given entries closes the archive.
pub uninterp spec fn zip_closes(entries: Seq<(Seq<char>, bool, Seq<u8>)>) -> bool;

/// The name under which a directory is entered: it ends with a separator.
pub open spec fn zip_dir_name(name: Seq<char>) -> Seq<char> {
    if name.len() > 0 && (name.last() == '/' || name.last() == '\\') {
        name
    } else {
        name + seq!['/']
    }
}

/// `zip::ZipWriter::new` on an empty buffer: a writer that holds no entry.
#[verifier::external_body]
pub(crate) fn zip_new() -> (writer: ZipBuffer)
    ensures
        zip_entries(writer) == Seq::<(Seq<char>, bool, Seq<u8>)>::empty(),
{
    ZipBuffer { writer: zip::ZipWriter::new(std::io::Cursor::new(Vec::new())) }
}

/// `zip::ZipWriter::start_file` with the deflate method and the earliest
/// time stamp: whether it succeeds depends on the entries that the writer
/// holds and on the name alone, as the writer works in memory. Where it
/// succeeds, the writer holds one more entry, a file of that name without
/// data yet.
#[verifier::external_body]
pub(crate) fn zip_start_file(
    writer: &mut ZipBuffer,
    name: &str,
) -> (done: Result<(), zip::result::ZipError>)
    ensures
        done is Ok <==> zip_takes_file(zip_entries(*old(writer)), name@),
        done is Ok ==> zip_entries(*final(writer)) == zip_entries(*old(writer)).push(
            (name@, false, Seq::<u8>::empty()),
        ),
{
    let options = zip::write::SimpleFileOptions::default()
        .compression_method(zip::CompressionMethod::Deflated)
        .last_modified_time(zip::DateTime::default());
    writer.writer.start_file(name, options)
}

/// `std::io::Write::write_all` of `zip::ZipWriter`: whether it succeeds
/// depends on the entries that the writer holds and on the data alone.
/// Where it succeeds, the bytes are the data of the file that was started
/// last. The data of a file is handed over in one piece.
#[verifier::external_body]
pub(crate) fn zip_write_all(
    writer: &mut ZipBuffer,
    data: &[u8],
) -> (done: Result<(), std::io::Error>)
    requires
        zip_entries(*old(writer)).len() > 0,
        !zip_entries(*old(writer)).last().1,
        zip_entries(*old(writer)).last().2.len() == 0,
    ensures
        done is Ok <==> zip_takes_data(zip_entries(*old(writer)), data@),
        done is Ok ==> zip_entries(*final(writer)) == zip_entries(*old(writer)).drop_last().push(
            (zip_entries(*old(writer)).last().0, false, data@),
        ),
{
    std::io::Write::write_all(&mut writer.writer, data)
}

/// `zip::ZipWriter::add_directory` with the earliest time stamp: whether it
/// succeeds depends on the entries that the writer holds and on the name
/// alone. Where it succeeds, the writer holds one more entry, a directory
/// without data, whose name ends with a separator.
#[verifier::external_body]
pub(crate) fn zip_add_directory(
    writer: &mut ZipBuffer,
    name: &str,
) -> (done: Result<(), zip::result::ZipError>)
    ensures
        done is Ok <==> zip_takes_directory(zip_entries(*old(writer)), name@),
        done is Ok ==> zip_entries(*final(writer)) == zip_entries(*old(writer)).push(
            (zip_dir_name(name@), true, Seq::<u8>::empty()),
        ),
{
    let options = zip::write::SimpleFileOptions::default()
        .compression_method(zip::CompressionMethod::Deflated)
        .last_modified_time(zip::DateTime::default());
    writer.writer.add_directory(name, options)
}

/// `zip::ZipWriter::finish`: whether it succeeds depends on the entries of
/// the writer alone. Where it succeeds, the bytes of the archive that holds
/// those entries.
#[verifier::external_body]
pub(crate) fn zip_finish(writer: ZipBuffer) -> (done: Result<
    Vec<u8>,
    zip::result::ZipError,
>)
    ensures
        done is Ok <==> zip_closes(zip_entries(writer)),
        done matches Ok(bytes) ==> bytes@ == zip_image(zip_entries(writer)),
{
    writer.writer.finish().map(|cursor| cursor.into_inner())
}

/// The file entries that a tar builder was handed, in their order: of each
/// its path, permission bits, modification time, owner, group and data.
/// These are the values as they were handed in, not as a header holds
/// them: a header keeps the low seven octal digits of the permission bits
/// only, and the path without its `.` components.
pub uninterp spec fn tar_entries(builder: TarBuffer) -> Seq<
    (Seq<char>, u32, u64, u64, u64, Seq<u8>),
>;

/// Whether a tar builder takes a file under the given path. It refuses,
/// among others, an empty path, an absolute path and a path with a `..`
/// component.
pub uninterp spec fn tar_takes(path: Seq<char>) -> bool;

/// The bytes of the tar archive that holds the given file entries under GNU
/// headers, closed by the end-of-archive blocks.
pub uninterp spec fn tar_image(entries: Seq<(Seq<char>, u32, u64, u64, u64, Seq<u8>)>) -> Seq<u8>;

/// `tar::Builder::new` on an empty buffer: a builder that holds no entry.
#[verifier::external_body]
pub(crate) fn tar_new() -> (builder: TarBuffer)
    ensures
        tar_entries(builder) == Seq::<(Seq<char>, u32, u64, u64, u64, Seq<u8>)>::empty(),
{
    TarBuffer { builder: tar::Builder::new(Vec::new()) }
}

/// `tar::Builder::append_data` with a GNU header of a regular file that
/// carries the given metadata and the length of the data: whether it
/// succeeds depends on the path alone, as the builder writes into memory.
/// Where it succeeds, the builder holds one more entry.
#[verifier::external_body]
pub(crate) fn tar_append_file(
    builder: &mut TarBuffer,
    path: &str,
    mode: u32,
    mtime: u64,
    uid: u64,
    gid: u64,
    data: &[u8],
) -> (done: Result<(), std::io::Error>)
    ensures
        done is Ok <==> tar_takes(path@),
        done is Ok ==> tar_entries(*final(builder)) == tar_entries(*old(builder)).push(
            (path@, mode, mtime, uid, gid, data@),
        ),
{
    let mut header = tar::Header::new_gnu();
    header.set_entry_type(tar::EntryType::file());
    header.set_size(data.len() as u64);
    header.set_mode(mode);
    header.set_mtime(mtime);
    header.set_uid(uid);
    header.set_gid(gid);
    builder.builder.append_data(&mut header, path, data)
}

/// `tar::Builder::into_inner`: it writes the end-of-archive blocks into
/// memory, which cannot fail, and returns the bytes of the archive that
/// holds the entries of the builder.
#[verifier::external_body]
pub(crate) fn tar_finish(builder: TarBuffer) -> (done: Result<Vec<u8>, std::io::Error>)
    ensures
        done is Ok,
        done matches Ok(bytes) ==> bytes@ == tar_image(tar_entries(builder)),
{
    builder.builder.into_inner()
}

/// The bytes of the gzip frame that holds the given data, deflated at the
/// default level.
pub uninterp spec fn gzip_image(data: Seq<u8>) -> Seq<u8>;

/// Whether the gzip encoder takes the given data and closes the frame.
pub uninterp spec fn gzip_takes(data: Seq<u8>) -> bool;

/// `flate2::write::GzEncoder` at the default level, fed the data in one
/// piece and finished: whether it succeeds depends on the data alone, as
/// the encoder writes into memory. Where it succeeds, the gzip frame of the
/// data.
#[verifier::external_body]
pub(crate) fn gzip(data: &[u8]) -> (done: Result<Vec<u8>, std::io::Error>)
    ensures
        done is Ok <==> gzip_takes(data@),
        done matches Ok(bytes) ==> bytes@ == gzip_image(data@),
{
    let mut encoder = flate2::write::GzEncoder::new(Vec::new(), flate2::Compression::default());
    std::io::Write::write_all(&mut encoder, data)?;
    encoder.finish()
}

} // verus!
