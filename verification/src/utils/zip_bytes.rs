use vstd::prelude::*;

verus! {

/// `zip::ZipArchive`, an archive opened for reading.
#[verifier::external_type_specification]
#[verifier::external_body]
#[verifier::reject_recursive_types(R)]
pub struct ExZipArchive<R>(zip::ZipArchive<R>);

/// What reading one entry of an archive gives: its name, or nothing where
/// the entry cannot be opened or named, and its bytes, or nothing where the
/// entry cannot be opened or read to its end.
pub type EntryModel = (Option<Seq<char>>, Option<Seq<u8>>);

/// The entries that `zip::ZipArchive` finds in a run of bytes, in the order
/// of its indices, or nothing where `zip::ZipArchive::new` reports an error.
pub uninterp spec fn zip_entries_of(data: Seq<u8>) -> Option<Seq<EntryModel>>;

/// The entries of an opened archive, in the order of its indices.
pub uninterp spec fn archive_entries(
    archive: zip::ZipArchive<std::io::Cursor<Vec<u8>>>,
) -> Seq<EntryModel>;

/// Calls `zip::ZipArchive::new` on the bytes.
#[verifier::external_body]
pub(crate) fn open_archive(data: Vec<u8>) -> (r: Result<
    zip::ZipArchive<std::io::Cursor<Vec<u8>>>,
    zip::result::ZipError,
>)
    ensures
        match r {
            Ok(archive) => zip_entries_of(data@) == Some(archive_entries(archive)),
            Err(_) => zip_entries_of(data@) is None,
        },
{
    zip::ZipArchive::new(std::io::Cursor::new(data))
}

/// Calls `zip::ZipArchive::len`: the number of entries.
#[verifier::external_body]
pub(crate) fn archive_len(archive: &zip::ZipArchive<std::io::Cursor<Vec<u8>>>) -> (n: usize)
    ensures
        n == archive_entries(*archive).len(),
{
    archive.len()
}

/// Opens an entry with `zip::ZipArchive::by_index` and asks for its name
/// with `name`. Reading an entry leaves the archive's entries as they are.
#[verifier::external_body]
pub(crate) fn entry_name(
    archive: &mut zip::ZipArchive<std::io::Cursor<Vec<u8>>>,
    index: usize,
) -> (r: Result<String, zip::result::ZipError>)
    ensures
        archive_entries(*final(archive)) == archive_entries(*old(archive)),
        index < archive_entries(*old(archive)).len() ==> match r {
            Ok(name) => archive_entries(*old(archive))[index as int].0 == Some(name@),
            Err(_) => archive_entries(*old(archive))[index as int].0 is None,
        },
{
    archive.by_index(index)?.name().map(|name| name.into_owned())
}

/// Opens an entry with `zip::ZipArchive::by_index` and reads it to its end.
/// Reading an entry leaves the archive's entries as they are.
#[verifier::external_body]
pub(crate) fn entry_bytes(
    archive: &mut zip::ZipArchive<std::io::Cursor<Vec<u8>>>,
    index: usize,
) -> (r: Result<Vec<u8>, std::io::Error>)
    ensures
        archive_entries(*final(archive)) == archive_entries(*old(archive)),
        index < archive_entries(*old(archive)).len() ==> match r {
            Ok(bytes) => archive_entries(*old(archive))[index as int].1 == Some(bytes@),
            Err(_) => archive_entries(*old(archive))[index as int].1 is None,
        },
{
    let mut entry = archive.by_index(index).map_err(std::io::Error::other)?;
    let mut bytes = Vec::new();
    std::io::Read::read_to_end(&mut entry, &mut bytes)?;
    Ok(bytes)
}

/// How the bytes of an entry are stored in an archive.
#[derive(Debug, Clone, Copy, PartialEq, Eq, Structural)]
pub enum ArchiveMethod {
    Stored,
    Deflated,
    Ppmd,
}

/// An entry as it was handed to a writer: its name, the runs of bytes in the
/// order in which they were written, and the options it was started with.
pub struct WrittenEntry {
    pub name: Seq<char>,
    pub chunks: Seq<Seq<u8>>,
    pub method: ArchiveMethod,
    pub permissions: u32,
}

/// An archive that is being written into memory with `zip::ZipWriter`.
#[verifier::external_body]
pub struct ArchiveWriter {
    inner: zip::ZipWriter<std::io::Cursor<Vec<u8>>>,
}

/// The entries that a writer has accepted so far, in order, with the runs
/// of bytes that it has accepted for each. It speaks of a writer that has
/// refused nothing; of any other nothing is said.
pub uninterp spec fn writer_entries(writer: ArchiveWriter) -> Seq<WrittenEntry>;

/// Whether a writer has accepted every entry and every run of bytes that
/// was handed to it.
pub uninterp spec fn writer_intact(writer: ArchiveWriter) -> bool;

/// Whether `zip::ZipWriter::start_file` accepts an entry of this name and
/// these options from a writer that holds these entries.
pub uninterp spec fn entry_accepted(
    entries: Seq<WrittenEntry>,
    name: Seq<char>,
    method: ArchiveMethod,
    permissions: u32,
) -> bool;

/// Whether `std::io::Write::write_all` on a `zip::ZipWriter` that holds
/// these entries accepts this run of bytes for the last of them.
pub uninterp spec fn bytes_accepted(entries: Seq<WrittenEntry>, bytes: Seq<u8>) -> bool;

/// The bytes that `zip::ZipWriter::finish` returns for a writer that
/// holds these entries, or nothing where it reports an error. Entries are
/// stamped with the crate's fixed default date, not with the time of
/// writing, so the bytes depend on the entries alone.
pub uninterp spec fn archive_bytes(entries: Seq<WrittenEntry>) -> Option<Seq<u8>>;

/// Calls `zip::ZipWriter::new` on an empty buffer.
#[verifier::external_body]
pub(crate) fn new_writer() -> (w: ArchiveWriter)
    ensures
        writer_entries(w) == Seq::<WrittenEntry>::empty(),
        writer_intact(w),
{
    ArchiveWriter { inner: zip::ZipWriter::new(std::io::Cursor::new(Vec::new())) }
}

/// Calls `zip::ZipWriter::start_file` with the crate's default options but
/// for the compression method and the Unix permissions given. Whether a
/// writer that has accepted everything so far accepts the entry depends on
/// what it holds and on the entry alone. Where it does, it holds one entry
/// more, still without bytes.
#[verifier::external_body]
pub(crate) fn start_entry(
    writer: &mut ArchiveWriter,
    name: &str,
    method: ArchiveMethod,
    permissions: u32,
) -> (r: Result<(), zip::result::ZipError>)
    ensures
        writer_intact(*old(writer)) ==> (r is Ok <==> entry_accepted(
            writer_entries(*old(writer)),
            name@,
            method,
            permissions,
        )),
        writer_intact(*old(writer)) && r is Ok ==> (writer_intact(*final(writer))
            && writer_entries(*final(writer)) == writer_entries(*old(writer)).push(
            (WrittenEntry { name: name@, chunks: Seq::empty(), method, permissions }),
        )),
{
    let method = match method {
        ArchiveMethod::Stored => zip::CompressionMethod::Stored,
        ArchiveMethod::Deflated => zip::CompressionMethod::Deflated,
        ArchiveMethod::Ppmd => zip::CompressionMethod::Ppmd,
    };
    let options: zip::write::FullFileOptions = zip::write::FileOptions::default();
    writer.inner.start_file(name, options.compression_method(method).unix_permissions(permissions))
}

/// Writes a run of bytes to the entry that was started last, with
/// `std::io::Write::write_all` on the `zip::ZipWriter`. Whether a writer
/// that has accepted everything so far accepts the bytes depends on what it
/// holds and on the bytes alone.
#[verifier::external_body]
pub(crate) fn write_entry(writer: &mut ArchiveWriter, bytes: &[u8]) -> (r: Result<
    (),
    std::io::Error,
>)
    ensures
        writer_intact(*old(writer)) ==> (r is Ok <==> bytes_accepted(
            writer_entries(*old(writer)),
            bytes@,
        )),
        writer_intact(*old(writer)) && r is Ok ==> writer_intact(*final(writer)),
        writer_intact(*old(writer)) && r is Ok && writer_entries(*old(writer)).len() > 0 ==> (
        writer_entries(*final(writer)) == writer_entries(*old(writer)).update(
            writer_entries(*old(writer)).len() - 1,
            (WrittenEntry {
                chunks: writer_entries(*old(writer)).last().chunks.push(bytes@),
                ..writer_entries(*old(writer)).last()
            }),
        )),
{
    std::io::Write::write_all(&mut writer.inner, bytes)
}

/// Calls `zip::ZipWriter::finish` and takes the bytes out of the buffer.
#[verifier::external_body]
pub(crate) fn finish_writer(writer: ArchiveWriter) -> (r: Result<Vec<u8>, zip::result::ZipError>)
    ensures
        writer_intact(writer) ==> match r {
            Ok(bytes) => archive_bytes(writer_entries(writer)) == Some(bytes@),
            Err(_) => archive_bytes(writer_entries(writer)) is None,
        },
{
    writer.inner.finish().map(|buffer| buffer.into_inner())
}

} // verus!
