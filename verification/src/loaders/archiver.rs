use crate::utils::error::{EtlError, Result};
use crate::utils::zip_bytes::{
    archive_bytes, archive_entries, archive_len, bytes_accepted, entry_accepted, entry_bytes,
    entry_name, finish_writer, new_writer, open_archive, start_entry, write_entry,
    writer_entries, writer_intact, zip_entries_of, ArchiveMethod, EntryModel, WrittenEntry,
};
use vstd::prelude::*;

verus! {

/// Packs files into an archive and unpacks them again.
pub struct Archiver;

/// The names and the bytes of a list of files.
pub open spec fn files_model(files: Seq<(String, Vec<u8>)>) -> Seq<(Seq<char>, Seq<u8>)> {
    files.map_values(|f: (String, Vec<u8>)| (f.0@, f.1@))
}

/// A file as it is handed to the writer of an archive: compressed with
/// PPMd, with the Unix permissions 755, and its bytes in one run.
pub open spec fn packed_file(file: (Seq<char>, Seq<u8>)) -> WrittenEntry {
    WrittenEntry {
        name: file.0,
        chunks: seq![file.1],
        method: ArchiveMethod::Ppmd,
        permissions: 493,
    }
}

/// The files as they are handed to the writer of an archive, in order.
pub open spec fn packed_files(files: Seq<(Seq<char>, Seq<u8>)>) -> Seq<WrittenEntry> {
    files.map_values(|f: (Seq<char>, Seq<u8>)| packed_file(f))
}

/// A file as the writer holds it when the file is started and none of its
/// bytes are written.
pub open spec fn started_file(file: (Seq<char>, Seq<u8>)) -> WrittenEntry {
    WrittenEntry {
        name: file.0,
        chunks: Seq::empty(),
        method: ArchiveMethod::Ppmd,
        permissions: 493,
    }
}

/// Why packing files fails.
pub enum PackFailure {
    /// The writer refuses to start an entry, or to finish the archive.
    Archive,
    /// The writer refuses the bytes of an entry.
    Bytes,
}

/// What the writer holds once it has taken the files, one after the other:
/// each file is started and then written in one run. The first step that
/// the writer refuses ends the packing.
pub open spec fn packed_entries(files: Seq<(Seq<char>, Seq<u8>)>) -> core::result::Result<
    Seq<WrittenEntry>,
    PackFailure,
>
    decreases files.len(),
{
    if files.len() == 0 {
        Ok(Seq::empty())
    } else {
        match packed_entries(files.drop_last()) {
            Err(failure) => Err(failure),
            Ok(held) => if !entry_accepted(held, files.last().0, ArchiveMethod::Ppmd, 493) {
                Err(PackFailure::Archive)
            } else if !bytes_accepted(held.push(started_file(files.last())), files.last().1) {
                Err(PackFailure::Bytes)
            } else {
                Ok(held.push(packed_file(files.last())))
            },
        }
    }
}

/// The bytes of the archive of the files, or why there is none.
pub open spec fn packed_archive(files: Seq<(Seq<char>, Seq<u8>)>) -> core::result::Result<
    Seq<u8>,
    PackFailure,
> {
    match packed_entries(files) {
        Err(failure) => Err(failure),
        Ok(held) => match archive_bytes(held) {
            Some(bytes) => Ok(bytes),
            None => Err(PackFailure::Archive),
        },
    }
}

/// Whether what packing returned is what the writer makes of the files:
/// the bytes of the archive, or an error of the archive or of writing.
pub open spec fn packing_is(
    result: Result<Vec<u8>>,
    expected: core::result::Result<Seq<u8>, PackFailure>,
) -> bool {
    match expected {
        Ok(bytes) => result matches Ok(packed) && packed@ == bytes,
        Err(PackFailure::Archive) => result matches Err(EtlError::ZipError(_)),
        Err(PackFailure::Bytes) => result matches Err(EtlError::IoError(_)),
    }
}

/// Where the writer takes every file, it holds the files as they were
/// handed to it.
pub proof fn lemma_packed_entries(files: Seq<(Seq<char>, Seq<u8>)>)
    ensures
        packed_entries(files) matches Ok(held) ==> held == packed_files(files),
    decreases files.len(),
{
    if files.len() > 0 {
        lemma_packed_entries(files.drop_last());
        if packed_entries(files) is Ok {
            assert(packed_files(files) =~= packed_files(files.drop_last()).push(
                packed_file(files.last()),
            ));
        }
    } else {
        assert(packed_files(files) =~= Seq::empty());
    }
}

/// Where packing the first files fails, packing all of them fails in the
/// same way.
pub proof fn lemma_packing_fails(files: Seq<(Seq<char>, Seq<u8>)>, upto: int)
    requires
        0 <= upto <= files.len(),
        packed_entries(files.take(upto)) is Err,
    ensures
        packed_entries(files) == packed_entries(files.take(upto)),
    decreases files.len() - upto,
{
    if upto == files.len() {
        assert(files.take(upto) =~= files);
    } else {
        assert(files.take(upto + 1).drop_last() =~= files.take(upto));
        lemma_packing_fails(files, upto + 1);
    }
}

/// Whether every entry of an archive can be opened, named and read.
pub open spec fn all_readable(entries: Seq<EntryModel>) -> bool {
    forall|i: int| 0 <= i < entries.len() ==> (#[trigger] entries[i]).0 is Some && entries[i].1 is Some
}

/// Whether `i` is the first entry of an archive that cannot be opened,
/// named or read.
pub open spec fn first_unreadable(entries: Seq<EntryModel>, i: int) -> bool {
    &&& 0 <= i < entries.len()
    &&& entries[i].0 is None || entries[i].1 is None
    &&& all_readable(entries.take(i))
}

/// Whether an error is that of the first entry that cannot be opened,
/// named or read: an error of the archive where the entry cannot be opened
/// or named, an error of reading where its bytes cannot be read.
pub open spec fn reports_first_unreadable(entries: Seq<EntryModel>, error: EtlError) -> bool {
    exists|i: int|
        #![trigger entries[i]]
        first_unreadable(entries, i) && (if entries[i].0 is None {
            error is ZipError
        } else {
            error is IoError
        })
}

/// The names and the bytes of the entries of an archive, all of them
/// readable.
pub open spec fn unpacked(entries: Seq<EntryModel>) -> Seq<(Seq<char>, Seq<u8>)> {
    entries.map_values(|e: EntryModel| (e.0->0, e.1->0))
}

impl Archiver {
    /// Packs files into an archive, in order, and returns its bytes: each
    /// file is compressed with PPMd and written in one run. The archive is
    /// what the writer makes of exactly these files; the packing fails where
    /// the writer refuses a step, and only there.
    pub fn create_zip(files: Vec<(String, Vec<u8>)>) -> (r: Result<Vec<u8>>)
        ensures
            packing_is(r, packed_archive(files_model(files@))),
    {
        let ghost all = files_model(files@);
        let mut zip = new_writer();
        let mut i: usize = 0;
        assert(all.take(0) =~= Seq::empty());
        while i < files.len()
            invariant
                i <= files.len(),
                all == files_model(files@),
                writer_intact(zip),
                packed_entries(all.take(i as int)) == core::result::Result::<
                    Seq<WrittenEntry>,
                    PackFailure,
                >::Ok(writer_entries(zip)),
            decreases files.len() - i,
        {
            let ghost held = writer_entries(zip);
            proof {
                assert(all.take(i + 1).drop_last() =~= all.take(i as int));
                assert(all.take(i + 1).last() == (files[i as int].0@, files[i as int].1@));
            }
            match start_entry(&mut zip, files[i].0.as_str(), ArchiveMethod::Ppmd, 493) {
                Ok(()) => {},
                Err(e) => {
                    proof {
                        lemma_packing_fails(all, i + 1);
                    }
                    return Err(EtlError::ZipError(e));
                },
            }
            let ghost started = held.push(started_file(all[i as int]));
            assert(writer_entries(zip) == started);
            match write_entry(&mut zip, files[i].1.as_slice()) {
                Ok(()) => {},
                Err(e) => {
                    proof {
                        lemma_packing_fails(all, i + 1);
                    }
                    return Err(EtlError::IoError(e));
                },
            }
            proof {
                assert(Seq::<Seq<u8>>::empty().push(files[i as int].1@) =~= seq![
                    files[i as int].1@,
                ]);
                assert(started.last() == started_file(all[i as int]));
                assert(writer_entries(zip) =~= held.push(packed_file(all[i as int])));
            }
            i += 1;
        }
        assert(all.take(files.len() as int) =~= all);
        match finish_writer(zip) {
            Ok(bytes) => Ok(bytes),
            Err(e) => Err(EtlError::ZipError(e)),
        }
    }

    /// Unpacks an archive: the name and the bytes of every entry, in the
    /// order of the archive. The first entry that cannot be opened or read
    /// ends the unpacking with its error.
    pub fn extract_zip(data: Vec<u8>) -> (r: Result<Vec<(String, Vec<u8>)>>)
        ensures
            match zip_entries_of(data@) {
                None => r matches Err(EtlError::ZipError(_)),
                Some(entries) => if all_readable(entries) {
                    r matches Ok(files) && files_model(files@) == unpacked(entries)
                } else {
                    r matches Err(e) && reports_first_unreadable(entries, e)
                },
            },
    {
        let mut archive = match open_archive(data) {
            Ok(archive) => archive,
            Err(e) => {
                return Err(EtlError::ZipError(e));
            },
        };
        let ghost entries = archive_entries(archive);
        let count: usize = archive_len(&archive);
        let mut files: Vec<(String, Vec<u8>)> = Vec::new();
        let mut i: usize = 0;
        while i < count
            invariant
                i <= count,
                count == entries.len(),
                zip_entries_of(data@) == Some(entries),
                archive_entries(archive) == entries,
                files.len() == i,
                all_readable(entries.take(i as int)),
                forall|k: int|
                    0 <= k < i ==> (#[trigger] files[k]).0@ == entries[k].0->0 && files[k].1@
                        == entries[k].1->0,
            decreases count - i,
        {
            let name = match entry_name(&mut archive, i) {
                Ok(name) => name,
                Err(e) => {
                    assert(first_unreadable(entries, i as int));
                    return Err(EtlError::ZipError(e));
                },
            };
            let contents = match entry_bytes(&mut archive, i) {
                Ok(contents) => contents,
                Err(e) => {
                    assert(first_unreadable(entries, i as int));
                    return Err(EtlError::IoError(e));
                },
            };
            files.push((name, contents));
            assert forall|k: int| 0 <= k < i + 1 implies (#[trigger] entries.take(i + 1)[k]).0
                is Some && entries.take(i + 1)[k].1 is Some by {
                if k < i {
                    assert(entries.take(i as int)[k] == entries[k]);
                }
            }
            i += 1;
        }
        assert(entries.take(count as int) =~= entries);
        assert(files_model(files@) =~= unpacked(entries));
        Ok(files)
    }
}

} // verus!
