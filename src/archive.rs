use std::io::Write;
use vstd::prelude::*;
use vstd::string::{StrSliceExecFns, StringExecFns};
use crate::error::{internal_error, internal_error_with, ApiError};
use crate::storage::{dir_prefix, dir_prefix_string};

verus! {

#[verifier::external_type_specification]
#[verifier::external_body]
pub struct ExZipError(zip::result::ZipError);

#[verifier::external_type_specification]
#[verifier::external_body]
pub struct ExIoError(std::io::Error);

/// A zip archive being written into memory.
#[verifier::external_body]
pub struct ArchiveWriter {
    inner: zip::ZipWriter<std::io::Cursor<Vec<u8>>>,
}

/// The entries handed to an archive writer so far: each name with the bytes written under it.
pub uninterp spec fn zip_entries(z: ArchiveWriter) -> Seq<(Seq<char>, Seq<u8>)>;

/// Whether the writer has an entry open for writing.
pub uninterp spec fn zip_entry_open(z: ArchiveWriter) -> bool;

/// For each entry handed to an archive writer: whether it is DEFLATE-compressed,
/// and the unix mode recorded for it.
pub uninterp spec fn zip_entry_formats(z: ArchiveWriter) -> Seq<(bool, u32)>;

/// The entries that `zip::ZipArchive` lists from `bytes`, in order: each name
/// with its contents.
pub uninterp spec fn zip_archive_entries(bytes: Seq<u8>) -> Seq<(Seq<char>, Seq<u8>)>;

/// For each entry that `zip::ZipArchive` lists from `bytes`, in order: whether
/// its compression method is DEFLATE, and its unix mode.
pub uninterp spec fn zip_archive_formats(bytes: Seq<u8>) -> Seq<(bool, u32)>;

/// The unix mode recorded for a regular file given permissions `mode`: its
/// permission bits with the regular-file type bit.
pub open spec fn regular_file_mode(mode: u32) -> u32 {
    (mode & 0o777u32) | 0o100000u32
}

/// The longest entry name, in characters, whose UTF-8 form always fits the
/// format's 16-bit name length.
pub const MAX_ENTRY_NAME_CHARS: usize = 16383;

/// The most bytes one entry may hold: below the 4 GiB limit of an entry
/// without the large-file option, with room for DEFLATE's worst-case growth.
pub const MAX_ENTRY_BYTES: u64 = 0xFFF0_0000;

/// Every entry's contents are at most `MAX_ENTRY_BYTES` long.
pub open spec fn entries_small(entries: Seq<(Seq<char>, Seq<u8>)>) -> bool {
    forall|k: int| 0 <= k < entries.len() ==> (#[trigger] entries[k]).1.len() <= MAX_ENTRY_BYTES
}

/// The entries after `data` is written into the last one.
pub open spec fn appended_to_last(entries: Seq<(Seq<char>, Seq<u8>)>, data: Seq<u8>) -> Seq<(Seq<char>, Seq<u8>)> {
    if entries.len() == 0 {
        entries
    } else {
        entries.update(
            entries.len() - 1,
            (entries.last().0, entries.last().1 + data),
        )
    }
}

/// No entry of `entries` is named `name`.
pub open spec fn name_unused(entries: Seq<(Seq<char>, Seq<u8>)>, name: Seq<char>) -> bool {
    forall|k: int| 0 <= k < entries.len() ==> (#[trigger] entries[k]).0 != name
}

/// `added` can follow `existing` in one archive: every name is short enough and
/// new, and every content fits one entry.
pub open spec fn entries_addable(existing: Seq<(Seq<char>, Seq<u8>)>, added: Seq<(Seq<char>, Seq<u8>)>) -> bool {
    &&& forall|i: int| 0 <= i < added.len() ==> (#[trigger] added[i]).0.len() <= MAX_ENTRY_NAME_CHARS
    &&& forall|i: int| 0 <= i < added.len() ==> (#[trigger] added[i]).1.len() <= MAX_ENTRY_BYTES
    &&& forall|i: int| 0 <= i < added.len() ==> name_unused(existing, (#[trigger] added[i]).0)
    &&& forall|i: int, j: int| 0 <= i < j < added.len() ==> (#[trigger] added[i]).0 != (#[trigger] added[j]).0
}

/// Relies on zip::ZipWriter::new over an empty in-memory cursor: no entry yet.
#[verifier::external_body]
fn zip_new() -> (r: ArchiveWriter)
    ensures
        zip_entries(r) == Seq::<(Seq<char>, Seq<u8>)>::empty(),
        zip_entry_formats(r) == Seq::<(bool, u32)>::empty(),
        !zip_entry_open(r),
{
    ArchiveWriter { inner: zip::ZipWriter::new(std::io::Cursor::new(Vec::new())) }
}

/// Relies on zip::ZipWriter::start_file with DEFLATE compression and the given
/// unix mode: on success a new, empty entry named `name` is open for writing.
/// Writing into memory, it fails only on a name already in the archive or when
/// finishing the previous entry passes 4 GiB compressed; a name whose length
/// does not fit 16 bits panics, hence the bound.
#[verifier::external_body]
fn zip_start_deflated(
    z: &mut ArchiveWriter,
    name: &str,
    unix_mode: u32,
) -> (r: Result<(), zip::result::ZipError>)
    requires
        name@.len() <= MAX_ENTRY_NAME_CHARS,
    ensures
        r is Ok ==> zip_entries(*final(z)) == zip_entries(*old(z)).push((name@, Seq::<u8>::empty())),
        r is Ok ==> zip_entry_formats(*final(z)) == zip_entry_formats(*old(z)).push((true, regular_file_mode(unix_mode))),
        r is Ok ==> zip_entry_open(*final(z)),
        name_unused(zip_entries(*old(z)), name@) && entries_small(zip_entries(*old(z))) ==> r is Ok,
{
    let options = zip::write::SimpleFileOptions::default()
        .compression_method(zip::CompressionMethod::Deflated)
        .unix_permissions(unix_mode);
    z.inner.start_file(name, options)
}

/// Relies on `Write::write_all` for zip::ZipWriter: on success all of `data` went
/// into the open entry. Writing bytes fails when no entry is open, or when the
/// entry would pass 4 GiB without the large-file option.
#[verifier::external_body]
fn zip_write_all(z: &mut ArchiveWriter, data: &[u8]) -> (r: Result<
    (),
    std::io::Error,
>)
    ensures
        r is Ok ==> zip_entries(*final(z)) == appended_to_last(zip_entries(*old(z)), data@),
        r is Ok ==> zip_entry_formats(*final(z)) == zip_entry_formats(*old(z)),
        r is Ok ==> zip_entry_open(*final(z)) == zip_entry_open(*old(z)),
        r is Ok && data@.len() > 0 ==> zip_entries(*old(z)).len() > 0,
        zip_entry_open(*old(z)) && zip_entries(*old(z)).len() > 0 && zip_entries(*old(z)).last().1.len()
            + data@.len() <= 0xFFFF_FFFF ==> r is Ok,
{
    z.inner.write_all(data)
}

/// Relies on zip::ZipWriter::finish: writing into memory, it completes the
/// central directory, and `zip::ZipArchive` then lists exactly the entries
/// written, with their methods and modes. It fails only when the last entry
/// passes 4 GiB compressed.
#[verifier::external_body]
fn zip_finish(z: ArchiveWriter) -> (r: Result<Vec<u8>, zip::result::ZipError>)
    ensures
        entries_small(zip_entries(z)) ==> r is Ok,
        r is Ok ==> zip_archive_entries(r->Ok_0@) == zip_entries(z),
        r is Ok ==> zip_archive_formats(r->Ok_0@) == zip_entry_formats(z),
{
    z.inner.finish().map(|c| c.into_inner())
}

/// A regular file found under the storage root, with its contents.
#[derive(Debug)]
pub struct StoredFile {
    pub path: String,
    pub data: Vec<u8>,
}

/// The file mode recorded for every archive entry.
pub const ENTRY_UNIX_MODE: u32 = 0o755;

/// `path` relative to `root`, when `path` lies below `root`.
pub open spec fn relative_name(root: Seq<char>, path: Seq<char>) -> Option<Seq<char>> {
    let p = dir_prefix(root);
    if path.len() > p.len() && path.subrange(0, p.len() as int) == p {
        Some(path.subrange(p.len() as int, path.len() as int))
    } else {
        None
    }
}

/// The archive entries for `files`: each relative name with the file's bytes.
pub open spec fn entries_for(root: Seq<char>, files: Seq<StoredFile>) -> Seq<(Seq<char>, Seq<u8>)> {
    files.map_values(|f: StoredFile| (relative_name(root, f.path@)->0, f.data@))
}

/// Every file lies below the root.
pub open spec fn all_below(root: Seq<char>, files: Seq<StoredFile>) -> bool {
    forall|i: int| 0 <= i < files.len() ==> (#[trigger] relative_name(root, files[i].path@)) is Some
}

/// The name of the entry for a file at `path`: its path relative to `root`.
pub fn entry_name(root: &str, path: &str) -> (r: Result<String, ApiError>)
    ensures
        relative_name(root@, path@) is Some ==> r is Ok && r->Ok_0@ == relative_name(root@, path@)->0,
        relative_name(root@, path@) is None ==> r is Err && r->Err_0.is_internal(
            "Path error: prefix not found"@,
        ),
{
    let prefix = dir_prefix_string(root);
    let p = prefix.as_str();
    let n = p.unicode_len();
    let m = path.unicode_len();
    if m <= n {
        return Err(internal_error("Path error: prefix not found"));
    }
    let mut i: usize = 0;
    while i < n
        invariant
            n == p@.len(),
            p@ == dir_prefix(root@),
            m == path@.len(),
            n < m,
            i <= n,
            path@.subrange(0, i as int) == p@.subrange(0, i as int),
        decreases n - i,
    {
        if path.get_char(i) != p.get_char(i) {
            assert(path@.subrange(0, n as int)[i as int] != p@[i as int]);
            return Err(internal_error("Path error: prefix not found"));
        }
        i = i + 1;
        assert(path@.subrange(0, i as int) =~= p@.subrange(0, i as int));
    }
    assert(p@.subrange(0, n as int) =~= p@);
    let rest = path.substring_char(n, m);
    Ok(String::from_str(rest))
}

/// `n` entries, each DEFLATE-compressed and recorded as a regular file with
/// permissions `rwxr-xr-x`.
pub open spec fn deflated_entry_formats(n: nat) -> Seq<(bool, u32)> {
    Seq::new(n, |i: int| (true, 0o100755u32))
}

proof fn lemma_entry_mode()
    ensures
        regular_file_mode(ENTRY_UNIX_MODE) == 0o100755u32,
{
    assert((0o755u32 & 0o777u32) | 0o100000u32 == 0o100755u32) by (bit_vector);
}

/// Every file's relative name is short enough for an entry name.
pub open spec fn names_fit(root: Seq<char>, files: Seq<StoredFile>) -> bool {
    forall|i: int| 0 <= i < files.len() ==> (#[trigger] relative_name(root, files[i].path@))->0.len() <= MAX_ENTRY_NAME_CHARS
}

/// Writes one entry per file, in order, named by its path relative to `root`.
/// Stops at the first failure.
pub fn add_entries(z: &mut ArchiveWriter, root: &str, files: &Vec<StoredFile>) -> (r: Result<(), ApiError>)
    ensures
        r is Ok ==> all_below(root@, files@),
        r is Ok ==> zip_entries(*final(z)) == zip_entries(*old(z)) + entries_for(root@, files@),
        r is Ok ==> zip_entry_formats(*final(z)) == zip_entry_formats(*old(z)) + deflated_entry_formats(files@.len()),
        r is Err ==> r->Err_0 is InternalError,
        !all_below(root@, files@) ==> r is Err,
        all_below(root@, files@) && !names_fit(root@, files@) ==> r is Err,
        all_below(root@, files@) && entries_small(zip_entries(*old(z))) && entries_addable(
            zip_entries(*old(z)),
            entries_for(root@, files@),
        ) ==> r is Ok,
{
    let ghost added = entries_for(root@, files@);
    proof {
        lemma_entry_mode();
    }
    let mut k: usize = 0;
    while k < files.len()
        invariant
            k <= files@.len(),
            added == entries_for(root@, files@),
            all_below(root@, files@.subrange(0, k as int)),
            names_fit(root@, files@.subrange(0, k as int)),
            zip_entries(*z) == zip_entries(*old(z)) + entries_for(root@, files@.subrange(0, k as int)),
            zip_entry_formats(*z) == zip_entry_formats(*old(z)) + deflated_entry_formats(k as nat),
            regular_file_mode(ENTRY_UNIX_MODE) == 0o100755u32,
            all_below(root@, files@) && entries_small(zip_entries(*old(z))) && entries_addable(
                zip_entries(*old(z)),
                added,
            ) ==> entries_small(zip_entries(*z)),
        decreases files@.len() - k,
    {
        let f = &files[k];
        let name = match entry_name(root, f.path.as_str()) {
            Ok(n) => n,
            Err(e) => {
                assert(relative_name(root@, files@[k as int].path@) is None);
                return Err(e);
            },
        };
        if name.as_str().unicode_len() > MAX_ENTRY_NAME_CHARS {
            proof {
                assert(added[k as int] == (name@, f.data@));
            }
            return Err(internal_error("Path error: entry name too long"));
        }
        let ghost before = zip_entries(*z);
        let ghost before_formats = zip_entry_formats(*z);
        proof {
            if all_below(root@, files@) && entries_addable(zip_entries(*old(z)), added) {
                assert(added[k as int] == (name@, f.data@));
                assert forall|j: int| 0 <= j < before.len() implies (#[trigger] before[j]).0 != name@ by {
                    let o = zip_entries(*old(z));
                    if j < o.len() {
                        assert(before[j] == o[j]);
                        assert(name_unused(o, added[k as int].0));
                    } else {
                        let i = j - o.len();
                        assert(before[j] == added[i]);
                        assert(added[i].0 != added[k as int].0);
                    }
                }
            }
        }
        match zip_start_deflated(z, name.as_str(), ENTRY_UNIX_MODE) {
            Ok(()) => {},
            Err(e) => {
                return Err(internal_error_with("Failed to add file to zip: ", e.to_string().as_str()));
            },
        }
        proof {
            if all_below(root@, files@) && entries_addable(zip_entries(*old(z)), added) {
                assert(added[k as int] == (name@, f.data@));
                assert(zip_entries(*z).last().1.len() == 0);
            }
        }
        match zip_write_all(z, f.data.as_slice()) {
            Ok(()) => {},
            Err(e) => {
                return Err(internal_error_with("Failed to write to zip: ", e.to_string().as_str()));
            },
        }
        proof {
            let sub = files@.subrange(0, k as int);
            let sub1 = files@.subrange(0, k + 1);
            assert(sub1 =~= sub.push(files@[k as int]));
            assert(entries_for(root@, sub1) =~= entries_for(root@, sub).push((name@, f.data@)));
            assert(zip_entries(*z) =~= before.push((name@, f.data@)));
            assert(zip_entry_formats(*z) =~= zip_entry_formats(*old(z)) + deflated_entry_formats((k + 1) as nat));
            if all_below(root@, files@) && entries_small(zip_entries(*old(z))) && entries_addable(zip_entries(*old(z)), added) {
                assert forall|j: int| 0 <= j < zip_entries(*z).len() implies (#[trigger] zip_entries(*z)[j]).1.len() <= MAX_ENTRY_BYTES by {
                    if j < before.len() {
                        assert(zip_entries(*z)[j] == before[j]);
                    } else {
                        assert(added[k as int] == (name@, f.data@));
                    }
                }
            }
            assert forall|i: int| 0 <= i < sub1.len() implies (#[trigger] relative_name(root@, sub1[i].path@)) is Some by {
                if i < k {
                    assert(sub1[i] == sub[i]);
                }
            }
            assert forall|i: int| 0 <= i < sub1.len() implies (#[trigger] relative_name(root@, sub1[i].path@))->0.len() <= MAX_ENTRY_NAME_CHARS by {
                if i < k {
                    assert(sub1[i] == sub[i]);
                }
            }
        }
        k = k + 1;
    }
    assert(files@.subrange(0, files@.len() as int) =~= files@);
    assert(deflated_entry_formats(k as nat) =~= deflated_entry_formats(files@.len()));
    Ok(())
}

impl ArchiveWriter {
    /// An empty in-memory archive.
    pub fn new() -> (r: ArchiveWriter)
        ensures
            zip_entries(r) == Seq::<(Seq<char>, Seq<u8>)>::empty(),
            zip_entry_formats(r) == Seq::<(bool, u32)>::empty(),
    {
        zip_new()
    }

    /// Completes the archive and returns its bytes, which a reader lists as
    /// exactly the entries written.
    pub fn finish(self) -> (r: Result<Vec<u8>, ApiError>)
        ensures
            entries_small(zip_entries(self)) ==> r is Ok,
            r is Err ==> r->Err_0 is InternalError,
            r is Ok ==> zip_archive_entries(r->Ok_0@) == zip_entries(self),
            r is Ok ==> zip_archive_formats(r->Ok_0@) == zip_entry_formats(self),
    {
        match zip_finish(self) {
            Ok(bytes) => Ok(bytes),
            Err(e) => Err(internal_error_with("Failed to finalize zip: ", e.to_string().as_str())),
        }
    }
}

/// The files can form one archive: all lie below the root, and their entries
/// have short, distinct names and contents that fit an entry.
pub open spec fn archivable(root: Seq<char>, files: Seq<StoredFile>) -> bool {
    all_below(root, files) && entries_addable(Seq::empty(), entries_for(root, files))
}

/// Builds one archive holding every file, each under its path relative to `root`.
pub fn build_archive(root: &str, files: &Vec<StoredFile>) -> (r: Result<Vec<u8>, ApiError>)
    ensures
        r is Err ==> r->Err_0 is InternalError,
        !all_below(root@, files@) ==> r is Err,
        archivable(root@, files@) ==> r is Ok,
        r is Ok ==> all_below(root@, files@),
        r is Ok ==> zip_archive_entries(r->Ok_0@) == entries_for(root@, files@),
        r is Ok ==> zip_archive_formats(r->Ok_0@) == deflated_entry_formats(files@.len()),
{
    let mut z = ArchiveWriter::new();
    match add_entries(&mut z, root, files) {
        Ok(()) => {},
        Err(e) => {
            return Err(e);
        },
    }
    assert(zip_entries(z) =~= entries_for(root@, files@));
    assert(zip_entry_formats(z) =~= deflated_entry_formats(files@.len()));
    z.finish()
}

/// Answers a download: not found when the storage root is missing, else the
/// archive of the files found under it.
pub fn download_archive(root_exists: bool, root: &str, files: &Vec<StoredFile>) -> (r: Result<
    Vec<u8>,
    ApiError,
>)
    ensures
        !root_exists ==> r is Err && r->Err_0 is NotFound,
        root_exists && r is Err ==> r->Err_0 is InternalError,
        root_exists && !all_below(root@, files@) ==> r is Err,
        root_exists && archivable(root@, files@) ==> r is Ok,
        r is Ok ==> zip_archive_entries(r->Ok_0@) == entries_for(root@, files@),
        r is Ok ==> zip_archive_formats(r->Ok_0@) == deflated_entry_formats(files@.len()),
{
    if !root_exists {
        return Err(ApiError::NotFound);
    }
    build_archive(root, files)
}

} // verus!
