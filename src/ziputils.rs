use vstd::prelude::*;
use vstd::string::*;

use crate::audioutils::{
    classify, content_kind, extract_metadata, fields_from_tags, is_audio, is_audio_kind, tag_fields,
    MediaKind,
};
use crate::errors::AppError;
use crate::file_namer::{filename_text, get_filename, path_of};
use crate::text::same_text;

verus! {

/// One item of an archive, read in full.
pub struct ArchiveEntry {
    /// The path stored in the archive for this entry.
    pub name: String,
    /// False for directory markers and links.
    pub is_file: bool,
    pub contents: Vec<u8>,
}

/// An audio entry and the path, relative to the output root, that it goes to.
pub struct PlannedWrite {
    pub destination: std::path::PathBuf,
    pub contents: Vec<u8>,
}

/// Index of the last `c` in `s`, or -1 where there is none.
pub open spec fn last_pos(s: Seq<char>, c: char) -> int
    decreases s.len(),
{
    if s.len() == 0 {
        -1
    } else if s.last() == c {
        s.len() - 1
    } else {
        last_pos(s.drop_last(), c)
    }
}

/// The last `/` separated part of a stored entry name.
pub open spec fn base_name(name: Seq<char>) -> Seq<char> {
    name.subrange(last_pos(name, '/') + 1, name.len() as int)
}

/// The extension of a stored entry name: what follows the last `.` of its last
/// part, where that `.` is not the part's first character and the part is not `..`.
pub open spec fn extension_of(name: Seq<char>) -> Option<Seq<char>> {
    let f = base_name(name);
    let d = last_pos(f, '.');
    if f == ".."@ || d <= 0 {
        None
    } else {
        Some(f.subrange(d + 1, f.len() as int))
    }
}

/// Whether an entry is written out: a file whose content is supported audio.
pub open spec fn wanted(e: (Seq<char>, bool, Seq<u8>)) -> bool {
    e.1 && is_audio_kind(content_kind(e.2))
}

/// Where a wanted entry whose tags could be read goes, relative to the output root.
pub open spec fn destination_of(e: (Seq<char>, bool, Seq<u8>), pattern: Seq<char>) -> Seq<char> {
    filename_text(fields_from_tags(tag_fields(e.2)->Some_0), pattern, extension_of(e.0))
}

/// The destinations that unpacking `entries` writes, in order; `None` where a
/// wanted entry's tags cannot be read, which ends the unpacking.
pub open spec fn planned_paths(entries: Seq<(Seq<char>, bool, Seq<u8>)>, pattern: Seq<char>) -> Option<Seq<Seq<char>>>
    decreases entries.len(),
{
    if entries.len() == 0 {
        Some(Seq::empty())
    } else {
        let e = entries.last();
        match planned_paths(entries.drop_last(), pattern) {
            None => None,
            Some(prev) => if !wanted(e) {
                Some(prev)
            } else if tag_fields(e.2) is None {
                None
            } else {
                Some(prev.push(destination_of(e, pattern)))
            },
        }
    }
}

proof fn lemma_last_pos_bounds(s: Seq<char>, c: char)
    ensures
        -1 <= last_pos(s, c) < s.len(),
        last_pos(s, c) >= 0 ==> s[last_pos(s, c)] == c,
    decreases s.len(),
{
    if s.len() > 0 && s.last() != c {
        lemma_last_pos_bounds(s.drop_last(), c);
    }
}

fn find_last(s: &str, c: char) -> (r: Option<usize>)
    ensures
        match r {
            None => last_pos(s@, c) == -1,
            Some(i) => last_pos(s@, c) == i as int,
        },
{
    let n = s.unicode_len();
    let mut i: usize = n;
    assert(s@.subrange(0, n as int) =~= s@);
    while i > 0
        invariant
            i <= n,
            n == s@.len(),
            last_pos(s@, c) == last_pos(s@.subrange(0, i as int), c),
        decreases i,
    {
        if s.get_char(i - 1) == c {
            return Some(i - 1);
        }
        assert(s@.subrange(0, i as int).drop_last() =~= s@.subrange(0, i - 1));
        i = i - 1;
    }
    None
}

/// The extension of a stored entry name, used only to keep it on the written file.
pub fn entry_extension(name: &str) -> (r: Option<String>)
    ensures
        match r {
            None => extension_of(name@) is None,
            Some(e) => extension_of(name@) == Some(e@),
        },
{
    proof {
        lemma_last_pos_bounds(name@, '/');
    }
    let n = name.unicode_len();
    let start = match find_last(name, '/') {
        Some(i) => i + 1,
        None => 0,
    };
    let f = name.substring_char(start, n);
    if same_text(f, "..") {
        return None;
    }
    proof {
        lemma_last_pos_bounds(f@, '.');
    }
    match find_last(f, '.') {
        Some(d) => {
            if d == 0 {
                None
            } else {
                let m = f.unicode_len();
                Some(f.substring_char(d + 1, m).to_owned())
            }
        },
        None => None,
    }
}

/// Whether the payload is a zip archive, judged from its bytes alone.
pub fn is_zipfile(contents: &Vec<u8>) -> (r: bool)
    ensures
        r == (content_kind(contents@) is Zip),
{
    match classify(contents) {
        MediaKind::Zip => true,
        _ => false,
    }
}

/// What to do with one entry: skip it (`None`), write it, or stop the unpacking.
pub fn process_entry(index: usize, entry: ArchiveEntry, filename_pattern: &String) -> (r: Result<Option<PlannedWrite>, AppError>)
    ensures
        match r {
            Ok(None) => !wanted(entry_model(entry)),
            Ok(Some(w)) => wanted(entry_model(entry)) && tag_fields(entry.contents@) is Some
                && w.destination == path_of(destination_of(entry_model(entry), filename_pattern@))
                && w.contents@ == entry.contents@,
            Err(e) => wanted(entry_model(entry)) && tag_fields(entry.contents@) is None && match e {
                AppError::MetadataExtractionFailed { index: i, name: n, .. } => i == index && n == entry.name,
                _ => false,
            },
        },
{
    if !entry.is_file {
        return Ok(None);
    }
    if !is_audio(classify(&entry.contents)) {
        return Ok(None);
    }
    let metadata = match extract_metadata(&entry.contents) {
        Ok(md) => md,
        Err(e) => {
            let cause = match e {
                AppError::CannotReadAudioMetadata { cause } => cause,
                _ => String::new(),
            };
            return Err(AppError::MetadataExtractionFailed { index, name: entry.name, cause });
        },
    };
    let extension = entry_extension(entry.name.as_str());
    let destination = match &extension {
        Some(e) => get_filename(&metadata, filename_pattern, Some(e.as_str())),
        None => get_filename(&metadata, filename_pattern, None),
    };
    Ok(Some(PlannedWrite { destination, contents: entry.contents }))
}

#[verifier::external_type_specification]
#[verifier::external_body]
#[verifier::reject_recursive_types(R)]
pub struct ExZipArchive<R>(zip::read::ZipArchive<R>);

#[verifier::external_type_specification]
#[verifier::external_body]
#[verifier::reject_recursive_types(T)]
pub struct ExCursor<T>(std::io::Cursor<T>);

#[verifier::external_type_specification]
#[verifier::external_body]
pub struct ExZipError(zip::result::ZipError);

/// What the zip archive in `b` holds, entry by entry in the archive's order:
/// name, whether it is a file, and decompressed content; `None` for an entry
/// that cannot be read, and `None` in all where the archive cannot be opened.
pub uninterp spec fn zip_entries(b: Seq<u8>) -> Option<Seq<Option<(Seq<char>, bool, Seq<u8>)>>>;

/// What an opened zip archive holds, in the same form as `zip_entries`.
pub uninterp spec fn archive_entries(a: zip::read::ZipArchive<std::io::Cursor<Vec<u8>>>) -> Seq<Option<(Seq<char>, bool, Seq<u8>)>>;

/// The form in which an archive's contents list an entry.
pub open spec fn entry_model(e: ArchiveEntry) -> (Seq<char>, bool, Seq<u8>) {
    (e.name@, e.is_file, e.contents@)
}

/// Relies on zip::ZipArchive::new, which reads the archive's central directory.
#[verifier::external_body]
fn open_archive(bytes: Vec<u8>) -> (r: Result<
    zip::read::ZipArchive<std::io::Cursor<Vec<u8>>>,
    zip::result::ZipError,
>)
    ensures
        match r {
            Ok(a) => zip_entries(bytes@) == Some(archive_entries(a)),
            Err(_) => zip_entries(bytes@) is None,
        },
{
    zip::read::ZipArchive::new(std::io::Cursor::new(bytes))
}

/// Relies on zip::ZipArchive::len: the number of entries of the archive.
#[verifier::external_body]
fn archive_len(archive: &zip::read::ZipArchive<std::io::Cursor<Vec<u8>>>) -> (r: usize)
    ensures
        r == archive_entries(*archive).len(),
{
    archive.len()
}

/// Relies on zip::ZipArchive::by_index and, on the entry it gives, ZipFile::name,
/// ZipFile::is_file and std::io::Read::read_to_end, which decompresses it.
#[verifier::external_body]
fn read_entry(archive: &mut zip::read::ZipArchive<std::io::Cursor<Vec<u8>>>, index: usize) -> (r: Result<ArchiveEntry, zip::result::ZipError>)
    ensures
        archive_entries(*final(archive)) == archive_entries(*old(archive)),
        index < archive_entries(*old(archive)).len() ==> match r {
            Ok(e) => archive_entries(*old(archive))[index as int] == Some(entry_model(e)),
            Err(_) => archive_entries(*old(archive))[index as int] is None,
        },
{
    let mut file = archive.by_index(index)?;
    let mut contents = Vec::new();
    std::io::Read::read_to_end(&mut file, &mut contents)?;
    let name = file.name()?.into_owned();
    Ok(ArchiveEntry { name, is_file: file.is_file(), contents })
}

/// Relies on the Display form of zip's ZipError, for diagnostics.
#[verifier::external_body]
fn zip_error_text(e: &zip::result::ZipError) -> String {
    format!("{}", e)
}

/// One unpacking of an archive: it hands out, entry by entry, the audio files
/// to write, and stops at the first failure.
pub struct Unpacker {
    archive: zip::read::ZipArchive<std::io::Cursor<Vec<u8>>>,
    filename_pattern: String,
    next: usize,
    count: usize,
    seen: Ghost<Seq<(Seq<char>, bool, Seq<u8>)>>,
}

impl Unpacker {
    /// The entries read so far, in order.
    pub closed spec fn seen(&self) -> Seq<(Seq<char>, bool, Seq<u8>)> {
        self.seen@
    }

    /// What the archive being unpacked holds.
    pub closed spec fn entries(&self) -> Seq<Option<(Seq<char>, bool, Seq<u8>)>> {
        archive_entries(self.archive)
    }

    pub closed spec fn pattern(&self) -> Seq<char> {
        self.filename_pattern@
    }

    /// Whether every entry of the archive has been read.
    pub closed spec fn done(&self) -> bool {
        self.next == self.count
    }

    pub closed spec fn wf(&self) -> bool {
        &&& self.next <= self.count
        &&& self.seen@.len() == self.next
        &&& self.count == archive_entries(self.archive).len()
        &&& forall|i: int| 0 <= i < self.next ==> archive_entries(self.archive)[i] == Some(#[trigger] self.seen@[i])
        &&& planned_paths(self.seen@, self.filename_pattern@) is Some
    }

    /// Opens an uploaded payload. A payload whose bytes are not a zip archive
    /// is refused with `InvalidContainer` before anything else is done.
    pub fn open(bytes: Vec<u8>, filename_pattern: String) -> (r: Result<Unpacker, AppError>)
        ensures
            match r {
                Ok(u) => content_kind(bytes@) is Zip && u.wf() && u.seen().len() == 0
                    && u.pattern() == filename_pattern@ && zip_entries(bytes@) == Some(u.entries()),
                Err(e) => if content_kind(bytes@) is Zip {
                    e is UnreadableEntry && zip_entries(bytes@) is None
                } else {
                    e is InvalidContainer
                },
            },
    {
        if !is_zipfile(&bytes) {
            return Err(AppError::InvalidContainer);
        }
        match open_archive(bytes) {
            Ok(archive) => {
                let count = archive_len(&archive);
                Ok(Unpacker { archive, filename_pattern, next: 0, count, seen: Ghost(Seq::empty()) })
            },
            Err(e) => Err(AppError::UnreadableEntry { index: 0, cause: zip_error_text(&e) }),
        }
    }

    /// Reads entries until one is to be written, and hands it out; `None` once
    /// every entry has been read. Entries that are not files, or not audio, are
    /// skipped. The destinations handed out are, in order, `planned_paths` of
    /// the entries read.
    pub fn next_write(&mut self) -> (r: Result<Option<PlannedWrite>, AppError>)
        requires
            old(self).wf(),
        ensures
            final(self).pattern() == old(self).pattern(),
            final(self).entries() == old(self).entries(),
            old(self).seen().len() <= final(self).seen().len(),
            final(self).seen().len() <= old(self).entries().len(),
            forall|i: int| 0 <= i < final(self).seen().len() ==> old(self).entries()[i] == Some(#[trigger] final(self).seen()[i]),
            final(self).seen().subrange(0, old(self).seen().len() as int) == old(self).seen(),
            match r {
                Ok(None) => final(self).wf() && final(self).done()
                    && final(self).seen().len() == old(self).entries().len()
                    && planned_paths(final(self).seen(), final(self).pattern())
                    == planned_paths(old(self).seen(), old(self).pattern()),
                Ok(Some(w)) => final(self).wf() && final(self).seen().len() > 0
                    && planned_paths(final(self).seen(), final(self).pattern())
                    == Some(planned_paths(old(self).seen(), old(self).pattern())->Some_0.push(
                        destination_of(final(self).seen().last(), final(self).pattern()),
                    ))
                    && w.destination == path_of(destination_of(final(self).seen().last(), final(self).pattern()))
                    && w.contents@ == final(self).seen().last().2,
                Err(e) => match e {
                    AppError::UnreadableEntry { index, .. } => index == final(self).seen().len()
                        && index < old(self).entries().len()
                        && old(self).entries()[index as int] is None,
                    AppError::MetadataExtractionFailed { index, name, .. } => final(self).seen().len() > 0
                        && index == final(self).seen().len() - 1
                        && name@ == final(self).seen().last().0
                        && planned_paths(final(self).seen(), final(self).pattern()) is None,
                    _ => false,
                },
            },
    {
        while self.next < self.count
            invariant
                self.wf(),
                self.filename_pattern@ == old(self).pattern(),
                archive_entries(self.archive) == old(self).entries(),
                old(self).seen().len() <= self.seen@.len(),
                self.seen@.subrange(0, old(self).seen().len() as int) == old(self).seen(),
                planned_paths(self.seen@, self.filename_pattern@)
                    == planned_paths(old(self).seen(), old(self).pattern()),
            decreases self.count - self.next,
        {
            let i = self.next;
            let entry = match read_entry(&mut self.archive, i) {
                Ok(e) => e,
                Err(e) => return Err(AppError::UnreadableEntry { index: i, cause: zip_error_text(&e) }),
            };
            let ghost prev = self.seen@;
            let ghost e = entry_model(entry);
            self.next = i + 1;
            self.seen = Ghost(prev.push(e));
            assert(forall|k: int| 0 <= k < prev.len() ==> self.seen@[k] == prev[k]);
            assert(self.seen@.drop_last() =~= prev);
            assert(self.seen@.subrange(0, old(self).seen().len() as int) =~= prev.subrange(
                0,
                old(self).seen().len() as int,
            ));
            match process_entry(i, entry, &self.filename_pattern) {
                Ok(None) => {},
                Ok(Some(w)) => {
                    return Ok(Some(w));
                },
                Err(err) => {
                    return Err(err);
                },
            }
        }
        Ok(None)
    }
}

/// An archive none of whose entries is audio is unpacked without error and
/// writes nothing.
pub proof fn lemma_no_audio_writes_nothing(entries: Seq<(Seq<char>, bool, Seq<u8>)>, pattern: Seq<char>)
    requires
        forall|i: int| 0 <= i < entries.len() ==> !is_audio_kind(#[trigger] content_kind(entries[i].2)),
    ensures
        planned_paths(entries, pattern) == Some(Seq::<Seq<char>>::empty()),
    decreases entries.len(),
{
    if entries.len() > 0 {
        assert forall|i: int| 0 <= i < entries.drop_last().len() implies !is_audio_kind(
            #[trigger] content_kind(entries.drop_last()[i].2),
        ) by {
            assert(entries.drop_last()[i] == entries[i]);
        }
        lemma_no_audio_writes_nothing(entries.drop_last(), pattern);
        assert(!is_audio_kind(content_kind(entries[entries.len() - 1].2)));
    }
}

/// A directory marker is skipped without error and writes nothing: unpacking
/// with it gives what unpacking without it gives.
pub proof fn lemma_directory_marker_writes_nothing(entries: Seq<(Seq<char>, bool, Seq<u8>)>, i: int, pattern: Seq<char>)
    requires
        0 <= i < entries.len(),
        !entries[i].1,
    ensures
        planned_paths(entries, pattern) == planned_paths(entries.remove(i), pattern),
    decreases entries.len(),
{
    if i == entries.len() - 1 {
        assert(entries.remove(i) =~= entries.drop_last());
    } else {
        lemma_directory_marker_writes_nothing(entries.drop_last(), i, pattern);
        assert(entries.remove(i).drop_last() =~= entries.drop_last().remove(i));
        assert(entries.remove(i).last() == entries.last());
    }
}

/// Unpacking stops at the first audio entry whose tags cannot be read: it
/// fails whatever entries follow that one.
pub proof fn lemma_unreadable_tags_stop_unpacking(entries: Seq<(Seq<char>, bool, Seq<u8>)>, rest: Seq<(Seq<char>, bool, Seq<u8>)>, pattern: Seq<char>)
    requires
        entries.len() > 0,
        wanted(entries.last()),
        tag_fields(entries.last().2) is None,
    ensures
        planned_paths(entries + rest, pattern) is None,
    decreases rest.len(),
{
    if rest.len() == 0 {
        assert(entries + rest =~= entries);
    } else {
        lemma_unreadable_tags_stop_unpacking(entries, rest.drop_last(), pattern);
        assert((entries + rest).drop_last() =~= entries + rest.drop_last());
    }
}

/// A zip payload whose entries all read and none of which is audio unpacks
/// without error and writes nothing: whatever prefix of its entries an
/// `Unpacker` has read, the writes planned for it are none.
pub proof fn lemma_no_audio_payload_writes_nothing(b: Seq<u8>, seen: Seq<(Seq<char>, bool, Seq<u8>)>, pattern: Seq<char>)
    requires
        zip_entries(b) is Some,
        forall|i: int| 0 <= i < zip_entries(b)->Some_0.len() ==> (#[trigger] zip_entries(b)->Some_0[i]) is Some
            && !is_audio_kind(content_kind(zip_entries(b)->Some_0[i]->Some_0.2)),
        seen.len() <= zip_entries(b)->Some_0.len(),
        forall|i: int| 0 <= i < seen.len() ==> zip_entries(b)->Some_0[i] == Some(#[trigger] seen[i]),
    ensures
        planned_paths(seen, pattern) == Some(Seq::<Seq<char>>::empty()),
{
    let es = zip_entries(b)->Some_0;
    assert forall|i: int| 0 <= i < seen.len() implies !is_audio_kind(#[trigger] content_kind(seen[i].2)) by {
        assert(es[i] == Some(seen[i]));
    }
    lemma_no_audio_writes_nothing(seen, pattern);
}

} // verus!
