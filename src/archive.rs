use vstd::prelude::*;
use std::io::Write;
use crate::convert::TreeFile;
use crate::error::RepubError;

verus! {

/// zip's error type.
#[verifier::external_type_specification]
#[verifier::external_body]
pub struct ExZipError(zip::result::ZipError);

/// How an entry's data is stored.
#[derive(PartialEq, Eq, Structural, Clone, Copy, Debug)]
pub enum Compression {
    Stored,
    Deflated,
}

/// A zip archive being written in memory.
#[verifier::external_body]
pub struct Archive {
    inner: zip::ZipWriter<std::io::Cursor<Vec<u8>>>,
}

/// The entries written to an archive so far, in order: name, whether it is a
/// directory, whether its data is stored uncompressed, and its data.
pub uninterp spec fn archive_entries(a: Archive) -> Seq<(Seq<char>, bool, bool, Seq<u8>)>;

/// Whether the archive's writer is still open.
pub uninterp spec fn archive_open(a: Archive) -> bool;

/// Whether a file entry is open for data.
pub uninterp spec fn archive_writing(a: Archive) -> bool;

/// The bytes of a finished archive holding `entries`. zip is built without
/// its `time` feature, so every entry carries the same fixed timestamp.
pub uninterp spec fn zip_bytes(entries: Seq<(Seq<char>, bool, bool, Seq<u8>)>) -> Seq<u8>;

/// Largest entry data accepted without zip's large-file mode; deflate may
/// grow data slightly, and sizes must stay within 32 bits.
pub const MAX_ENTRY_LEN: u64 = 0x7FFF_FFFF;

/// The last entry, if any, is small enough to be closed without error.
pub open spec fn last_fits(entries: Seq<(Seq<char>, bool, bool, Seq<u8>)>) -> bool {
    entries.len() == 0 || entries.last().3.len() <= MAX_ENTRY_LEN
}

/// Name zip gives a directory entry: a `/` is appended unless the name
/// already ends with `/` or `\`.
pub open spec fn directory_name(name: Seq<char>) -> Seq<char> {
    if name.len() > 0 && (name.last() == '/' || name.last() == '\\') {
        name
    } else {
        name.push('/')
    }
}

/// Relies on zip's `ZipWriter::new`: a new writer is open, holds no entries
/// and has no file entry open.
#[verifier::external_body]
fn new_archive() -> (r: Archive)
    ensures
        archive_entries(r) == Seq::<(Seq<char>, bool, bool, Seq<u8>)>::empty(),
        archive_open(r),
        !archive_writing(r),
{
    Archive { inner: zip::ZipWriter::new(std::io::Cursor::new(Vec::new())) }
}

/// Relies on zip's `ZipWriter::start_file`: on an open in-memory writer whose
/// last entry fits, it succeeds; a file entry with this name and compression
/// method is then appended and open for data.
#[verifier::external_body]
fn start_file(a: &mut Archive, name: &str, method: Compression) -> (r: Result<(), zip::result::ZipError>)
    ensures
        archive_open(*old(a)) && last_fits(archive_entries(*old(a))) ==> r is Ok,
        r is Ok ==> archive_entries(*final(a)) == archive_entries(*old(a)).push(
            (name@, false, method == Compression::Stored, Seq::empty()),
        ) && archive_open(*final(a)) && archive_writing(*final(a)),
{
    let method = match method {
        Compression::Stored => zip::CompressionMethod::Stored,
        Compression::Deflated => zip::CompressionMethod::Deflated,
    };
    a.inner.start_file(name, zip::write::FileOptions::default().compression_method(method))
}

/// Relies on zip's `ZipWriter::add_directory`: on an open in-memory writer
/// whose last entry fits, it succeeds; a stored directory entry is then
/// appended under `directory_name(name)`, and no file entry is open.
#[verifier::external_body]
fn add_directory(a: &mut Archive, name: &str) -> (r: Result<(), zip::result::ZipError>)
    ensures
        archive_open(*old(a)) && last_fits(archive_entries(*old(a))) ==> r is Ok,
        r is Ok ==> archive_entries(*final(a)) == archive_entries(*old(a)).push(
            (directory_name(name@), true, true, Seq::empty()),
        ) && archive_open(*final(a)) && !archive_writing(*final(a)),
{
    a.inner.add_directory(name, zip::write::FileOptions::default())
}

/// Relies on zip's `Write` impl for `ZipWriter`, through `write_all`: a
/// non-empty write succeeds exactly while a file entry is open and the entry
/// stays within 32 bits, and appends the bytes to that entry's data; an empty
/// one writes nothing.
#[verifier::external_body]
fn write_data(a: &mut Archive, data: &[u8]) -> (r: Result<(), zip::result::ZipError>)
    ensures
        data@.len() == 0 || (archive_open(*old(a)) && archive_writing(*old(a))
            && archive_entries(*old(a)).len() > 0
            && archive_entries(*old(a)).last().3.len() + data@.len() <= MAX_ENTRY_LEN) ==> r is Ok,
        r is Ok ==> archive_open(*final(a)) == archive_open(*old(a)) && archive_writing(*final(a))
            == archive_writing(*old(a)),
        r is Ok && data@.len() == 0 ==> archive_entries(*final(a)) == archive_entries(*old(a)),
        r is Ok && data@.len() > 0 ==> {
            let old_entries = archive_entries(*old(a));
            let e = old_entries.last();
            &&& old_entries.len() > 0
            &&& !e.1
            &&& archive_entries(*final(a)) == old_entries.update(
                old_entries.len() - 1,
                (e.0, e.1, e.2, e.3 + data@),
            )
        },
{
    a.inner.write_all(data).map_err(zip::result::ZipError::Io)
}

/// Relies on zip's `ZipWriter::finish`: on an open in-memory writer whose last
/// entry fits it succeeds, and hands back the archive's bytes.
#[verifier::external_body]
fn finish_archive(a: Archive) -> (r: Result<Vec<u8>, zip::result::ZipError>)
    ensures
        archive_open(a) && last_fits(archive_entries(a)) ==> r is Ok,
        r is Ok ==> r->Ok_0@ == zip_bytes(archive_entries(a)),
{
    let mut a = a;
    a.inner.finish().map(|c| c.into_inner())
}

/// The files laid out for a book before they are packed.
pub struct WorkingTree {
    /// Contents of the `mimetype` file.
    pub mimetype: String,
    /// Files of `META-INF/`.
    pub meta_inf: Vec<TreeFile>,
    /// Files of `OEBPS/`.
    pub oebps: Vec<TreeFile>,
    /// Files of `OEBPS/styles/`.
    pub styles: Vec<TreeFile>,
}

/// Every file of the tree is small enough to be packed.
pub open spec fn tree_fits(t: WorkingTree) -> bool {
    &&& vstd::utf8::encode_utf8(t.mimetype@).len() <= MAX_ENTRY_LEN
    &&& files_fit(t.meta_inf@)
    &&& files_fit(t.oebps@)
    &&& files_fit(t.styles@)
}

pub open spec fn files_fit(files: Seq<TreeFile>) -> bool {
    forall|i: int|
        0 <= i < files.len() ==> vstd::utf8::encode_utf8((#[trigger] files[i]).contents@).len()
            <= MAX_ENTRY_LEN
}

/// The entry of a file in directory `dir`: compressed, holding its UTF-8 text.
pub open spec fn file_entry(dir: Seq<char>, f: TreeFile) -> (Seq<char>, bool, bool, Seq<u8>) {
    (dir + f.name@, false, false, vstd::utf8::encode_utf8(f.contents@))
}

/// The entries of a directory: the directory itself, then each of its files.
pub open spec fn dir_entries(dir: Seq<char>, files: Seq<TreeFile>) -> Seq<
    (Seq<char>, bool, bool, Seq<u8>),
> {
    seq![(dir, true, true, Seq::empty())] + files.map_values(|f: TreeFile| file_entry(dir, f))
}

/// The entry of the `mimetype` file: stored, holding its text.
pub open spec fn mimetype_entry(t: WorkingTree) -> (Seq<char>, bool, bool, Seq<u8>) {
    ("mimetype"@, false, true, vstd::utf8::encode_utf8(t.mimetype@))
}

/// The entries of a packed book, in order: `mimetype`, then `META-INF/`,
/// `OEBPS/` and `OEBPS/styles/`, each directory before its files.
pub open spec fn archive_plan(t: WorkingTree) -> Seq<(Seq<char>, bool, bool, Seq<u8>)> {
    seq![mimetype_entry(t)] + dir_entries("META-INF/"@, t.meta_inf@) + dir_entries(
        "OEBPS/"@,
        t.oebps@,
    ) + dir_entries("OEBPS/styles/"@, t.styles@)
}

fn zip_failure<T>(r: Result<T, zip::result::ZipError>) -> (e: Result<T, RepubError>)
    ensures
        r is Ok <==> e is Ok,
        r is Ok ==> e->Ok_0 == r->Ok_0,
        e is Err ==> e == Err::<T, RepubError>(RepubError::ArchiveFailure),
{
    match r {
        Ok(v) => Ok(v),
        Err(_) => Err(RepubError::ArchiveFailure),
    }
}

/// The archive can take another entry.
pub open spec fn ready(a: Archive) -> bool {
    archive_open(a) && last_fits(archive_entries(a))
}

fn write_file(a: &mut Archive, dir: &str, f: &TreeFile) -> (r: Result<(), RepubError>)
    ensures
        ready(*old(a)) && vstd::utf8::encode_utf8(f.contents@).len() <= MAX_ENTRY_LEN ==> r is Ok,
        r is Ok ==> archive_entries(*final(a)) == archive_entries(*old(a)).push(file_entry(dir@, *f))
            && ready(*final(a)),
        r is Err ==> r == Err::<(), RepubError>(RepubError::ArchiveFailure),
{
    let mut name = String::from_str(dir);
    name.append(f.name.as_str());
    zip_failure(start_file(a, name.as_str(), Compression::Deflated))?;
    let data = f.contents.as_str().as_bytes();
    if data.len() as u64 > MAX_ENTRY_LEN {
        return Err(RepubError::ArchiveFailure);
    }
    zip_failure(write_data(a, data))?;
    assert(archive_entries(*a) =~= archive_entries(*old(a)).push(file_entry(dir@, *f)));
    Ok(())
}

fn write_dir(a: &mut Archive, dir: &str, files: &Vec<TreeFile>) -> (r: Result<(), RepubError>)
    requires
        dir@.len() > 0,
        dir@.last() == '/',
    ensures
        ready(*old(a)) && files_fit(files@) ==> r is Ok,
        r is Ok ==> archive_entries(*final(a)) == archive_entries(*old(a)) + dir_entries(dir@, files@)
            && ready(*final(a)),
        r is Err ==> r == Err::<(), RepubError>(RepubError::ArchiveFailure),
{
    zip_failure(add_directory(a, dir))?;
    let mut i: usize = 0;
    while i < files.len()
        invariant
            i <= files@.len(),
            dir@.len() > 0,
            dir@.last() == '/',
            ready(*a),
            ready(*old(a)) && files_fit(files@) ==> forall|k: int| 0 <= k < files@.len() ==> vstd::utf8::encode_utf8((#[trigger] files@[k]).contents@).len() <= MAX_ENTRY_LEN,
            archive_entries(*a) == archive_entries(*old(a)) + dir_entries(dir@, files@.take(i as int)),
        decreases files@.len() - i,
    {
        write_file(a, dir, &files[i])?;
        assert(files@.take(i as int + 1) =~= files@.take(i as int).push(files@[i as int]));
        assert(dir_entries(dir@, files@.take(i as int + 1)) =~= dir_entries(dir@, files@.take(i as int)).push(
            file_entry(dir@, files@[i as int]),
        ));
        i = i + 1;
    }
    assert(files@.take(i as int) =~= files@);
    Ok(())
}

impl WorkingTree {
    /// Writes the tree's entries into a new archive, in the order `archive_plan`
    /// gives; it succeeds whenever every file fits.
    pub fn fill_archive(&self) -> (r: Result<Archive, RepubError>)
        ensures
            tree_fits(*self) ==> r is Ok,
            r is Ok ==> archive_entries(r->Ok_0) == archive_plan(*self) && ready(r->Ok_0),
            r is Err ==> r == Err::<Archive, RepubError>(RepubError::ArchiveFailure),
    {
        proof {
            reveal_strlit("META-INF/");
            reveal_strlit("OEBPS/");
            reveal_strlit("OEBPS/styles/");
        }
        let mut a = new_archive();
        zip_failure(start_file(&mut a, "mimetype", Compression::Stored))?;
        let data = self.mimetype.as_str().as_bytes();
        if data.len() as u64 > MAX_ENTRY_LEN {
            return Err(RepubError::ArchiveFailure);
        }
        zip_failure(write_data(&mut a, data))?;
        assert(archive_entries(a) =~= seq![mimetype_entry(*self)]);
        write_dir(&mut a, "META-INF/", &self.meta_inf)?;
        write_dir(&mut a, "OEBPS/", &self.oebps)?;
        write_dir(&mut a, "OEBPS/styles/", &self.styles)?;
        assert(archive_entries(a) =~= archive_plan(*self));
        Ok(a)
    }

    /// Packs the tree into the bytes of a zip archive holding the entries of
    /// `archive_plan`; it succeeds whenever every file fits.
    pub fn pack(&self) -> (r: Result<Vec<u8>, RepubError>)
        ensures
            tree_fits(*self) ==> r is Ok,
            r is Ok ==> r->Ok_0@ == zip_bytes(archive_plan(*self)),
            r is Err ==> r == Err::<Vec<u8>, RepubError>(RepubError::ArchiveFailure),
    {
        let a = self.fill_archive()?;
        zip_failure(finish_archive(a))
    }
}

/// The `mimetype` entry comes first and is stored uncompressed, whatever the
/// tree holds.
pub proof fn mimetype_entry_leads(t: WorkingTree)
    ensures
        archive_plan(t).len() >= 4,
        archive_plan(t)[0].0 == "mimetype"@,
        archive_plan(t)[0].2,
        !archive_plan(t)[0].1,
        forall|i: int| 1 <= i < archive_plan(t).len() ==> #[trigger] archive_plan(t)[i].0 != "mimetype"@,
{
    reveal_strlit("mimetype");
    reveal_strlit("META-INF/");
    reveal_strlit("OEBPS/");
    reveal_strlit("OEBPS/styles/");
    let p = archive_plan(t);
    assert forall|i: int| 1 <= i < p.len() implies #[trigger] p[i].0 != "mimetype"@ by {
        let a = dir_entries("META-INF/"@, t.meta_inf@);
        let b = dir_entries("OEBPS/"@, t.oebps@);
        let c = dir_entries("OEBPS/styles/"@, t.styles@);
        assert(p =~= seq![mimetype_entry(t)] + a + b + c);
        let n = p[i].0;
        if i < 1 + a.len() {
            assert(n[0] == 'M');
        } else if i < 1 + a.len() + b.len() {
            assert(n[0] == 'O');
        } else {
            assert(n[0] == 'O');
        }
        assert("mimetype"@[0] == 'm');
    }
}

/// Packing depends on the tree alone: two trees with the same files give the
/// same entries, with the same names, order and methods.
pub proof fn packing_is_repeatable(t1: WorkingTree, t2: WorkingTree)
    requires
        t1.mimetype@ == t2.mimetype@,
        t1.meta_inf@ == t2.meta_inf@,
        t1.oebps@ == t2.oebps@,
        t1.styles@ == t2.styles@,
    ensures
        archive_plan(t1) == archive_plan(t2),
{
}

} // verus!
