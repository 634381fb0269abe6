//! Finding a program in the initial ramdisk, a tar archive read with
//! tar-no-std.
use vstd::prelude::*;

verus! {

/// One regular file of an archive: its name when that is UTF-8, and its
/// bytes.
pub struct ArchiveFile {
    pub name: Option<String>,
    pub data: Vec<u8>,
}

/// What an archive file stands for: its name and its bytes.
pub open spec fn file_view(f: ArchiveFile) -> (Option<Seq<char>>, Seq<u8>) {
    (
        match f.name {
            Some(n) => Some(n@),
            None => None,
        },
        f.data@,
    )
}

/// The regular files that tar-no-std reads from `archive`, in order, or
/// `None` when it refuses the archive.
pub uninterp spec fn tar_files(archive: Seq<u8>) -> Option<Seq<(Option<Seq<char>>, Seq<u8>)>>;

/// The files of `archive`, from `TarArchiveRef::new` and
/// `TarArchiveRef::entries`, with each file's name from
/// `TarFormatString::as_str`.
#[verifier::external_body]
fn archive_files(archive: &[u8]) -> (r: Option<Vec<ArchiveFile>>)
    ensures
        r is Some <==> tar_files(archive@) is Some,
        r matches Some(v) ==> tar_files(archive@) == Some(
            v@.map_values(|f: ArchiveFile| file_view(f)),
        ),
{
    let tar = tar_no_std::TarArchiveRef::new(archive).ok()?;
    let files = tar.entries().map(
        |e| ArchiveFile { name: e.filename().as_str().ok().map(String::from), data: e.data().to_vec() },
    );
    Some(files.collect())
}

/// Why a file could not be taken from an archive.
#[derive(Debug, Clone, Copy, PartialEq, Eq, Structural)]
pub enum ArchiveError {
    /// The archive is not a valid tar archive.
    BadArchive,
    /// A file before the one sought has a name that is not UTF-8.
    InvalidEntry,
    /// No file has the name sought.
    Missing,
}

/// The first file of `files` named `name`, looked for in order; a file
/// without a UTF-8 name met first stops the search.
pub open spec fn find_in(files: Seq<(Option<Seq<char>>, Seq<u8>)>, name: Seq<char>) -> Result<
    Seq<u8>,
    ArchiveError,
>
    decreases files.len(),
{
    if files.len() == 0 {
        Err(ArchiveError::Missing)
    } else {
        match files[0].0 {
            None => Err(ArchiveError::InvalidEntry),
            Some(n) => if n == name {
                Ok(files[0].1)
            } else {
                find_in(files.drop_first(), name)
            },
        }
    }
}

/// The bytes of the first file of `files` named `name`.
pub fn find_in_files(files: &Vec<ArchiveFile>, name: &str) -> (r: Result<Vec<u8>, ArchiveError>)
    ensures
        match find_in(files@.map_values(|f: ArchiveFile| file_view(f)), name@) {
            Ok(data) => r is Ok && r->Ok_0@ == data,
            Err(e) => r == Err::<Vec<u8>, _>(e),
        },
{
    let ghost all = files@.map_values(|f: ArchiveFile| file_view(f));
    let wanted = name.to_owned();
    let mut i: usize = 0;
    assert(all.skip(0) =~= all);
    while i < files.len()
        invariant
            i <= files@.len(),
            all == files@.map_values(|f: ArchiveFile| file_view(f)),
            wanted@ == name@,
            find_in(all, name@) == find_in(all.skip(i as int), name@),
        decreases files@.len() - i,
    {
        let ghost rest = all.skip(i as int);
        assert(rest[0] == file_view(files@[i as int]));
        assert(rest.drop_first() =~= all.skip(i + 1));
        match &files[i].name {
            None => {
                return Err(ArchiveError::InvalidEntry);
            },
            Some(n) => {
                if n.eq(&wanted) {
                    return Ok(files[i].data.clone());
                }
            },
        }
        i = i + 1;
    }
    assert(all.skip(i as int).len() == 0);
    Err(ArchiveError::Missing)
}

/// The bytes of the file `name` in the tar archive `archive`.
pub fn find_file(archive: &[u8], name: &str) -> (r: Result<Vec<u8>, ArchiveError>)
    ensures
        match tar_files(archive@) {
            None => r == Err::<Vec<u8>, _>(ArchiveError::BadArchive),
            Some(files) => match find_in(files, name@) {
                Ok(data) => r is Ok && r->Ok_0@ == data,
                Err(e) => r == Err::<Vec<u8>, _>(e),
            },
        },
{
    match archive_files(archive) {
        Some(files) => find_in_files(&files, name),
        None => Err(ArchiveError::BadArchive),
    }
}

} // verus!
