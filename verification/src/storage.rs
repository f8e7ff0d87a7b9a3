//! Path-based storage handles: what a handle names, how its entry name is read
//! from the path, and which handle an existing entry resolves to.
//!
//! The handles never touch the file system themselves. Callers resolve the
//! path (making it absolute) and look up what kind of entry it names; these
//! functions take those answers as plain values.
use vstd::prelude::*;
use crate::error::StorageError;
use crate::info::{last_dot, lemma_last_dot_at};
use crate::text::{chars_equal, chars_of, lower_chars, spec_lower};

verus! {

/// Controls whether directory enumeration is limited to the current folder or
/// includes nested directories recursively.
#[derive(Debug, Clone, Copy, PartialEq, Eq, Structural)]
pub enum SearchScope {
    /// Restrict enumeration to the current directory only.
    TopDirectoryOnly,
    /// Recursively enumerate the full directory tree.
    AllDirectories,
}

/// What a path named when it was looked up.
#[derive(Debug, Clone, Copy, PartialEq, Eq, Structural)]
pub enum PathKind {
    /// Nothing exists at the path.
    Missing,
    /// A regular file.
    File,
    /// A directory.
    Directory,
    /// Something that is neither a regular file nor a directory.
    Other,
}

/// Whether `c` separates path components (both separators are accepted).
pub open spec fn is_separator(c: char) -> bool {
    c == '/' || c == '\\'
}

/// Index of the last separator in `p`, or -1 when there is none.
pub open spec fn last_separator(p: Seq<char>) -> int
    decreases p.len(),
{
    if p.len() == 0 {
        -1
    } else if is_separator(p.last()) {
        p.len() - 1
    } else {
        last_separator(p.drop_last())
    }
}

/// The final name component of a path, as `Path::file_name` reads it:
/// trailing separators and `.` components are skipped, and a path that ends in
/// `..`, or has no named component, has no file name. Both `/` and `\` separate
/// components on every host, as on Windows (on Unix `Path::file_name` splits at `/` only).
pub open spec fn file_name_of(p: Seq<char>) -> Option<Seq<char>>
    decreases p.len(),
{
    if p.len() == 0 {
        None
    } else if is_separator(p.last()) {
        file_name_of(p.drop_last())
    } else {
        let start = last_separator(p) + 1;
        let seg = p.subrange(start, p.len() as int);
        if seg == seq!['.'] {
            if 0 <= start < p.len() {
                file_name_of(p.subrange(0, start))
            } else {
                None
            }
        } else if seg == seq!['.', '.'] {
            None
        } else {
            Some(seg)
        }
    }
}

proof fn lemma_last_separator_bounds(p: Seq<char>)
    ensures
        -1 <= last_separator(p) < p.len(),
        last_separator(p) >= 0 ==> is_separator(p[last_separator(p)]),
        forall|k: int| last_separator(p) < k < p.len() ==> !is_separator(#[trigger] p[k]),
    decreases p.len(),
{
    if p.len() > 0 && !is_separator(p.last()) {
        lemma_last_separator_bounds(p.drop_last());
        assert forall|k: int| last_separator(p) < k < p.len() implies !is_separator(
            #[trigger] p[k],
        ) by {
            if k < p.len() - 1 {
                assert(p[k] == p.drop_last()[k]);
            }
        }
    }
}

proof fn lemma_last_separator_at(p: Seq<char>, j: int)
    requires
        0 <= j <= p.len(),
        j == 0 || is_separator(p[j - 1]),
        forall|k: int| j <= k < p.len() ==> !is_separator(#[trigger] p[k]),
    ensures
        last_separator(p) == j - 1,
    decreases p.len(),
{
    if p.len() > j {
        let q = p.drop_last();
        assert forall|k: int| j <= k < q.len() implies !is_separator(#[trigger] q[k]) by {
            assert(q[k] == p[k]);
        }
        if j > 0 {
            assert(q[j - 1] == p[j - 1]);
        }
        lemma_last_separator_at(q, j);
    }
}

/// The file name of `chars[0..end]`, read as `file_name_of` says.
fn file_name_upto(chars: &[char], end: usize) -> (r: Option<Vec<char>>)
    requires
        end <= chars@.len(),
    ensures
        match r {
            Some(v) => file_name_of(chars@.subrange(0, end as int)) == Some(v@),
            None => file_name_of(chars@.subrange(0, end as int)) is None,
        },
    decreases end,
{
    let ghost p = chars@.subrange(0, end as int);
    if end == 0 {
        return None;
    }
    let last = chars[end - 1];
    if last == '/' || last == '\\' {
        assert(p.drop_last() == chars@.subrange(0, end - 1));
        return file_name_upto(chars, end - 1);
    }
    let mut j: usize = end;
    while j > 0 && chars[j - 1] != '/' && chars[j - 1] != '\\'
        invariant
            j <= end <= chars@.len(),
            forall|k: int| j <= k < end ==> !is_separator(#[trigger] chars@[k]),
        decreases j,
    {
        j = j - 1;
    }
    proof {
        assert forall|k: int| j <= k < p.len() implies !is_separator(#[trigger] p[k]) by {
            assert(p[k] == chars@[k]);
        }
        if j > 0 {
            assert(p[j - 1] == chars@[j - 1]);
        }
        lemma_last_separator_at(p, j as int);
    }
    let ghost seg = p.subrange(j as int, end as int);
    assert(seg == chars@.subrange(j as int, end as int));
    let n = end - j;
    if n == 1 && chars[j] == '.' {
        assert(seg == seq!['.']) by {
            assert(seg[0] == chars@[j as int]);
        }
        assert(p.subrange(0, j as int) == chars@.subrange(0, j as int));
        if j == 0 {
            return None;
        }
        return file_name_upto(chars, j);
    }
    if n == 2 && chars[j] == '.' && chars[j + 1] == '.' {
        assert(seg == seq!['.', '.']) by {
            assert(seg[0] == chars@[j as int]);
            assert(seg[1] == chars@[j + 1]);
        }
        return None;
    }
    assert(seg != seq!['.']) by {
        if n == 1 {
            assert(seg[0] == chars@[j as int]);
        }
    }
    assert(seg != seq!['.', '.']) by {
        if n == 2 {
            assert(seg[0] == chars@[j as int]);
            assert(seg[1] == chars@[j + 1]);
        }
    }
    let mut out: Vec<char> = Vec::new();
    let mut i: usize = j;
    while i < end
        invariant
            j <= i <= end <= chars@.len(),
            out@ == chars@.subrange(j as int, i as int),
        decreases end - i,
    {
        out.push(chars[i]);
        i = i + 1;
        assert(out@ == chars@.subrange(j as int, i as int));
    }
    Some(out)
}

/// The file name of `path`, as `file_name_of` says.
pub fn file_name(path: &str) -> (r: Option<String>)
    ensures
        match r {
            Some(s) => file_name_of(path@) == Some(s@),
            None => file_name_of(path@) is None,
        },
{
    let chars = chars_of_path(path);
    let n = chars.len();
    assert(chars@.subrange(0, n as int) == path@);
    match file_name_upto(chars.as_slice(), n) {
        Some(v) => Some(crate::text::string_from_chars(v.as_slice())),
        None => None,
    }
}

fn chars_of_path(path: &str) -> (r: Vec<char>)
    ensures
        r@ == path@,
{
    crate::text::chars_of(path)
}

/// The extension of a file name, as `Path::extension` reads it: what follows its last
/// `.`; none when the name has no `.`, when its only `.` opens it, or when it is `..`.
pub open spec fn extension_of(name: Seq<char>) -> Option<Seq<char>> {
    if name == seq!['.', '.'] || last_dot(name) <= 0 {
        None
    } else {
        Some(name.skip(last_dot(name) + 1))
    }
}

/// Whether the file name of `path` has extension `ext`, letters compared without regard
/// to ASCII case.
pub open spec fn path_has_extension(path: Seq<char>, ext: Seq<char>) -> bool {
    file_name_of(path) matches Some(name) && (extension_of(name) matches Some(e) && spec_lower(e)
        == spec_lower(ext))
}

/// The extension of the file name `name`, as `extension_of` says.
pub fn extension(name: &[char]) -> (r: Option<Vec<char>>)
    ensures
        match r {
            Some(e) => extension_of(name@) == Some(e@),
            None => extension_of(name@) is None,
        },
{
    let n = name.len();
    let mut j: usize = n;
    while j > 0 && name[j - 1] != '.'
        invariant
            j <= n == name@.len(),
            forall|k: int| j <= k < n ==> name@[k] != '.',
        decreases j,
    {
        j = j - 1;
    }
    proof {
        lemma_last_dot_at(name@, j - 1);
    }
    if j <= 1 {
        return None;
    }
    if n == 2 && name[0] == '.' && name[1] == '.' {
        assert(name@ =~= seq!['.', '.']);
        return None;
    }
    assert(name@ != seq!['.', '.']) by {
        if n == 2 {
            assert(name@[0] == name[0] && name@[1] == name[1]);
        }
    }
    let mut out: Vec<char> = Vec::new();
    let mut i: usize = j;
    while i < n
        invariant
            j <= i <= n == name@.len(),
            out@ == name@.subrange(j as int, i as int),
        decreases n - i,
    {
        out.push(name[i]);
        i = i + 1;
        assert(out@ =~= name@.subrange(j as int, i as int));
    }
    assert(out@ =~= name@.skip(j as int));
    Some(out)
}

/// Whether the file name of `path` has extension `ext`, ignoring ASCII case, as
/// `path_has_extension` says.
pub fn has_extension(path: &str, ext: &str) -> (r: bool)
    ensures
        r == path_has_extension(path@, ext@),
{
    match file_name(path) {
        None => false,
        Some(name) => {
            let cs = chars_of_path(name.as_str());
            match extension(cs.as_slice()) {
                None => false,
                Some(e) => {
                    let a = lower_chars(e.as_slice());
                    let wanted = chars_of_path(ext);
                    let b = lower_chars(wanted.as_slice());
                    chars_equal(a.as_slice(), b.as_slice())
                },
            }
        },
    }
}


/// Handle for file operations, named by an absolute path.
#[derive(Debug, Clone, PartialEq, Eq)]
pub struct FileStorage {
    path: String,
}

/// Handle for directory operations, named by an absolute path.
#[derive(Debug, Clone, PartialEq, Eq)]
pub struct DirectoryStorage {
    path: String,
}

impl FileStorage {
    /// The path the handle names.
    pub closed spec fn spec_path(&self) -> Seq<char> {
        self.path@
    }

    /// A handle for an already resolved path, without touching the file system.
    pub fn new(path: String) -> (r: Self)
        ensures
            r.spec_path() == path@,
    {
        FileStorage { path }
    }

    /// A handle for an existing file: the path must name a regular file.
    pub fn from_existing(path: String, kind: PathKind) -> (r: Result<Self, StorageError>)
        ensures
            kind == PathKind::File <==> r is Ok,
            r matches Ok(f) ==> f.spec_path() == path@,
            kind == PathKind::Missing ==> (r matches Err(StorageError::NotFound { path: p }) && p == path),
            (kind == PathKind::Directory || kind == PathKind::Other) ==> (r matches Err(
                StorageError::NotAFile { path: p },
            ) && p == path),
    {
        match kind {
            PathKind::File => Ok(FileStorage { path }),
            PathKind::Missing => Err(StorageError::NotFound { path }),
            _ => Err(StorageError::NotAFile { path }),
        }
    }

    /// The path the handle names.
    pub fn path(&self) -> (r: &str)
        ensures
            r@ == self.spec_path(),
    {
        self.path.as_str()
    }

    /// The file name, extension included.
    pub fn name(&self) -> (r: Option<String>)
        ensures
            match r {
                Some(s) => file_name_of(self.spec_path()) == Some(s@),
                None => file_name_of(self.spec_path()) is None,
            },
    {
        file_name(self.path.as_str())
    }
}

impl DirectoryStorage {
    /// The path the handle names.
    pub closed spec fn spec_path(&self) -> Seq<char> {
        self.path@
    }

    /// A handle for an already resolved path, without touching the file system.
    pub fn new(path: String) -> (r: Self)
        ensures
            r.spec_path() == path@,
    {
        DirectoryStorage { path }
    }

    /// A handle for an existing directory: the path must name a directory.
    pub fn from_existing(path: String, kind: PathKind) -> (r: Result<Self, StorageError>)
        ensures
            kind == PathKind::Directory <==> r is Ok,
            r matches Ok(d) ==> d.spec_path() == path@,
            kind == PathKind::Missing ==> (r matches Err(StorageError::NotFound { path: p }) && p == path),
            (kind == PathKind::File || kind == PathKind::Other) ==> (r matches Err(
                StorageError::NotADirectory { path: p },
            ) && p == path),
    {
        match kind {
            PathKind::Directory => Ok(DirectoryStorage { path }),
            PathKind::Missing => Err(StorageError::NotFound { path }),
            _ => Err(StorageError::NotADirectory { path }),
        }
    }

    /// The path the handle names.
    pub fn path(&self) -> (r: &str)
        ensures
            r@ == self.spec_path(),
    {
        self.path.as_str()
    }

    /// The directory name.
    pub fn name(&self) -> (r: Option<String>)
        ensures
            match r {
                Some(s) => file_name_of(self.spec_path()) == Some(s@),
                None => file_name_of(self.spec_path()) is None,
            },
    {
        file_name(self.path.as_str())
    }
}

/// A typed handle for an existing file-system entry.
#[derive(Debug, Clone, PartialEq, Eq)]
pub enum StorageEntry {
    /// A regular file.
    File(FileStorage),
    /// A directory.
    Directory(DirectoryStorage),
}

impl StorageEntry {
    /// The path the handle names.
    pub open spec fn spec_path(&self) -> Seq<char> {
        match self {
            StorageEntry::File(f) => f.spec_path(),
            StorageEntry::Directory(d) => d.spec_path(),
        }
    }

    /// Resolve an existing path into a file or directory handle; anything else is
    /// refused.
    pub fn from_existing(path: String, kind: PathKind) -> (r: Result<Self, StorageError>)
        ensures
            r is Ok <==> (kind == PathKind::File || kind == PathKind::Directory),
            r matches Ok(e) ==> e.spec_path() == path@ && (e is File <==> kind == PathKind::File),
            kind == PathKind::Missing ==> (r matches Err(StorageError::NotFound { path: p }) && p == path),
            kind == PathKind::Other ==> (r matches Err(
                StorageError::PathConflict { path: p, message },
            ) && p == path && message@ == "path is neither a regular file nor a directory"@),
    {
        match kind {
            PathKind::File => Ok(StorageEntry::File(FileStorage { path })),
            PathKind::Directory => Ok(StorageEntry::Directory(DirectoryStorage { path })),
            PathKind::Missing => Err(StorageError::NotFound { path }),
            PathKind::Other => Err(
                StorageError::path_conflict(
                    path,
                    "path is neither a regular file nor a directory",
                ),
            ),
        }
    }

    /// The path the handle names.
    pub fn path(&self) -> (r: &str)
        ensures
            r@ == self.spec_path(),
    {
        match self {
            StorageEntry::File(f) => f.path(),
            StorageEntry::Directory(d) => d.path(),
        }
    }
}

/// Wrapper for file operations, opened on an existing file.
#[derive(Debug, Clone)]
pub struct FileObject {
    inner: FileStorage,
}

impl FileObject {
    /// The path the object names.
    pub closed spec fn spec_path(&self) -> Seq<char> {
        self.inner.spec_path()
    }

    /// Open an existing file path.
    pub fn open(path: String, kind: PathKind) -> (r: Result<Self, StorageError>)
        ensures
            kind == PathKind::File <==> r is Ok,
            r matches Ok(f) ==> f.spec_path() == path@,
            kind == PathKind::Missing ==> (r matches Err(StorageError::NotFound { path: p }) && p == path),
            (kind == PathKind::Directory || kind == PathKind::Other) ==> (r matches Err(
                StorageError::NotAFile { path: p },
            ) && p == path),
    {
        match FileStorage::from_existing(path, kind) {
            Ok(inner) => Ok(FileObject { inner }),
            Err(e) => Err(e),
        }
    }

    /// The absolute file path.
    pub fn full_path(&self) -> (r: &str)
        ensures
            r@ == self.spec_path(),
    {
        self.inner.path()
    }
}

/// Wrapper for directory operations, opened on an existing directory.
#[derive(Debug, Clone)]
pub struct DirectoryObject {
    inner: DirectoryStorage,
}

impl DirectoryObject {
    /// The path the object names.
    pub closed spec fn spec_path(&self) -> Seq<char> {
        self.inner.spec_path()
    }

    /// Open an existing directory path.
    pub fn open(path: String, kind: PathKind) -> (r: Result<Self, StorageError>)
        ensures
            kind == PathKind::Directory <==> r is Ok,
            r matches Ok(d) ==> d.spec_path() == path@,
            kind == PathKind::Missing ==> (r matches Err(StorageError::NotFound { path: p }) && p == path),
            (kind == PathKind::File || kind == PathKind::Other) ==> (r matches Err(
                StorageError::NotADirectory { path: p },
            ) && p == path),
    {
        match DirectoryStorage::from_existing(path, kind) {
            Ok(inner) => Ok(DirectoryObject { inner }),
            Err(e) => Err(e),
        }
    }

    /// The absolute directory path.
    pub fn full_path(&self) -> (r: &str)
        ensures
            r@ == self.spec_path(),
    {
        self.inner.path()
    }
}


/// Whether a copy or move into `destination` may go ahead, given what `destination`
/// names: into a free destination it may (`Ok(false)`), over an occupied one only when
/// `overwrite` allows replacing it (`Ok(true)`), and otherwise the destination is reported
/// as already existing.
pub fn destination_start(destination: &str, destination_kind: PathKind, overwrite: bool) -> (r: Result<
    bool,
    StorageError,
>)
    ensures
        destination_kind == PathKind::Missing ==> r == Ok::<bool, StorageError>(false),
        destination_kind != PathKind::Missing && overwrite ==> r == Ok::<bool, StorageError>(true),
        destination_kind != PathKind::Missing && !overwrite ==> (r matches Err(
            StorageError::AlreadyExists { path },
        ) && path@ == destination@),
{
    match destination_kind {
        PathKind::Missing => Ok(false),
        _ => {
            if overwrite {
                Ok(true)
            } else {
                Err(StorageError::already_exists(destination.to_owned()))
            }
        },
    }
}

/// How a directory copy or move starts once both paths are resolved.
#[derive(Debug, Clone, Copy, PartialEq, Eq, Structural)]
pub enum TransferStart {
    /// The source already is the destination: a move has nothing left to do.
    AlreadyInPlace,
    /// Nothing is at the destination: transfer into it.
    Transfer,
    /// Something is at the destination and may be overwritten: remove it, then transfer.
    ReplaceDestination,
}

/// How a directory copy (`moving` false) or move (`moving` true) from `source` to
/// `destination` starts, given what `destination` names. A copy onto itself is refused as a
/// path conflict and a move onto itself is already done; otherwise an occupied destination
/// is refused unless `overwrite` allows replacing it.
pub fn directory_transfer_start(
    source: &str,
    destination: &str,
    destination_kind: PathKind,
    overwrite: bool,
    moving: bool,
) -> (r: Result<TransferStart, StorageError>)
    ensures
        source@ == destination@ && moving ==> r == Ok::<TransferStart, StorageError>(
            TransferStart::AlreadyInPlace,
        ),
        source@ == destination@ && !moving ==> (r matches Err(
            StorageError::PathConflict { path, message },
        ) && path@ == destination@ && message == "source and destination are the same directory"),
        source@ != destination@ && destination_kind == PathKind::Missing ==> r == Ok::<
            TransferStart,
            StorageError,
        >(TransferStart::Transfer),
        source@ != destination@ && destination_kind != PathKind::Missing && overwrite ==> r == Ok::<
            TransferStart,
            StorageError,
        >(TransferStart::ReplaceDestination),
        source@ != destination@ && destination_kind != PathKind::Missing && !overwrite ==> (r matches Err(
            StorageError::AlreadyExists { path },
        ) && path@ == destination@),
{
    if chars_equal(chars_of(source).as_slice(), chars_of(destination).as_slice()) {
        if moving {
            return Ok(TransferStart::AlreadyInPlace);
        }
        return Err(
            StorageError::path_conflict(
                destination.to_owned(),
                "source and destination are the same directory",
            ),
        );
    }
    if destination_start(destination, destination_kind, overwrite)? {
        Ok(TransferStart::ReplaceDestination)
    } else {
        Ok(TransferStart::Transfer)
    }
}

/// Whether `name` is a single path component: not empty, not `.` or `..`, and without a
/// separator.
pub open spec fn is_single_path_name(name: Seq<char>) -> bool {
    &&& name.len() > 0
    &&& name != seq!['.']
    &&& name != seq!['.', '.']
    &&& forall|i: int| 0 <= i < name.len() ==> !is_separator(#[trigger] name[i])
}

/// Checks that the new name of a renamed `kind` ("file" or "directory") is a single path
/// component; any other name is refused as an invalid name.
pub fn validate_single_path_name(name: &str, kind: &'static str) -> (r: Result<(), StorageError>)
    ensures
        r is Ok <==> is_single_path_name(name@),
        r matches Err(e) ==> (e matches StorageError::InvalidName { kind: k, value } && k == kind
            && value@ == name@),
{
    let cs = chars_of(name);
    let n = cs.len();
    let mut ok = n > 0;
    if n == 1 && cs[0] == '.' {
        ok = false;
        assert(name@ =~= seq!['.']);
    }
    if n == 2 && cs[0] == '.' && cs[1] == '.' {
        ok = false;
        assert(name@ =~= seq!['.', '.']);
    }
    proof {
        if name@ == seq!['.'] {
            assert(cs@[0] == '.');
        }
        if name@ == seq!['.', '.'] {
            assert(cs@[1] == '.');
        }
    }
    let mut i: usize = 0;
    while i < n
        invariant
            n == cs@.len(),
            cs@ == name@,
            i <= n,
            ok ==> forall|k: int| 0 <= k < i ==> !is_separator(#[trigger] name@[k]),
            !ok ==> !is_single_path_name(name@),
            ok ==> (name@.len() > 0 && name@ != seq!['.'] && name@ != seq!['.', '.']),
        decreases n - i,
    {
        if cs[i] == '/' || cs[i] == '\\' {
            ok = false;
        }
        i = i + 1;
    }
    if ok {
        Ok(())
    } else {
        Err(StorageError::invalid_name(kind, name.to_owned()))
    }
}

} // verus!
