//! The mathematical model of an in-memory store: the directories' entry lists
//! and the files' byte buffers, addressed by handle.

use crate::error::FsError;
use vstd::prelude::*;

verus! {

/// A handle to a directory of a store: the directory's slot in the store.
#[derive(Clone, Copy, Debug, PartialEq, Eq, Structural)]
pub struct DirectoryHandle {
    pub id: usize,
}

/// A handle to a file of a store: the file's slot in the store.
#[derive(Clone, Copy, Debug, PartialEq, Eq, Structural)]
pub struct FileHandle {
    pub id: usize,
}

/// A named child of a directory.
#[derive(Clone, Copy, Debug, PartialEq, Eq, Structural)]
pub enum DirectoryEntry {
    File(FileHandle),
    Directory(DirectoryHandle),
}

/// A writable stream over a file: the file and the position of the next write.
#[derive(Clone, Copy, Debug, PartialEq, Eq, Structural)]
pub struct WritableFileStream {
    pub file: FileHandle,
    pub cursor_pos: usize,
}

/// A directory's entries, in order of insertion, names as character sequences.
pub type DirModel = Seq<(Seq<char>, DirectoryEntry)>;

/// No name occurs twice among a directory's entries.
pub open spec fn names_unique(s: DirModel) -> bool {
    forall|i: int, j: int| 0 <= i < j < s.len() ==> #[trigger] s[i].0 != #[trigger] s[j].0
}

/// The position of the entry called `name`, or -1 where there is none.
pub open spec fn find(s: DirModel, name: Seq<char>) -> int
    decreases s.len(),
{
    if s.len() == 0 {
        -1
    } else if s.last().0 == name {
        s.len() - 1
    } else {
        find(s.drop_last(), name)
    }
}

/// The entry called `name`, if there is one.
pub open spec fn lookup(s: DirModel, name: Seq<char>) -> Option<DirectoryEntry> {
    if find(s, name) >= 0 {
        Some(s[find(s, name)].1)
    } else {
        None
    }
}

/// A found position holds the name looked for.
pub proof fn lemma_find_found(s: DirModel, name: Seq<char>)
    ensures
        -1 <= find(s, name) < s.len(),
        find(s, name) >= 0 ==> s[find(s, name)].0 == name,
    decreases s.len(),
{
    if s.len() > 0 && s.last().0 != name {
        lemma_find_found(s.drop_last(), name);
    }
}

/// Where names are unique, the entry called `name` is found at its own position.
pub proof fn lemma_find_unique(s: DirModel, name: Seq<char>, i: int)
    requires
        names_unique(s),
        0 <= i < s.len(),
        s[i].0 == name,
    ensures
        find(s, name) == i,
    decreases s.len(),
{
    if s.last().0 != name {
        assert(i != s.len() - 1);
        let t = s.drop_last();
        assert(t[i] == s[i]);
        assert(names_unique(t)) by {
            assert forall|a: int, b: int| 0 <= a < b < t.len() implies t[a].0 != t[b].0 by {
                assert(t[a] == s[a] && t[b] == s[b]);
            }
        }
        lemma_find_unique(t, name, i);
    } else if i != s.len() - 1 {
        assert(s[i].0 != s[s.len() - 1].0);
    }
}

/// A name held by no entry is not found.
pub proof fn lemma_find_absent(s: DirModel, name: Seq<char>)
    requires
        forall|i: int| 0 <= i < s.len() ==> s[i].0 != name,
    ensures
        find(s, name) == -1,
    decreases s.len(),
{
    if s.len() > 0 {
        let t = s.drop_last();
        assert(s.last() == s[s.len() - 1]);
        assert forall|i: int| 0 <= i < t.len() implies t[i].0 != name by {
            assert(t[i] == s[i]);
        }
        lemma_find_absent(t, name);
    }
}

/// A name that is not found is held by no entry.
pub proof fn lemma_lookup_none(s: DirModel, name: Seq<char>)
    requires
        names_unique(s),
        lookup(s, name) is None,
    ensures
        forall|i: int| 0 <= i < s.len() ==> s[i].0 != name,
{
    assert forall|i: int| 0 <= i < s.len() implies s[i].0 != name by {
        if s[i].0 == name {
            lemma_find_unique(s, name, i);
        }
    }
}

/// Adding a new name to a store keeps it well formed.
pub proof fn lemma_add_wf(m: FsModel, d: DirectoryHandle, name: Seq<char>)
    requires
        m.wf(),
        m.valid_dir(d),
        lookup(m.dir(d), name) is None,
    ensures
        m.add_file(d, name).0.wf(),
        m.add_dir(d, name).0.wf(),
{
    lemma_lookup_none(m.dir(d), name);
    let pf = m.add_file(d, name).0;
    let pd = m.add_dir(d, name).0;
    assert forall|k: int| 0 <= k < pf.dirs.len() implies names_unique(#[trigger] pf.dirs[k]) && forall|i: int|
        0 <= i < pf.dirs[k].len() ==> pf.valid_entry(#[trigger] pf.dirs[k][i].1) by {
        assert(forall|i: int| 0 <= i < m.dirs[k].len() ==> m.valid_entry(#[trigger] m.dirs[k][i].1));
        if k == d.id as int {
            assert forall|i: int| 0 <= i < pf.dirs[k].len() - 1 implies pf.dirs[k][i] == m.dirs[k][i] by {}
        }
    }
    assert forall|k: int| 0 <= k < pd.dirs.len() implies names_unique(#[trigger] pd.dirs[k]) && forall|i: int|
        0 <= i < pd.dirs[k].len() ==> pd.valid_entry(#[trigger] pd.dirs[k][i].1) by {
        if k < m.dirs.len() {
            assert(forall|i: int| 0 <= i < m.dirs[k].len() ==> m.valid_entry(#[trigger] m.dirs[k][i].1));
            if k == d.id as int {
                assert forall|i: int| 0 <= i < pd.dirs[k].len() - 1 implies pd.dirs[k][i] == m.dirs[k][i] by {}
            }
        }
    }
}

/// Removing an entry keeps a store well formed.
pub proof fn lemma_remove_wf(m: FsModel, d: DirectoryHandle, i: int)
    requires
        m.wf(),
        m.valid_dir(d),
        0 <= i < m.dir(d).len(),
    ensures
        (FsModel { dirs: m.dirs.update(d.id as int, m.dir(d).remove(i)), files: m.files }).wf(),
{
    let p = FsModel { dirs: m.dirs.update(d.id as int, m.dir(d).remove(i)), files: m.files };
    assert forall|k: int| 0 <= k < p.dirs.len() implies names_unique(#[trigger] p.dirs[k]) && forall|j: int|
        0 <= j < p.dirs[k].len() ==> p.valid_entry(#[trigger] p.dirs[k][j].1) by {
        assert(names_unique(m.dirs[k]));
        assert(forall|j: int| 0 <= j < m.dirs[k].len() ==> m.valid_entry(#[trigger] m.dirs[k][j].1));
        if k == d.id as int {
            let s = m.dirs[k];
            let t = p.dirs[k];
            assert forall|j: int| 0 <= j < t.len() implies t[j] == s[if j < i { j } else { j + 1 }] by {}
            assert forall|a: int, b: int| 0 <= a < b < t.len() implies t[a].0 != t[b].0 by {
                assert(t[a] == s[if a < i { a } else { a + 1 }]);
                assert(t[b] == s[if b < i { b } else { b + 1 }]);
            }
            assert forall|j: int| 0 <= j < t.len() implies p.valid_entry(#[trigger] t[j].1) by {
                assert(t[j] == s[if j < i { j } else { j + 1 }]);
            }
        }
    }
}

/// The state of a store: each directory's entries and each file's bytes.
pub struct FsModel {
    pub dirs: Seq<DirModel>,
    pub files: Seq<Seq<u8>>,
}

impl FsModel {
    /// The entry refers to a directory or file that the store holds.
    pub open spec fn valid_entry(self, e: DirectoryEntry) -> bool {
        match e {
            DirectoryEntry::File(f) => f.id < self.files.len(),
            DirectoryEntry::Directory(d) => d.id < self.dirs.len(),
        }
    }

    /// The directory is in the store.
    pub open spec fn valid_dir(self, d: DirectoryHandle) -> bool {
        d.id < self.dirs.len()
    }

    /// The file is in the store.
    pub open spec fn valid_file(self, f: FileHandle) -> bool {
        f.id < self.files.len()
    }

    /// The entries of directory `d`.
    pub open spec fn dir(self, d: DirectoryHandle) -> DirModel {
        self.dirs[d.id as int]
    }

    /// The bytes of file `f`.
    pub open spec fn file(self, f: FileHandle) -> Seq<u8> {
        self.files[f.id as int]
    }

    /// Names are unique in every directory, and every entry refers into the store.
    pub open spec fn wf(self) -> bool {
        forall|d: int|
            0 <= d < self.dirs.len() ==> {
                &&& names_unique(#[trigger] self.dirs[d])
                &&& forall|i: int|
                    0 <= i < self.dirs[d].len() ==> self.valid_entry(#[trigger] self.dirs[d][i].1)
            }
    }

    /// The store after a new, empty file is added as `name` in `d`, and its handle.
    pub open spec fn add_file(self, d: DirectoryHandle, name: Seq<char>) -> (FsModel, FileHandle) {
        let f = FileHandle { id: self.files.len() as usize };
        (
            FsModel {
                dirs: self.dirs.update(d.id as int, self.dir(d).push((name, DirectoryEntry::File(f)))),
                files: self.files.push(Seq::empty()),
            },
            f,
        )
    }

    /// The store after a new, empty directory is added as `name` in `d`, and its handle.
    pub open spec fn add_dir(self, d: DirectoryHandle, name: Seq<char>) -> (FsModel, DirectoryHandle) {
        let c = DirectoryHandle { id: self.dirs.len() as usize };
        (
            FsModel {
                dirs: self.dirs.update(d.id as int, self.dir(d).push((name, DirectoryEntry::Directory(c)))).push(
                    Seq::empty(),
                ),
                files: self.files,
            },
            c,
        )
    }

    /// Looking up file `name` in `d`, creating it where it is missing and `create` holds.
    pub open spec fn get_file(self, d: DirectoryHandle, name: Seq<char>, create: bool) -> (FsModel, Result<FileHandle, FsError>) {
        match lookup(self.dir(d), name) {
            Some(DirectoryEntry::File(f)) => (self, Ok(f)),
            Some(DirectoryEntry::Directory(_)) => (self, Err(FsError::WrongKind)),
            None => if create {
                (self.add_file(d, name).0, Ok(self.add_file(d, name).1))
            } else {
                (self, Err(FsError::NotFound))
            },
        }
    }

    /// Looking up directory `name` in `d`, creating it where it is missing and `create` holds.
    pub open spec fn get_dir(self, d: DirectoryHandle, name: Seq<char>, create: bool) -> (FsModel, Result<DirectoryHandle, FsError>) {
        match lookup(self.dir(d), name) {
            Some(DirectoryEntry::Directory(c)) => (self, Ok(c)),
            Some(DirectoryEntry::File(_)) => (self, Err(FsError::WrongKind)),
            None => if create {
                (self.add_dir(d, name).0, Ok(self.add_dir(d, name).1))
            } else {
                (self, Err(FsError::NotFound))
            },
        }
    }

    /// The entry is a directory that holds at least one entry.
    pub open spec fn populated_dir(self, e: DirectoryEntry) -> bool {
        match e {
            DirectoryEntry::Directory(c) => self.dir(c).len() > 0,
            DirectoryEntry::File(_) => false,
        }
    }

    /// Removing entry `name` from `d`; a directory that holds entries goes only
    /// where `recursive` holds.
    pub open spec fn remove(self, d: DirectoryHandle, name: Seq<char>, recursive: bool) -> (FsModel, Result<(), FsError>) {
        match lookup(self.dir(d), name) {
            None => (self, Err(FsError::NotFound)),
            Some(e) => if !recursive && self.populated_dir(e) {
                (self, Err(FsError::NotEmpty))
            } else {
                (
                    FsModel {
                        dirs: self.dirs.update(d.id as int, self.dir(d).remove(find(self.dir(d), name))),
                        files: self.files,
                    },
                    Ok(()),
                )
            },
        }
    }

    /// The stream's file is in the store and its cursor within the file's bytes.
    pub open spec fn valid_stream(self, s: WritableFileStream) -> bool {
        self.valid_file(s.file) && s.cursor_pos <= self.file(s.file).len()
    }

    /// The store with file `f`'s bytes replaced by `data`.
    pub open spec fn set_file(self, f: FileHandle, data: Seq<u8>) -> FsModel {
        FsModel { dirs: self.dirs, files: self.files.update(f.id as int, data) }
    }

    /// Opening a stream on `f`: its bytes are emptied unless `keep` holds, and
    /// the cursor starts at 0 either way.
    pub open spec fn open_stream(self, f: FileHandle, keep: bool) -> (FsModel, WritableFileStream) {
        (
            if keep { self } else { self.set_file(f, Seq::empty()) },
            WritableFileStream { file: f, cursor_pos: 0 },
        )
    }

    /// Writing `bytes` at the cursor: the bytes before the cursor are kept,
    /// `bytes` follow, whatever stood after the cursor is dropped, and the cursor
    /// moves past `bytes`.
    pub open spec fn write(self, s: WritableFileStream, bytes: Seq<u8>) -> (FsModel, WritableFileStream) {
        (
            self.set_file(s.file, self.file(s.file).subrange(0, s.cursor_pos as int) + bytes),
            WritableFileStream { file: s.file, cursor_pos: (s.cursor_pos + bytes.len()) as usize },
        )
    }

    /// Moving the cursor to `offset`, which may be the end of the file but not past it.
    pub open spec fn seek(self, s: WritableFileStream, offset: usize) -> (WritableFileStream, Result<(), FsError>) {
        if offset > self.file(s.file).len() {
            (s, Err(FsError::OutOfRange))
        } else {
            (WritableFileStream { file: s.file, cursor_pos: offset }, Ok(()))
        }
    }
}

} // verus!
