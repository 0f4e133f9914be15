//! The in-memory backend: a store of directories and files that handles refer
//! into, so that every copy of a handle sees the same content.

use crate::error::FsError;
use crate::model::{
    find, lemma_add_wf, lemma_find_absent, lemma_find_unique, lemma_remove_wf, lookup, names_unique,
    DirModel, DirectoryEntry, DirectoryHandle, FileHandle, FsModel, WritableFileStream,
};
use crate::options::{
    CreateWritableOptions, FileSystemRemoveOptions, GetDirectoryHandleOptions,
    GetFileHandleOptions,
};
use vstd::prelude::*;

verus! {

/// The entries of one directory, names as strings.
pub type DirEntries = Vec<(String, DirectoryEntry)>;

/// A directory's entries as the model sees them.
pub open spec fn dir_model(v: DirEntries) -> DirModel {
    v@.map_values(|p: (String, DirectoryEntry)| (p.0@, p.1))
}

/// The storage behind every handle of the in-memory backend.
pub struct MemoryFs {
    dirs: Vec<DirEntries>,
    files: Vec<Vec<u8>>,
}

impl View for MemoryFs {
    type V = FsModel;

    closed spec fn view(&self) -> FsModel {
        FsModel {
            dirs: self.dirs@.map_values(|v: DirEntries| dir_model(v)),
            files: self.files@.map_values(|v: Vec<u8>| v@),
        }
    }
}

/// The position of the entry called `name` in `es`, if any.
fn find_index(es: &DirEntries, name: &String) -> (r: Option<usize>)
    ensures
        match r {
            Some(i) => i < es@.len() && es@[i as int].0@ == name@,
            None => forall|i: int| 0 <= i < es@.len() ==> es@[i].0@ != name@,
        },
{
    let mut i: usize = 0;
    while i < es.len()
        invariant
            i <= es@.len(),
            forall|j: int| 0 <= j < i ==> es@[j].0@ != name@,
        decreases es@.len() - i,
    {
        if es[i].0 == *name {
            return Some(i);
        }
        i += 1;
    }
    None
}

impl MemoryFs {
    /// The store's model is well formed; every operation keeps it so.
    pub closed spec fn wf(&self) -> bool {
        self@.wf()
    }

    /// An empty store: no directories, no files.
    pub fn new() -> (r: MemoryFs)
        ensures
            r.wf(),
            r@.dirs.len() == 0,
            r@.files.len() == 0,
    {
        let r = MemoryFs { dirs: Vec::new(), files: Vec::new() };
        proof {
            assert(r@.dirs =~= Seq::<DirModel>::empty());
            assert(r@.files =~= Seq::<Seq<u8>>::empty());
        }
        r
    }

    /// What `find_index` found, said of the model.
    proof fn lemma_found(&self, d: DirectoryHandle, name: Seq<char>, r: Option<usize>)
        requires
            self.wf(),
            self@.valid_dir(d),
            match r {
                Some(i) => i < self.dirs@[d.id as int]@.len() && self.dirs@[d.id as int]@[i as int].0@ == name,
                None => forall|i: int| 0 <= i < self.dirs@[d.id as int]@.len() ==> self.dirs@[d.id as int]@[i].0@ != name,
            },
        ensures
            match r {
                Some(i) => find(self@.dir(d), name) == i && lookup(self@.dir(d), name) == Some(self.dirs@[d.id as int]@[i as int].1),
                None => find(self@.dir(d), name) == -1 && lookup(self@.dir(d), name) is None,
            },
    {
        let s = self@.dir(d);
        assert(s == dir_model(self.dirs@[d.id as int]));
        assert(names_unique(self@.dirs[d.id as int]));
        match r {
            Some(i) => {
                lemma_find_unique(s, name, i as int);
            },
            None => {
                assert forall|i: int| 0 <= i < s.len() implies s[i].0 != name by {
                    assert(s[i].0 == self.dirs@[d.id as int]@[i].0@);
                }
                lemma_find_absent(s, name);
            },
        }
    }
}

impl DirectoryHandle {
    /// A new, empty directory in `fs` that no other directory holds: the root
    /// of a tree of its own.
    pub fn new(fs: &mut MemoryFs) -> (r: DirectoryHandle)
        requires
            old(fs).wf(),
        ensures
            final(fs).wf(),
            r.id == old(fs)@.dirs.len(),
            final(fs)@ == (FsModel { dirs: old(fs)@.dirs.push(Seq::empty()), files: old(fs)@.files }),
    {
        let r = DirectoryHandle { id: fs.dirs.len() };
        let ghost m = fs@;
        fs.dirs.push(Vec::new());
        proof {
            assert(dir_model(fs.dirs@[r.id as int]) =~= Seq::empty());
            assert(fs@.dirs =~= m.dirs.push(Seq::empty()));
            assert(fs@.files =~= m.files);
            assert forall|d: int| 0 <= d < fs@.dirs.len() implies names_unique(#[trigger] fs@.dirs[d]) && forall|i: int|
                0 <= i < fs@.dirs[d].len() ==> fs@.valid_entry(#[trigger] fs@.dirs[d][i].1) by {
                if d < m.dirs.len() {
                    assert(fs@.dirs[d] == m.dirs[d]);
                    assert(forall|i: int| 0 <= i < m.dirs[d].len() ==> m.valid_entry(#[trigger] m.dirs[d][i].1));
                }
            }
        }
        r
    }

    /// The file called `name` in this directory, which must exist.
    pub fn get_file_handle(&self, fs: &mut MemoryFs, name: &str) -> (r: Result<FileHandle, FsError>)
        requires
            old(fs).wf(),
            old(fs)@.valid_dir(*self),
        ensures
            final(fs).wf(),
            (final(fs)@, r) == old(fs)@.get_file(*self, name@, false),
    {
        self.get_file_handle_with_options(fs, name, &GetFileHandleOptions { create: false })
    }

    /// The directory called `name` in this directory, which must exist.
    pub fn get_directory_handle(&self, fs: &mut MemoryFs, name: &str) -> (r: Result<DirectoryHandle, FsError>)
        requires
            old(fs).wf(),
            old(fs)@.valid_dir(*self),
        ensures
            final(fs).wf(),
            (final(fs)@, r) == old(fs)@.get_dir(*self, name@, false),
    {
        self.get_directory_handle_with_options(fs, name, &GetDirectoryHandleOptions { create: false })
    }

    /// Removes entry `name` from this directory, but not a directory that holds entries.
    pub fn remove_entry(&self, fs: &mut MemoryFs, name: &str) -> (r: Result<(), FsError>)
        requires
            old(fs).wf(),
            old(fs)@.valid_dir(*self),
        ensures
            final(fs).wf(),
            (final(fs)@, r) == old(fs)@.remove(*self, name@, false),
    {
        self.remove_entry_with_options(fs, name, &FileSystemRemoveOptions { recursive: false })
    }

    /// The file called `name` in this directory. A missing file is created
    /// empty where `options.create` holds, else the lookup fails `NotFound`;
    /// a directory of that name fails `WrongKind`.
    pub fn get_file_handle_with_options(
        &self,
        fs: &mut MemoryFs,
        name: &str,
        options: &GetFileHandleOptions,
    ) -> (r: Result<FileHandle, FsError>)
        requires
            old(fs).wf(),
            old(fs)@.valid_dir(*self),
        ensures
            final(fs).wf(),
            (final(fs)@, r) == old(fs)@.get_file(*self, name@, options.create),
    {
        let key = name.to_owned();
        let found = find_index(&fs.dirs[self.id], &key);
        proof {
            fs.lemma_found(*self, name@, found);
        }
        match found {
            Some(i) => match fs.dirs[self.id][i].1 {
                DirectoryEntry::File(f) => Ok(f),
                DirectoryEntry::Directory(_) => Err(FsError::WrongKind),
            },
            None => {
                if options.create {
                    let f = FileHandle { id: fs.files.len() };
                    let ghost m = fs@;
                    fs.files.push(Vec::new());
                    fs.dirs[self.id].push((key, DirectoryEntry::File(f)));
                    proof {
                        let post = m.add_file(*self, name@).0;
                        lemma_add_wf(m, *self, name@);
                        assert(fs@.files =~= post.files);
                        assert(dir_model(fs.dirs@[self.id as int]) =~= post.dirs[self.id as int]);
                        assert(fs@.dirs =~= post.dirs);
                    }
                    Ok(f)
                } else {
                    Err(FsError::NotFound)
                }
            },
        }
    }

    /// The directory called `name` in this directory. A missing directory is
    /// created empty where `options.create` holds, else the lookup fails
    /// `NotFound`; a file of that name fails `WrongKind`.
    pub fn get_directory_handle_with_options(
        &self,
        fs: &mut MemoryFs,
        name: &str,
        options: &GetDirectoryHandleOptions,
    ) -> (r: Result<DirectoryHandle, FsError>)
        requires
            old(fs).wf(),
            old(fs)@.valid_dir(*self),
        ensures
            final(fs).wf(),
            (final(fs)@, r) == old(fs)@.get_dir(*self, name@, options.create),
    {
        let key = name.to_owned();
        let found = find_index(&fs.dirs[self.id], &key);
        proof {
            fs.lemma_found(*self, name@, found);
        }
        match found {
            Some(i) => match fs.dirs[self.id][i].1 {
                DirectoryEntry::Directory(c) => Ok(c),
                DirectoryEntry::File(_) => Err(FsError::WrongKind),
            },
            None => {
                if options.create {
                    let c = DirectoryHandle { id: fs.dirs.len() };
                    let ghost m = fs@;
                    fs.dirs[self.id].push((key, DirectoryEntry::Directory(c)));
                    fs.dirs.push(Vec::new());
                    proof {
                        let post = m.add_dir(*self, name@).0;
                        lemma_add_wf(m, *self, name@);
                        assert(dir_model(fs.dirs@[self.id as int]) =~= post.dirs[self.id as int]);
                        assert(dir_model(fs.dirs@[c.id as int]) =~= post.dirs[c.id as int]);
                        assert(fs@.dirs =~= post.dirs);
                        assert(fs@.files =~= post.files);
                    }
                    Ok(c)
                } else {
                    Err(FsError::NotFound)
                }
            },
        }
    }

    /// Removes entry `name` from this directory. Fails `NotFound` where there
    /// is none, and `NotEmpty` where it is a directory that holds entries and
    /// `options.recursive` does not hold; on failure nothing changes.
    pub fn remove_entry_with_options(
        &self,
        fs: &mut MemoryFs,
        name: &str,
        options: &FileSystemRemoveOptions,
    ) -> (r: Result<(), FsError>)
        requires
            old(fs).wf(),
            old(fs)@.valid_dir(*self),
        ensures
            final(fs).wf(),
            (final(fs)@, r) == old(fs)@.remove(*self, name@, options.recursive),
    {
        let key = name.to_owned();
        let found = find_index(&fs.dirs[self.id], &key);
        proof {
            fs.lemma_found(*self, name@, found);
        }
        match found {
            None => Err(FsError::NotFound),
            Some(i) => {
                let e = fs.dirs[self.id][i].1;
                if let DirectoryEntry::Directory(c) = e {
                    proof {
                        assert(fs@.dir(*self)[i as int].1 == e);
                        assert(fs@.valid_entry(fs@.dirs[self.id as int][i as int].1));
                    }
                    if !options.recursive && fs.dirs[c.id].len() > 0 {
                        return Err(FsError::NotEmpty);
                    }
                }
                let ghost m = fs@;
                fs.dirs[self.id].remove(i);
                proof {
                    lemma_remove_wf(m, *self, i as int);
                    let post = m.remove(*self, name@, options.recursive).0;
                    assert(dir_model(fs.dirs@[self.id as int]) =~= post.dirs[self.id as int]);
                    assert(fs@.dirs =~= post.dirs);
                    assert(fs@.files =~= post.files);
                }
                Ok(())
            },
        }
    }

    /// A snapshot of this directory's entries, in order of insertion, each as
    /// its name and what it refers to. None of them fails here.
    pub fn entries(&self, fs: &MemoryFs) -> (r: Vec<Result<(String, DirectoryEntry), FsError>>)
        requires
            fs.wf(),
            fs@.valid_dir(*self),
        ensures
            r@.len() == fs@.dir(*self).len(),
            forall|i: int|
                0 <= i < r@.len() ==> #[trigger] r@[i] is Ok && r@[i]->Ok_0.0@ == fs@.dir(*self)[i].0
                    && r@[i]->Ok_0.1 == fs@.dir(*self)[i].1,
    {
        let es = &fs.dirs[self.id];
        let mut out: Vec<Result<(String, DirectoryEntry), FsError>> = Vec::new();
        let mut i: usize = 0;
        while i < es.len()
            invariant
                i <= es@.len(),
                es@ == fs.dirs@[self.id as int]@,
                out@.len() == i,
                forall|j: int|
                    0 <= j < i ==> #[trigger] out@[j] is Ok && out@[j]->Ok_0.0@ == es@[j].0@
                        && out@[j]->Ok_0.1 == es@[j].1,
            decreases es@.len() - i,
        {
            out.push(Ok((es[i].0.clone(), es[i].1)));
            i += 1;
        }
        proof {
            assert forall|j: int| 0 <= j < out@.len() implies fs@.dir(*self)[j] == (es@[j].0@, es@[j].1) by {}
        }
        out
    }
}

impl FileHandle {
    /// Opens a writable stream on this file, emptying the file first.
    pub fn create_writable(&self, fs: &mut MemoryFs) -> (r: Result<WritableFileStream, FsError>)
        requires
            old(fs).wf(),
            old(fs)@.valid_file(*self),
        ensures
            final(fs).wf(),
            final(fs)@ == old(fs)@.open_stream(*self, false).0,
            r == Ok::<WritableFileStream, FsError>(old(fs)@.open_stream(*self, false).1),
    {
        self.create_writable_with_options(fs, &CreateWritableOptions { keep_existing_data: false })
    }

    /// Opens a writable stream on this file with its cursor at 0. Unless
    /// `options.keep_existing_data` holds, the file is emptied at once.
    pub fn create_writable_with_options(
        &self,
        fs: &mut MemoryFs,
        options: &CreateWritableOptions,
    ) -> (r: Result<WritableFileStream, FsError>)
        requires
            old(fs).wf(),
            old(fs)@.valid_file(*self),
        ensures
            final(fs).wf(),
            final(fs)@ == old(fs)@.open_stream(*self, options.keep_existing_data).0,
            r == Ok::<WritableFileStream, FsError>(old(fs)@.open_stream(*self, options.keep_existing_data).1),
    {
        if !options.keep_existing_data {
            let ghost m = fs@;
            fs.files[self.id].clear();
            proof {
                assert(fs@.files =~= m.set_file(*self, Seq::empty()).files);
                assert(fs@.dirs =~= m.dirs);
            }
        }
        Ok(WritableFileStream { file: *self, cursor_pos: 0 })
    }

    /// The file's bytes.
    pub fn read(&self, fs: &MemoryFs) -> (r: Result<Vec<u8>, FsError>)
        requires
            fs@.valid_file(*self),
        ensures
            r is Ok && r->Ok_0@ == fs@.file(*self),
    {
        let data = &fs.files[self.id];
        let mut out: Vec<u8> = Vec::new();
        let mut i: usize = 0;
        while i < data.len()
            invariant
                i <= data@.len(),
                out@ == data@.subrange(0, i as int),
            decreases data@.len() - i,
        {
            out.push(data[i]);
            i += 1;
            proof {
                assert(out@ =~= data@.subrange(0, i as int));
            }
        }
        proof {
            assert(out@ =~= data@);
        }
        Ok(out)
    }

    /// The number of bytes in the file, whatever any stream's cursor.
    pub fn size(&self, fs: &MemoryFs) -> (r: Result<usize, FsError>)
        requires
            fs@.valid_file(*self),
        ensures
            r is Ok && r->Ok_0 == fs@.file(*self).len(),
    {
        Ok(fs.files[self.id].len())
    }
}

impl WritableFileStream {
    /// Writes `data` at the cursor: the bytes before the cursor stay, `data`
    /// follows, what stood after the cursor is dropped, and the cursor moves
    /// past `data`.
    pub fn write_at_cursor_pos(&mut self, fs: &mut MemoryFs, data: Vec<u8>) -> (r: Result<(), FsError>)
        requires
            old(fs).wf(),
            old(fs)@.valid_stream(*old(self)),
        ensures
            final(fs).wf(),
            r is Ok,
            (final(fs)@, *final(self)) == old(fs)@.write(*old(self), data@),
    {
        let ghost m = fs@;
        let ghost bytes = data@;
        let mut data = data;
        let buf = &mut fs.files[self.file.id];
        buf.truncate(self.cursor_pos);
        buf.append(&mut data);
        let end = buf.len();
        self.cursor_pos = end;
        proof {
            assert(fs@.files =~= m.write(*old(self), bytes).0.files);
            assert(fs@.dirs =~= m.dirs);
        }
        Ok(())
    }

    /// Ends the stream. The content was already written, so nothing changes.
    pub fn close(&mut self) -> (r: Result<(), FsError>)
        ensures
            r is Ok,
            *final(self) == *old(self),
    {
        Ok(())
    }

    /// Moves the cursor to `offset`; fails `OutOfRange`, leaving the cursor
    /// where it was, where `offset` is past the end of the file.
    pub fn seek(&mut self, fs: &MemoryFs, offset: usize) -> (r: Result<(), FsError>)
        requires
            fs@.valid_file(old(self).file),
        ensures
            (*final(self), r) == fs@.seek(*old(self), offset),
    {
        if offset > fs.files[self.file.id].len() {
            return Err(FsError::OutOfRange);
        }
        self.cursor_pos = offset;
        Ok(())
    }
}

} // verus!
