//! Properties that hold across several operations of the in-memory backend,
//! stated over the model that the operations' contracts use.

use crate::error::FsError;
use crate::model::{
    find, lemma_find_absent, lemma_find_found, lookup, names_unique, DirectoryEntry, DirectoryHandle, FileHandle,
    FsModel, WritableFileStream,
};
use vstd::prelude::*;

verus! {

/// In an empty directory, looking up any file without creating it fails
/// `NotFound` and changes nothing. Looking it up with creation succeeds, and a
/// later lookup without creation returns that same handle, so the same content.
pub proof fn law_missing_file_then_created(m: FsModel, d: DirectoryHandle, name: Seq<char>)
    requires
        m.wf(),
        m.valid_dir(d),
        m.dir(d).len() == 0,
    ensures
        m.get_file(d, name, false) == (m, Err::<FileHandle, FsError>(FsError::NotFound)),
        m.get_file(d, name, true).1 is Ok,
        m.get_file(d, name, true).0.get_file(d, name, false) == m.get_file(d, name, true),
{
    assert(find(m.dir(d), name) == -1);
    let m1 = m.get_file(d, name, true).0;
    let s1 = m1.dir(d);
    assert(s1 == m.dir(d).push((name, DirectoryEntry::File(m.add_file(d, name).1))));
    assert(s1.last().0 == name);
    assert(find(s1, name) == 0);
}

/// A name bound to a directory is no file: looking it up as a file fails
/// `WrongKind`, with or without creation, and changes nothing; the same holds
/// for a name bound to a file looked up as a directory.
pub proof fn law_wrong_kind(m: FsModel, d: DirectoryHandle, name: Seq<char>, create: bool)
    requires
        m.wf(),
        m.valid_dir(d),
    ensures
        lookup(m.dir(d), name) is Some && lookup(m.dir(d), name)->Some_0 is Directory
            ==> m.get_file(d, name, create) == (m, Err::<FileHandle, FsError>(FsError::WrongKind)),
        lookup(m.dir(d), name) is Some && lookup(m.dir(d), name)->Some_0 is File
            ==> m.get_dir(d, name, create) == (m, Err::<DirectoryHandle, FsError>(FsError::WrongKind)),
{
}

/// Writing `bytes` through a fresh stream that empties the file leaves the
/// file holding exactly `bytes`, and its size is their number.
pub proof fn law_round_trip(m: FsModel, f: FileHandle, bytes: Seq<u8>)
    requires
        m.wf(),
        m.valid_file(f),
        bytes.len() <= usize::MAX,
    ensures
        ({
            let (m1, s1) = m.open_stream(f, false);
            let (m2, s2) = m1.write(s1, bytes);
            m2.file(f) == bytes && m2.file(f).len() == bytes.len() && s2.cursor_pos == bytes.len()
        }),
{
    let (m1, s1) = m.open_stream(f, false);
    assert(m1.file(f).subrange(0, 0) + bytes =~= bytes);
}

/// After writing `first` through a fresh stream, a seek back to 0 succeeds, and
/// writing `second` there leaves the file holding `second` alone: a write
/// drops whatever stood after it.
pub proof fn law_rewrite_from_start(m: FsModel, f: FileHandle, first: Seq<u8>, second: Seq<u8>)
    requires
        m.wf(),
        m.valid_file(f),
        first.len() <= usize::MAX,
    ensures
        ({
            let (m1, s1) = m.open_stream(f, false);
            let (m2, s2) = m1.write(s1, first);
            let (s3, r) = m2.seek(s2, 0);
            r is Ok && s3.cursor_pos == 0 && m2.write(s3, second).0.file(f) == second
        }),
{
    let (m1, s1) = m.open_stream(f, false);
    let (m2, s2) = m1.write(s1, first);
    let (s3, r) = m2.seek(s2, 0);
    assert(m2.file(f).subrange(0, 0) + second =~= second);
}

/// Reopening a file with its content kept changes nothing and puts the cursor
/// at 0, so a write of `second` there leaves the file holding `second` alone,
/// whatever `first` had been written before.
pub proof fn law_keep_then_overwrite(m: FsModel, f: FileHandle, first: Seq<u8>, second: Seq<u8>)
    requires
        m.wf(),
        m.valid_file(f),
    ensures
        ({
            let (m1, s1) = m.open_stream(f, false);
            let (m2, s2) = m1.write(s1, first);
            let (m3, s3) = m2.open_stream(f, true);
            m2.file(f) == first && m3 == m2 && s3.cursor_pos == 0 && m3.write(s3, second).0.file(f)
                == second
        }),
{
    let (m1, s1) = m.open_stream(f, false);
    assert(m1.file(f).subrange(0, 0) + first =~= first);
    let (m2, s2) = m1.write(s1, first);
    assert(m2.file(f).subrange(0, 0) + second =~= second);
}

/// A seek fails `OutOfRange` exactly when it goes past the end of the file;
/// a seek to the end itself succeeds. A failed seek leaves the cursor alone.
pub proof fn law_seek_bounds(m: FsModel, s: WritableFileStream, offset: usize)
    requires
        m.valid_file(s.file),
    ensures
        (m.seek(s, offset).1 == Err::<(), FsError>(FsError::OutOfRange)) == (offset > m.file(s.file).len()),
        m.seek(s, offset).1 is Err ==> m.seek(s, offset).0 == s,
        offset == m.file(s.file).len() ==> m.seek(s, offset).1 is Ok,
{
}

/// A directory that holds entries is not removed without `recursive`, and
/// nothing changes; with `recursive` it is removed, and its name is then free.
pub proof fn law_remove_populated(m: FsModel, d: DirectoryHandle, name: Seq<char>)
    requires
        m.wf(),
        m.valid_dir(d),
        lookup(m.dir(d), name) is Some,
        m.populated_dir(lookup(m.dir(d), name)->Some_0),
    ensures
        m.remove(d, name, false) == (m, Err::<(), FsError>(FsError::NotEmpty)),
        m.remove(d, name, true).1 is Ok,
        lookup(m.remove(d, name, true).0.dir(d), name) is None,
{
    let s = m.dir(d);
    let k = find(s, name);
    lemma_find_found(s, name);
    assert(names_unique(m.dirs[d.id as int]));
    let t = s.remove(k);
    assert(m.remove(d, name, true).0.dir(d) == t);
    assert forall|j: int| 0 <= j < t.len() implies t[j].0 != name by {
        if j < k {
            assert(t[j] == s[j]);
        } else {
            assert(t[j] == s[j + 1]);
        }
    }
    lemma_find_absent(t, name);
}

/// Creating two files of different names in an empty directory leaves it
/// holding exactly two entries, the first called `a` and the second `b`; an
/// empty directory holds none.
pub proof fn law_two_entries(m: FsModel, d: DirectoryHandle, a: Seq<char>, b: Seq<char>)
    requires
        m.wf(),
        m.valid_dir(d),
        m.dir(d).len() == 0,
        a != b,
    ensures
        ({
            let m2 = m.get_file(d, a, true).0.get_file(d, b, true).0;
            m2.dir(d).len() == 2 && m2.dir(d)[0].0 == a && m2.dir(d)[1].0 == b
        }),
{
    let m1 = m.get_file(d, a, true).0;
    assert(find(m.dir(d), a) == -1);
    let s1 = m1.dir(d);
    assert(s1.len() == 1 && s1[0].0 == a);
    assert(s1.last() == s1[0]);
    assert(s1.drop_last().len() == 0);
    assert(find(s1.drop_last(), b) == -1);
    assert(find(s1, b) == -1);
}

} // verus!
