use opfs::{
    CreateWritableOptions, DirectoryHandle, FileSystemRemoveOptions, GetDirectoryHandleOptions,
    GetFileHandleOptions, MemoryFs,
};

#[test]
fn memory_test_create_and_read_file() {
    let mut fs = MemoryFs::new();
    let dir = DirectoryHandle::new(&mut fs);
    let options = GetFileHandleOptions { create: true };
    let file = dir.get_file_handle_with_options(&mut fs, "test.txt", &options).unwrap();
    let write_options = CreateWritableOptions { keep_existing_data: false };
    let mut writer = file.create_writable_with_options(&mut fs, &write_options).unwrap();
    let data = b"Hello, world!".to_vec();
    writer.write_at_cursor_pos(&mut fs, data.clone()).unwrap();
    writer.close().unwrap();
    let read_data = file.read(&fs).unwrap();
    assert_eq!(read_data, data);
    assert_eq!(file.size(&fs).unwrap(), data.len());
}

#[test]
fn memory_test_file_not_found() {
    let mut fs = MemoryFs::new();
    let dir = DirectoryHandle::new(&mut fs);
    let options = GetFileHandleOptions { create: false };
    let result = dir.get_file_handle_with_options(&mut fs, "nonexistent.txt", &options);
    assert!(result.is_err());
    assert!(result.unwrap_err().message().contains("does not exist"));
}

#[test]
fn memory_test_remove_entry() {
    let mut fs = MemoryFs::new();
    let dir = DirectoryHandle::new(&mut fs);
    let options = GetFileHandleOptions { create: true };
    let _file = dir.get_file_handle_with_options(&mut fs, "test.txt", &options).unwrap();
    dir.remove_entry(&mut fs, "test.txt").unwrap();
    let result =
        dir.get_file_handle_with_options(&mut fs, "test.txt", &GetFileHandleOptions { create: false });
    assert!(result.is_err());
}

#[test]
fn memory_test_entries_empty() {
    let mut fs = MemoryFs::new();
    let dir = DirectoryHandle::new(&mut fs);
    let entries = dir.entries(&fs);
    assert!(entries.is_empty());
}

#[test]
fn memory_test_entries_with_files() {
    let mut fs = MemoryFs::new();
    let dir = DirectoryHandle::new(&mut fs);
    let options = GetFileHandleOptions { create: true };
    let _file1 = dir.get_file_handle_with_options(&mut fs, "file1.txt", &options).unwrap();
    let _file2 = dir.get_file_handle_with_options(&mut fs, "file2.txt", &options).unwrap();
    let entries = dir.entries(&fs);
    assert_eq!(entries.len(), 2);
    let mut names: Vec<_> = entries.into_iter().map(|r| r.unwrap().0).collect();
    names.sort();
    assert_eq!(names, vec!["file1.txt", "file2.txt"]);
}

#[test]
fn memory_test_seek_and_write() {
    let mut fs = MemoryFs::new();
    let dir = DirectoryHandle::new(&mut fs);
    let options = GetFileHandleOptions { create: true };
    let file = dir.get_file_handle_with_options(&mut fs, "test.txt", &options).unwrap();
    let write_options = CreateWritableOptions { keep_existing_data: false };
    let mut writer = file.create_writable_with_options(&mut fs, &write_options).unwrap();
    writer.write_at_cursor_pos(&mut fs, b"Hello".to_vec()).unwrap();
    writer.seek(&fs, 0).unwrap();
    writer.write_at_cursor_pos(&mut fs, b"Hi".to_vec()).unwrap();
    writer.close().unwrap();
    let data = file.read(&fs).unwrap();
    assert_eq!(data, b"Hi");
}

#[test]
fn test_seek_beyond_end() {
    let mut fs = MemoryFs::new();
    let dir = DirectoryHandle::new(&mut fs);
    let options = GetFileHandleOptions { create: true };
    let file = dir.get_file_handle_with_options(&mut fs, "test.txt", &options).unwrap();
    let write_options = CreateWritableOptions { keep_existing_data: false };
    let mut writer = file.create_writable_with_options(&mut fs, &write_options).unwrap();
    writer.write_at_cursor_pos(&mut fs, b"Hello".to_vec()).unwrap();
    let result = writer.seek(&fs, 10);
    assert!(result.is_err());
    assert!(result.unwrap_err().message().contains("cannot seek"));
}

#[test]
fn memory_test_keep_existing_data() {
    let mut fs = MemoryFs::new();
    let dir = DirectoryHandle::new(&mut fs);
    let options = GetFileHandleOptions { create: true };
    let file = dir.get_file_handle_with_options(&mut fs, "test.txt", &options).unwrap();
    let write_options = CreateWritableOptions { keep_existing_data: false };
    let mut writer = file.create_writable_with_options(&mut fs, &write_options).unwrap();
    writer.write_at_cursor_pos(&mut fs, b"Hello".to_vec()).unwrap();
    writer.close().unwrap();
    let keep_options = CreateWritableOptions { keep_existing_data: true };
    let mut writer2 = file.create_writable_with_options(&mut fs, &keep_options).unwrap();
    writer2.write_at_cursor_pos(&mut fs, b" World".to_vec()).unwrap();
    writer2.close().unwrap();
    let data = file.read(&fs).unwrap();
    assert_eq!(data, b" World");
}

#[test]
fn memory_truncate_existing_data() {
    let mut fs = MemoryFs::new();
    let dir = DirectoryHandle::new(&mut fs);
    let file = dir
        .get_file_handle_with_options(&mut fs, "test.txt", &GetFileHandleOptions { create: true })
        .unwrap();
    let mut writer = file.create_writable(&mut fs).unwrap();
    writer.write_at_cursor_pos(&mut fs, b"Hello World".to_vec()).unwrap();
    writer.close().unwrap();
    let mut writer2 = file
        .create_writable_with_options(&mut fs, &CreateWritableOptions { keep_existing_data: false })
        .unwrap();
    writer2.write_at_cursor_pos(&mut fs, b"Hi".to_vec()).unwrap();
    writer2.close().unwrap();
    assert_eq!(file.read(&fs).unwrap(), b"Hi");
}

#[test]
fn memory_entries_with_subdirectory() {
    let mut fs = MemoryFs::new();
    let dir = DirectoryHandle::new(&mut fs);
    let _file = dir
        .get_file_handle_with_options(&mut fs, "file.txt", &GetFileHandleOptions { create: true })
        .unwrap();
    let _sub = dir
        .get_directory_handle_with_options(&mut fs, "subdir", &GetDirectoryHandleOptions { create: true })
        .unwrap();
    let entries = dir.entries(&fs);
    assert_eq!(entries.len(), 2);
    let mut items: Vec<_> = entries
        .into_iter()
        .map(|r| {
            let (name, entry) = r.unwrap();
            let is_dir = matches!(entry, opfs::DirectoryEntry::Directory(_));
            (name, is_dir)
        })
        .collect();
    items.sort_by(|a, b| a.0.cmp(&b.0));
    assert_eq!(items[0].0, "file.txt");
    assert!(!items[0].1);
    assert_eq!(items[1].0, "subdir");
    assert!(items[1].1);
}

#[test]
fn memory_remove_with_default_options() {
    let mut fs = MemoryFs::new();
    let dir = DirectoryHandle::new(&mut fs);
    let _f = dir.get_file_handle_with_options(&mut fs, "a", &GetFileHandleOptions { create: true });
    dir.remove_entry_with_options(&mut fs, "a", &FileSystemRemoveOptions::default()).unwrap();
    assert!(dir.entries(&fs).is_empty());
}
