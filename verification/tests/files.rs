use purpy::error::Error;
use purpy::filemanager::{split_path, DirEntryType, FileManager};

fn archive(files: &[(&str, &[u8])]) -> Vec<u8> {
    let enc = flate2::write::GzEncoder::new(Vec::new(), flate2::Compression::default());
    let mut builder = tar::Builder::new(enc);
    for (path, data) in files {
        let mut header = tar::Header::new_gnu();
        header.set_size(data.len() as u64);
        header.set_mode(0o644);
        header.set_cksum();
        builder.append_data(&mut header, path, *data).unwrap();
    }
    builder.into_inner().unwrap().finish().unwrap()
}

#[test]
fn reads_files_of_an_archive() {
    let bytes = archive(&[
        ("assets/levels/b.tmx", b"bee"),
        ("assets/levels/a.tmx", b"ay"),
        ("assets/levels/world1/c.tmx", b"sea"),
        ("assets/levels/world1/d.tmx", b"dee"),
        ("assets/menus/start.tmx", b"go"),
        ("assets/levels/a.tmx", b"again"),
    ]);
    let files = FileManager::from_archive_bytes(&bytes).unwrap();
    assert_eq!(files.read("assets/levels/b.tmx").unwrap(), b"bee".to_vec());
    assert_eq!(files.read("assets/levels/a.tmx").unwrap(), b"again".to_vec());
    assert_eq!(files.read("assets/levels/../menus/./start.tmx").unwrap(), b"go".to_vec());
    assert_eq!(files.read_to_string("assets//menus/start.tmx").unwrap(), "go");
    assert_eq!(files.read("assets/nope"), Err(Error::FileNotFound("assets/nope".to_string())));
    assert_eq!(files.read("../x"), Err(Error::InvalidPath("../x".to_string())));

    let entries = files.read_dir("assets/levels").unwrap();
    let names: Vec<&str> = entries.iter().map(|e| e.name.as_str()).collect();
    assert_eq!(names, vec!["a.tmx", "b.tmx", "world1"]);
    assert_eq!(entries[0].file_type, DirEntryType::File);
    assert_eq!(entries[2].file_type, DirEntryType::Directory);
    assert_eq!(entries[2].full_path, "assets/levels/world1");
    let top = files.read_dir("").unwrap();
    assert_eq!(top.len(), 1);
    assert_eq!(top[0].name, "assets");
}

#[test]
fn rejects_bad_archives_and_text() {
    assert!(matches!(FileManager::from_archive_bytes(b"not an archive"), Err(Error::BadArchive)));
    let bytes = archive(&[("bin", &[0xff, 0xfe])]);
    let files = FileManager::from_archive_bytes(&bytes).unwrap();
    assert_eq!(files.read_to_string("bin"), Err(Error::NotUtf8("bin".to_string())));
}

#[test]
fn resolves_paths() {
    let parts = split_path("a/./b//c/../d").unwrap();
    assert_eq!(parts, vec!["a".to_string(), "b".to_string(), "d".to_string()]);
    assert_eq!(split_path("a/../.."), Err(Error::InvalidPath("a/../..".to_string())));
    assert_eq!(split_path("").unwrap(), Vec::<String>::new());
}

#[test]
fn entries_make_a_file_manager() {
    let files = FileManager::from_entries(vec![
        ("x/y".to_string(), vec![1]),
        ("x/z".to_string(), vec![2]),
        ("x/y".to_string(), vec![3]),
    ]);
    assert_eq!(files.read("x/y").unwrap(), vec![3]);
    assert_eq!(files.read_dir("x").unwrap().len(), 2);
}
