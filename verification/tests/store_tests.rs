use disk_cache::disk_cache::{with_io_context, DiskCache, ErrorKind, FsError};
use disk_cache::fs_model::FileSys;
use disk_cache::paths::{AbsPath, RelPath};

fn strings(parts: &[&str]) -> Vec<String> {
    parts.iter().map(|p| p.to_string()).collect()
}

fn rel(parts: &[&str]) -> RelPath {
    RelPath { components: strings(parts) }
}

fn cache() -> DiskCache {
    DiskCache::new(AbsPath::from_components(strings(&["tmp", "cache"])))
}

#[test]
fn set_then_get_round_trips() {
    let store = cache();
    let mut fs = FileSys::empty();
    let data: Vec<u8> = vec![1, 2, 3, 250];
    store.set(&mut fs, &rel(&["a", "b", "out.txt"]), &data).unwrap();
    let back = store.get(&fs, &rel(&["a", "b", "out.txt"])).unwrap();
    assert_eq!(back, data);
}

#[test]
fn set_creates_missing_parent_directories() {
    let store = cache();
    let mut fs = FileSys::empty();
    assert!(!fs.is_dir(&strings(&["tmp", "cache", "a"])));
    store.set(&mut fs, &rel(&["a", "b", "out.txt"]), &vec![7]).unwrap();
    assert!(fs.is_dir(&strings(&["tmp", "cache", "a"])));
    assert!(fs.is_dir(&strings(&["tmp", "cache", "a", "b"])));
}

#[test]
fn second_set_overwrites_and_leaves_no_temporary() {
    let store = cache();
    let mut fs = FileSys::empty();
    let path = rel(&["a", "out.bin"]);
    store.set(&mut fs, &path, &vec![1, 1, 1]).unwrap();
    store.set(&mut fs, &path, &vec![2, 2]).unwrap();
    assert_eq!(store.get(&fs, &path).unwrap(), vec![2, 2]);
    let temp = rel(&["a", "out.bin.tmp"]);
    let leftover = store.get(&fs, &temp);
    assert!(leftover.is_err());
    assert_eq!(leftover.unwrap_err().kind, ErrorKind::NotFound);
}

#[test]
fn get_of_a_path_never_written_is_not_found() {
    let store = cache();
    let fs = FileSys::empty();
    let r = store.get(&fs, &rel(&["nope.txt"]));
    let e = r.unwrap_err();
    assert_eq!(e.kind, ErrorKind::NotFound);
    assert_eq!(e.detail, "tmp/cache/nope.txt");
}

#[test]
fn interrupted_write_leaves_target_unchanged() {
    let store = cache();
    let mut fs = FileSys::empty();
    let path = rel(&["dir", "f.txt"]);
    store.set(&mut fs, &path, &vec![10, 20]).unwrap();
    // The failure is injected by stopping after the temporary file is
    // written, before the rename.
    store.set_prepare(&mut fs, &path, &vec![99]).unwrap();
    assert_eq!(store.get(&fs, &path).unwrap(), vec![10, 20]);
    // Completing the rename afterwards publishes the new content.
    store.set_commit(&mut fs, &path).unwrap();
    assert_eq!(store.get(&fs, &path).unwrap(), vec![99]);
}

#[test]
fn commit_without_a_prepared_temporary_fails_and_changes_nothing() {
    let store = cache();
    let mut fs = FileSys::empty();
    let path = rel(&["dir", "f.txt"]);
    store.set(&mut fs, &path, &vec![5]).unwrap();
    let r = store.set_commit(&mut fs, &path);
    assert_eq!(r.unwrap_err().kind, ErrorKind::NotFound);
    assert_eq!(store.get(&fs, &path).unwrap(), vec![5]);
}

#[test]
fn ensure_dir_exists_is_idempotent() {
    let store = cache();
    let mut fs = FileSys::empty();
    let dir = AbsPath::from_components(strings(&["tmp", "cache", "sub"]));
    store.ensure_dir_exists(&mut fs, &dir).unwrap();
    assert!(fs.is_dir(&strings(&["tmp", "cache", "sub"])));
    assert!(fs.is_dir(&strings(&["tmp"])));
    store.ensure_dir_exists(&mut fs, &dir).unwrap();
    assert!(fs.is_dir(&strings(&["tmp", "cache", "sub"])));
}

#[test]
fn root_level_entry_needs_no_new_directories() {
    let store = cache();
    let mut fs = FileSys::empty();
    store.set(&mut fs, &rel(&["out.txt"]), &vec![3]).unwrap();
    assert_eq!(store.get(&fs, &rel(&["out.txt"])).unwrap(), vec![3]);
}

#[test]
fn io_context_keeps_the_kind_and_appends_the_path() {
    let e = FsError { kind: ErrorKind::Other, detail: "disk fault".to_string() };
    let annotated = with_io_context(&e, "tmp/cache/x");
    assert_eq!(annotated.kind, ErrorKind::Other);
    assert_eq!(annotated.detail, "disk fault (for 'tmp/cache/x')");
}
