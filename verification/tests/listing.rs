use fs_snapshot::{File, FileMap, Metadata, Url};

fn url_of(s: &str) -> Url {
    Url::new(s.as_bytes().to_vec())
}

fn plain(size: u64) -> Metadata {
    Metadata { is_file: true, is_dir: false, is_symlink: false, size }
}

fn snap(path: &str, size: u64) -> File {
    File::from_meta(url_of(path), plain(size), None, None)
}

#[test]
fn singleton_aggregation() {
    let m = snap("/data/x", 5).into_map();
    assert_eq!(m.len(), 1);
    assert_eq!(m.nth(0).url().bytes().as_slice(), b"/data/x");
    assert_eq!(m.nth(0).length, 5);
}

#[test]
fn replacement_not_merge() {
    let s1 = snap("/data/x", 5);
    let s2 = snap("/data/x", 99);
    let mut m = s1.into_map();
    m.insert(s2);
    assert_eq!(m.len(), 1);
    assert_eq!(m.nth(0).length, 99);
}

#[test]
fn ordering_independent_of_insertion() {
    let a = snap("/a", 1);
    let b = snap("/b", 2);
    let mut m1 = FileMap::new();
    m1.insert(b.clone());
    m1.insert(a.clone());
    let mut m2 = FileMap::new();
    m2.insert(a);
    m2.insert(b);
    for m in [&m1, &m2] {
        assert_eq!(m.len(), 2);
        assert_eq!(m.nth(0).url().bytes().as_slice(), b"/a");
        assert_eq!(m.nth(1).url().bytes().as_slice(), b"/b");
    }
}

#[test]
fn three_entries_iterate_sorted() {
    let mut m = FileMap::new();
    m.insert(snap("/c", 3));
    m.insert(snap("/a", 1));
    m.insert(snap("/b", 2));
    assert_eq!(m.len(), 3);
    assert_eq!(m.nth(0).url().bytes().as_slice(), b"/a");
    assert_eq!(m.nth(1).url().bytes().as_slice(), b"/b");
    assert_eq!(m.nth(2).url().bytes().as_slice(), b"/c");
}

#[test]
fn get_by_key() {
    let mut m = FileMap::new();
    m.insert(snap("/a", 1));
    m.insert(snap("/b", 2));
    assert_eq!(m.get(&url_of("/b")).unwrap().length, 2);
    assert!(m.get(&url_of("/zz")).is_none());
}

#[test]
fn empty_collection() {
    let m = FileMap::new();
    assert_eq!(m.len(), 0);
    assert!(m.get(&url_of("/a")).is_none());
}
