use fs_snapshot::{File, IoError, Metadata, Url};

fn url(s: &str) -> Url {
    Url::new(s.as_bytes().to_vec())
}

fn meta(is_file: bool, is_dir: bool, is_symlink: bool, size: u64) -> Metadata {
    Metadata { is_file, is_dir, is_symlink, size }
}

#[test]
fn plain_file_snapshot() {
    let f = File::from_meta(url("/home/user/bin"), meta(true, false, false, 42), None, None);
    assert!(!f.is_link);
    assert!(f.link_to().is_none());
    assert_eq!(f.length, 42);
    assert!(f.is_file());
    assert!(!f.is_dir());
    assert!(!f.is_hidden);
}

#[test]
fn followed_symlink_snapshot() {
    let f = File::from_meta(
        url("/home/user/link"),
        meta(false, false, true, 9),
        Some(meta(true, false, false, 4096)),
        Some(url("/home/user/target")),
    );
    assert!(f.is_link);
    assert_eq!(f.length, 4096);
    assert_eq!(f.link_to().unwrap().bytes().as_slice(), b"/home/user/target");
    assert!(f.is_file());
}

#[test]
fn dangling_symlink_snapshot() {
    let f = File::from_meta(url("/home/user/broken"), meta(false, false, true, 9), None, None);
    assert!(f.is_link);
    assert!(f.link_to().is_none());
    assert_eq!(f.length, 9);
}

#[test]
fn followed_but_target_unreadable() {
    let f = File::from_meta(
        url("/l"),
        meta(false, false, true, 1),
        Some(meta(true, false, false, 100)),
        None,
    );
    assert!(f.is_link);
    assert!(f.link_to().is_none());
    assert_eq!(f.length, 100);
}

#[test]
fn hidden_rule() {
    let env = File::from_meta(url("/srv/.env"), meta(true, false, false, 1), None, None);
    assert!(env.is_hidden);
    let bin = File::from_meta(url("/usr/bin"), meta(false, true, false, 1), None, None);
    assert!(!bin.is_hidden);
    let root = File::from_meta(url("/"), meta(false, true, false, 1), None, None);
    assert!(!root.is_hidden);
}

#[test]
fn fatal_not_found() {
    let r = File::from(url("/no/such/file"), Err(IoError::NotFound), None, None);
    assert_eq!(r, Err(IoError::NotFound));
}

#[test]
fn fatal_permission_denied() {
    let r = File::from(url("/root/secret"), Err(IoError::PermissionDenied), None, None);
    assert_eq!(r, Err(IoError::PermissionDenied));
}

#[test]
fn from_success() {
    let r = File::from(url("/a"), Ok(meta(true, false, false, 5)), None, None);
    let f = r.unwrap();
    assert_eq!(f.length, 5);
    assert!(!f.is_link);
}

#[test]
fn name_stem_parent() {
    let f = File::from_meta(url("/a/b.tar.gz"), meta(true, false, false, 0), None, None);
    assert_eq!(f.name().unwrap(), b"b.tar.gz".to_vec());
    assert_eq!(f.stem().unwrap(), b"b.tar".to_vec());
    assert_eq!(f.parent().unwrap().bytes().as_slice(), b"/a");
    assert_eq!(f.url().bytes().as_slice(), b"/a/b.tar.gz");
}

#[test]
fn dotfile_stem_is_whole_name() {
    let u = url("/x/.env");
    assert_eq!(u.file_name().unwrap(), b".env".to_vec());
    assert_eq!(u.file_stem().unwrap(), b".env".to_vec());
}

#[test]
fn bare_name_has_itself_as_stem() {
    let u = url("bin");
    assert_eq!(u.file_name().unwrap(), b"bin".to_vec());
    assert_eq!(u.file_stem().unwrap(), b"bin".to_vec());
    assert!(u.parent_url().is_none());
}

#[test]
fn root_has_no_name_or_parent() {
    let u = url("/");
    assert!(u.file_name().is_none());
    assert!(u.file_stem().is_none());
    assert!(u.parent_url().is_none());
}

#[test]
fn parent_of_top_level_is_root() {
    let u = url("/etc");
    assert_eq!(u.parent_url().unwrap().bytes().as_slice(), b"/");
}

#[test]
fn name_display_ascii() {
    let f = File::from_meta(url("/srv/.env"), meta(true, false, false, 0), None, None);
    assert_eq!(f.name_display().unwrap(), ".env");
}

#[test]
fn name_display_lossy_replacement() {
    let f = File::from_meta(
        Url::new(vec![47, 102, 0xFF]),
        meta(true, false, false, 0),
        None,
        None,
    );
    assert_eq!(f.name_display().unwrap(), "f\u{FFFD}");
}

#[test]
fn url_order_is_bytewise() {
    assert!(url("/a").lt(&url("/b")));
    assert!(url("/a").lt(&url("/a/b")));
    assert!(!url("/b").lt(&url("/a")));
    assert!(!url("/a").lt(&url("/a")));
}
