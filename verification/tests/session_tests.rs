use deepvault_core::error::VaultError;
use deepvault_core::session::{SessionFile, SessionRegistry, VolumeSession};
use deepvault_core::store::TextMap;

fn paths(files: &[SessionFile]) -> Vec<String> {
    let mut v: Vec<String> = files.iter().map(|f| f.path.clone()).collect();
    v.sort();
    v
}

fn session() -> VolumeSession {
    VolumeSession::new("s1".to_string(), 1, 2)
}

#[test]
fn fresh_session_lists_nothing() {
    let s = session();
    assert_eq!(s.session_id(), "s1");
    assert_eq!(s.disk_index(), 1);
    assert_eq!(s.partition_number(), 2);
    assert!(s.list("/").is_empty());
    assert!(s.list("").is_empty());
}

#[test]
fn write_makes_a_file_record() {
    let mut s = session();
    s.write("/Documents/notes.txt", b"hello".to_vec(), 1700000000);
    let files = s.list("/Documents");
    assert_eq!(
        files,
        vec![SessionFile {
            name: "notes.txt".to_string(),
            path: "/Documents/notes.txt".to_string(),
            is_directory: false,
            size: 5,
            modified_at: 1700000000,
            content: Some(b"hello".to_vec()),
        }]
    );
    assert_eq!(s.read("/Documents/notes.txt").unwrap(), b"hello".to_vec());
}

#[test]
fn create_directory_makes_a_directory_record() {
    let mut s = session();
    s.create_directory("/Images", -5);
    assert_eq!(
        s.list("/Images"),
        vec![SessionFile {
            name: "Images".to_string(),
            path: "/Images".to_string(),
            is_directory: true,
            size: 0,
            modified_at: -5,
            content: None,
        }]
    );
    assert!(matches!(s.read("/Images"), Err(VaultError::IsDirectory)));
    assert!(matches!(s.read("/nothing"), Err(VaultError::FileNotFound)));
}

#[test]
fn names_are_last_segments() {
    let mut s = session();
    s.write("plain", vec![], 0);
    s.write("a/b/", vec![1], 0);
    s.write("/", vec![], 0);
    assert_eq!(s.list("plain")[0].name, "plain");
    assert_eq!(s.list("a/b/")[0].name, "");
    assert_eq!(s.list("/")[0].name, "");
}

#[test]
fn list_shows_the_path_itself_and_direct_children() {
    let mut s = session();
    s.create_directory("/a", 0);
    s.write("/a/x", vec![1], 0);
    s.write("/a/y", vec![2], 0);
    s.write("/a/sub/z", vec![3], 0);
    s.create_directory("/a/sub", 0);
    s.write("/ab", vec![4], 0);
    s.write("/b/x", vec![5], 0);
    assert_eq!(paths(&s.list("/a")), vec!["/a", "/a/sub", "/a/x", "/a/y"]);
    assert_eq!(paths(&s.list("/a/sub")), vec!["/a/sub", "/a/sub/z"]);
    assert_eq!(paths(&s.list("/b")), vec!["/b/x"]);
    // the children of the empty path are the paths with one leading slash
    assert_eq!(paths(&s.list("")), vec!["/a", "/ab"]);
    // the children of "/" begin with two slashes
    assert!(s.list("/").is_empty());
    s.write("//top", vec![], 0);
    assert_eq!(paths(&s.list("/")), vec!["//top"]);
}

#[test]
fn writing_then_deleting_the_parent_directory_removes_the_file() {
    let mut s = session();
    s.create_directory("/Documents", 1);
    s.write("/Documents/a.txt", b"a".to_vec(), 2);
    s.write("/Documents/deep/b.txt", b"b".to_vec(), 3);
    s.write("/Documentsx", b"c".to_vec(), 4);
    assert!(s.delete("/Documents").is_ok());
    assert!(s.list("/Documents").is_empty());
    assert!(s.list("/Documents/deep").is_empty());
    assert!(matches!(s.read("/Documents/a.txt"), Err(VaultError::FileNotFound)));
    assert!(matches!(s.read("/Documents/deep/b.txt"), Err(VaultError::FileNotFound)));
    assert_eq!(s.read("/Documentsx").unwrap(), b"c".to_vec());
}

#[test]
fn deleting_a_file_leaves_its_siblings() {
    let mut s = session();
    s.write("/d/a", b"a".to_vec(), 1);
    s.write("/d/b", b"b".to_vec(), 2);
    s.write("/d/a/under", b"u".to_vec(), 3);
    assert!(s.delete("/d/a").is_ok());
    assert_eq!(s.read("/d/b").unwrap(), b"b".to_vec());
    // "/d/a" was a file with a slash in its path: what is below it stays
    assert_eq!(s.read("/d/a/under").unwrap(), b"u".to_vec());
    assert!(matches!(s.read("/d/a"), Err(VaultError::FileNotFound)));
}

#[test]
fn deleting_a_path_without_slash_takes_what_is_below_it() {
    let mut s = session();
    s.write("top", b"t".to_vec(), 1);
    s.write("top/under", b"u".to_vec(), 2);
    s.write("topper", b"p".to_vec(), 3);
    s.write("other", b"o".to_vec(), 4);
    assert!(s.delete("top").is_ok());
    assert!(matches!(s.read("top/under"), Err(VaultError::FileNotFound)));
    assert_eq!(s.read("topper").unwrap(), b"p".to_vec());
    assert_eq!(s.read("other").unwrap(), b"o".to_vec());
}

#[test]
fn deleting_what_is_not_there_fails_and_changes_nothing() {
    let mut s = session();
    s.write("/a", b"a".to_vec(), 1);
    assert!(matches!(s.delete("/b"), Err(VaultError::FileNotFound)));
    assert!(matches!(s.delete("/a/"), Err(VaultError::FileNotFound)));
    assert_eq!(s.read("/a").unwrap(), b"a".to_vec());
}

#[test]
fn writing_twice_leaves_one_entry_with_the_latest_content() {
    let mut s = session();
    s.write("/f", b"first".to_vec(), 1);
    s.write("/f", b"second!".to_vec(), 2);
    let files = s.list("/f");
    assert_eq!(files.len(), 1);
    assert_eq!(files[0].content.as_deref(), Some(&b"second!"[..]));
    assert_eq!(files[0].size, 7);
    assert_eq!(files[0].modified_at, 2);
    // a directory takes the place of a file, and a file that of a directory
    s.create_directory("/f", 3);
    assert_eq!(s.list("/f").len(), 1);
    assert!(s.list("/f")[0].is_directory);
    s.write("/f", vec![], 4);
    assert!(!s.list("/f")[0].is_directory);
    assert_eq!(s.read("/f").unwrap(), Vec::<u8>::new());
}

#[test]
fn registry_operations() {
    let mut r = SessionRegistry::new();
    assert!(r.is_empty());
    assert!(!r.contains("s"));
    assert!(matches!(r.list("s", "/"), Err(VaultError::SessionNotFound)));
    assert!(matches!(r.read("s", "/f"), Err(VaultError::SessionNotFound)));
    assert!(matches!(r.write("s", "/f", vec![], 0), Err(VaultError::SessionNotFound)));
    assert!(matches!(r.create_directory("s", "/d", 0), Err(VaultError::SessionNotFound)));
    assert!(matches!(r.delete("s", "/f"), Err(VaultError::SessionNotFound)));
    assert!(!r.close("s"));

    r.open("s".to_string(), 1, 2);
    r.open("t".to_string(), 3, 4);
    assert!(!r.is_empty());
    assert!(r.list("s", "/").unwrap().is_empty());
    r.create_directory("s", "/d", 5).unwrap();
    r.write("s", "/d/f", b"x".to_vec(), 6).unwrap();
    assert_eq!(paths(&r.list("s", "/d").unwrap()), vec!["/d", "/d/f"]);
    assert!(r.list("t", "/d").unwrap().is_empty());
    assert_eq!(r.read("s", "/d/f").unwrap(), b"x".to_vec());
    assert!(matches!(r.read("s", "/d"), Err(VaultError::IsDirectory)));
    assert!(matches!(r.read("s", "/zz"), Err(VaultError::FileNotFound)));
    assert!(matches!(r.read("t", "/d/f"), Err(VaultError::FileNotFound)));
    assert!(matches!(r.delete("s", "/zz"), Err(VaultError::FileNotFound)));
    r.delete("s", "/d").unwrap();
    assert!(r.list("s", "/d").unwrap().is_empty());

    // opening again under the same identifier starts afresh
    r.write("t", "/keep", vec![1], 0).unwrap();
    r.open("t".to_string(), 3, 4);
    assert!(matches!(r.read("t", "/keep"), Err(VaultError::FileNotFound)));

    assert!(r.close("s"));
    assert!(!r.close("s"));
    assert!(r.contains("t"));
    assert!(matches!(r.list("s", "/"), Err(VaultError::SessionNotFound)));
}

#[test]
fn text_map_basics() {
    let mut m: TextMap<u32> = TextMap::new();
    assert_eq!(m.len(), 0);
    assert!(m.get("a").is_none());
    m.insert("a".to_string(), 1);
    m.insert("b".to_string(), 2);
    m.insert("ab".to_string(), 3);
    m.insert("a".to_string(), 4);
    assert_eq!(m.len(), 3);
    assert_eq!(m.get("a"), Some(&4));
    assert!(m.contains_key("ab"));
    assert!(!m.contains_key(""));
    assert_eq!(m.key_at(0), "a");
    assert_eq!(*m.value_at(0), 4);
    assert_eq!(m.key_at(2), "ab");
    assert_eq!(m.remove("b"), Some(2));
    assert_eq!(m.remove("b"), None);
    m.insert("abc".to_string(), 5);
    m.insert("b".to_string(), 6);
    m.remove_prefixed("ab");
    assert_eq!(m.len(), 2);
    assert_eq!(m.get("a"), Some(&4));
    assert_eq!(m.get("b"), Some(&6));
    m.remove_prefixed("");
    assert_eq!(m.len(), 0);
}
