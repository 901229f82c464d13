use binscan::extractors::common::{
    name_is_confined, Chroot, ExtractionResult, Extractor, ExtractorType,
};

#[test]
fn new_sandbox_is_empty() {
    let chroot = Chroot::new("/tmp/extractions");
    assert_eq!(chroot.root(), "/tmp/extractions");
    assert_eq!(chroot.file_count(), 0);
    assert_eq!(chroot.contents("anything"), None);
}

#[test]
fn create_file_stages_the_bytes() {
    let mut chroot = Chroot::new("out");
    assert!(chroot.create_file("a.bin", b"hello"));
    assert_eq!(chroot.contents("a.bin"), Some(&b"hello".to_vec()));
    assert_eq!(chroot.file_count(), 1);
    assert_eq!(chroot.file(0).name, "a.bin");
    assert_eq!(chroot.file(0).data, b"hello");
    assert!(chroot.file(0).replaces);
}

#[test]
fn create_file_overwrites() {
    let mut chroot = Chroot::new("out");
    assert!(chroot.create_file("a.bin", b"hello"));
    assert!(chroot.create_file("a.bin", b"bye"));
    assert_eq!(chroot.contents("a.bin"), Some(&b"bye".to_vec()));
    assert_eq!(chroot.file_count(), 1);
}

#[test]
fn append_creates_or_appends() {
    let mut chroot = Chroot::new("out");
    assert!(chroot.append_to_file("log", b"one,"));
    assert!(!chroot.file(0).replaces);
    assert!(chroot.append_to_file("log", b"two,"));
    assert!(chroot.append_to_file("log", b""));
    assert!(chroot.append_to_file("other", b"x"));
    assert!(chroot.append_to_file("log", b"three"));
    assert_eq!(chroot.contents("log"), Some(&b"one,two,three".to_vec()));
    assert_eq!(chroot.contents("other"), Some(&b"x".to_vec()));
    assert_eq!(chroot.file_count(), 2);
    assert!(!chroot.file(0).replaces);
}

#[test]
fn append_after_create_keeps_the_replacement() {
    let mut chroot = Chroot::new("out");
    assert!(chroot.create_file("f", b"ab"));
    assert!(chroot.append_to_file("f", b"cd"));
    assert_eq!(chroot.contents("f"), Some(&b"abcd".to_vec()));
    assert!(chroot.file(0).replaces);
    assert!(chroot.create_file("f", b"z"));
    assert_eq!(chroot.contents("f"), Some(&b"z".to_vec()));
}

#[test]
fn escaping_names_are_refused() {
    let escapes = [
        "../evil",
        "..",
        "a/../../evil",
        "a/..",
        "a/../b",
        "/etc/passwd",
        "/",
        "",
        "..\\evil",
        "\\windows\\system32",
        "a\\..\\b",
        "dir/..\\x",
        "nul\0byte",
    ];
    for name in escapes {
        let mut chroot = Chroot::new("out");
        assert!(chroot.create_file("kept", b"1"));
        assert!(!chroot.create_file(name, b"data"), "create {name:?}");
        assert!(!chroot.append_to_file(name, b"data"), "append {name:?}");
        assert!(!name_is_confined(name.as_bytes()), "{name:?}");
        assert_eq!(chroot.file_count(), 1);
        assert_eq!(chroot.contents(name), None);
        assert_eq!(chroot.contents("kept"), Some(&b"1".to_vec()));
    }
}

#[test]
fn harmless_names_are_accepted() {
    let names = [
        "autel.decoded",
        "decompressed.bin",
        "a/b/c",
        "..hidden",
        "hidden..",
        "a..b",
        "...",
        "a/.../b",
        ".",
        "./a",
        "a/./b",
        ".. ",
        "dir/..x",
        "x../y",
    ];
    for name in names {
        let mut chroot = Chroot::new("out");
        assert!(name_is_confined(name.as_bytes()), "{name:?}");
        assert!(chroot.create_file(name, b"data"), "create {name:?}");
        assert!(chroot.append_to_file(name, b"more"), "append {name:?}");
        assert_eq!(chroot.contents(name), Some(&b"datamore".to_vec()));
    }
}

#[test]
fn staged_names_never_escape() {
    let mut chroot = Chroot::new("out");
    let attempts = ["ok", "../up", "a/b", "/abs", "x/../y", "fine.txt", ".."];
    for name in attempts {
        chroot.create_file(name, b"1");
        chroot.append_to_file(name, b"2");
    }
    assert_eq!(chroot.file_count(), 3);
    for index in 0..chroot.file_count() {
        let name = &chroot.file(index).name;
        assert!(!name.starts_with('/'));
        assert!(name.split(['/', '\\']).all(|segment| segment != ".."));
    }
}

#[test]
fn failed_result_is_the_default() {
    let result = ExtractionResult::default();
    assert!(!result.success);
    assert_eq!(result.size, None);
}

#[test]
fn default_extractor_extracts_nothing() {
    assert_eq!(Extractor::default().utility, ExtractorType::NotExtractable);
}
