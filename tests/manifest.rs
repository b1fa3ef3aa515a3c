use cruft::catalog::package::{parse_entry, parse_lines, ManifestError, MalformedManifestLine};
use cruft::file_info::FileType;
use cruft::settings::Settings;
use cruft::symlink::Symlink;

fn comparing_all() -> Settings {
    let mut s = Settings::default();
    s.md5 = true;
    s.mtime = true;
    s
}

#[test]
fn obj_line_gives_path_hash_and_time() {
    let f = parse_entry(
        "obj /usr/bin/foo d41d8cd98f00b204e9800998ecf8427e 1700000000",
        &comparing_all(),
    )
    .unwrap();
    assert_eq!(f.path, "/usr/bin/foo");
    assert_eq!(f.file_type, FileType::Obj);
    assert_eq!(f.md5.as_deref(), Some("d41d8cd98f00b204e9800998ecf8427e"));
    assert_eq!(f.mtime, Some(1700000000));
}

#[test]
fn dir_line_gives_directory_without_hash_or_time() {
    let f = parse_entry("dir /etc/foo", &comparing_all()).unwrap();
    assert_eq!(f.path, "/etc/foo");
    assert_eq!(f.file_type, FileType::Dir);
    assert_eq!(f.md5, None);
    assert_eq!(f.mtime, None);
}

#[test]
fn sym_line_gives_path_target_and_time() {
    let f = parse_entry("sym /usr/lib/libfoo.so -> libfoo.so.1 1700000000", &comparing_all()).unwrap();
    assert_eq!(f.path, "/usr/lib/libfoo.so");
    assert_eq!(f.file_type, FileType::Sym("libfoo.so.1".to_string()));
    assert_eq!(f.md5, None);
    assert_eq!(f.mtime, Some(1700000000));
}

#[test]
fn paths_with_spaces_are_kept_whole() {
    let s = comparing_all();
    let f = parse_entry("obj /usr/share/My Docs/a b.txt 0123abcd 42", &s).unwrap();
    assert_eq!(f.path, "/usr/share/My Docs/a b.txt");
    assert_eq!(f.md5.as_deref(), Some("0123abcd"));
    assert_eq!(f.mtime, Some(42));
    let f = parse_entry("dir /opt/with space", &s).unwrap();
    assert_eq!(f.path, "/opt/with space");
    let f = parse_entry("sym /opt/a link -> some target 7", &s).unwrap();
    assert_eq!(f.path, "/opt/a link");
    assert_eq!(f.file_type, FileType::Sym("some target".to_string()));
    assert_eq!(f.mtime, Some(7));
}

#[test]
fn fields_not_asked_for_are_dropped() {
    let s = Settings::default();
    let f = parse_entry("obj /usr/bin/foo d41d8cd98f00b204e9800998ecf8427e 1700000000", &s).unwrap();
    assert_eq!(f.md5, None);
    assert_eq!(f.mtime, None);
    let f = parse_entry("sym /a -> b 5", &s).unwrap();
    assert_eq!(f.mtime, None);
}

#[test]
fn malformed_lines_are_rejected() {
    let s = comparing_all();
    for line in [
        "",
        "dir",
        "dir ",
        "fil /etc/foo",
        "obj /usr/bin/foo 1700000000",
        "obj /usr/bin/foo abc notanumber",
        "obj /usr/bin/foo abc 99999999999999999999",
        "obj /usr/bin/foo abc -1",
        "sym /usr/lib/libfoo.so libfoo.so.1 1700000000",
        "sym /usr/lib/libfoo.so -> 1700000000",
        "sym /a -> b x",
    ] {
        assert_eq!(parse_entry(line, &s).unwrap_err(), MalformedManifestLine, "{line}");
    }
}

#[test]
fn time_may_carry_a_plus_sign() {
    let f = parse_entry("obj /x h +1700000000", &comparing_all()).unwrap();
    assert_eq!(f.mtime, Some(1700000000));
    let f = parse_entry("sym /l -> t +7", &comparing_all()).unwrap();
    assert_eq!(f.mtime, Some(7));
    assert!(parse_entry("obj /x h +", &comparing_all()).is_err());
    assert!(parse_entry("obj /x h ++1", &comparing_all()).is_err());
    assert!(parse_entry("obj /x h 1+", &comparing_all()).is_err());
}

#[test]
fn largest_time_is_accepted() {
    let f = parse_entry("obj /x h 18446744073709551615", &comparing_all()).unwrap();
    assert_eq!(f.mtime, Some(u64::MAX));
    assert!(parse_entry("obj /x h 18446744073709551616", &comparing_all()).is_err());
}

#[test]
fn manifest_paths_are_rewritten_to_merged_usr() {
    let mut s = Settings::default();
    s.links_to_usr = Some(vec![Symlink::new("/lib", "/usr/lib")]);
    let f = parse_entry("obj /lib/foo.so h 1", &s).unwrap();
    assert_eq!(f.path, "/usr/lib/foo.so");
    s.split_usr = true;
    let f = parse_entry("obj /lib/foo.so h 1", &s).unwrap();
    assert_eq!(f.path, "/lib/foo.so");
}

#[test]
fn parse_lines_reports_first_bad_line() {
    let s = Settings::default();
    let lines = vec!["dir /a".to_string(), "obj /a/b h 1".to_string(), "bogus".to_string(), "dir /c".to_string()];
    assert_eq!(parse_lines(&lines, &s).unwrap_err(), ManifestError { line: 2 });
    let files = parse_lines(&lines[..2].to_vec(), &s).unwrap();
    assert_eq!(files.len(), 2);
    assert_eq!(files[1].path, "/a/b");
}
