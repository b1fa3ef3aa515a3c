use cruft::differ::find_changes;
use cruft::file_info::{Comparison, FileInfo, FileType};
use cruft::order::{equal_path_range, path_less, sort_by_path};

fn rec(kind: FileType, path: &str, hash: Option<&str>, mtime: Option<u64>) -> FileInfo {
    FileInfo::new(kind, path.to_string(), hash.map(|h| h.to_string()), mtime, false)
}

#[test]
fn lexicographic_order() {
    assert!(path_less("/a", "/b"));
    assert!(path_less("/a", "/a/b"));
    assert!(!path_less("/a/b", "/a"));
    assert!(!path_less("/a", "/a"));
    assert!(path_less("", "/"));
    assert!(path_less("/usr/bin", "/usr/lib"));
}

#[test]
fn sort_orders_by_path_and_keeps_equal_paths_in_order() {
    let v = vec![
        rec(FileType::Obj, "/c", None, None),
        rec(FileType::Dir, "/a", None, None),
        rec(FileType::Obj, "/b", Some("1"), None),
        rec(FileType::Sym("t".to_string()), "/a", None, None),
        rec(FileType::Obj, "/b", Some("2"), None),
    ];
    let s = sort_by_path(v);
    let paths: Vec<&str> = s.iter().map(|f| f.path.as_str()).collect();
    assert_eq!(paths, vec!["/a", "/a", "/b", "/b", "/c"]);
    assert_eq!(s[0].ftype, FileType::Dir);
    assert_eq!(s[2].md5.as_deref(), Some("1"));
    assert_eq!(s[3].md5.as_deref(), Some("2"));
    assert!(sort_by_path(Vec::new()).is_empty());
}

#[test]
fn range_of_equal_paths() {
    let s = sort_by_path(vec![
        rec(FileType::Obj, "/a", None, None),
        rec(FileType::Dir, "/b", None, None),
        rec(FileType::Obj, "/b", None, None),
        rec(FileType::Obj, "/c", None, None),
    ]);
    assert_eq!(equal_path_range(&s, "/b"), (1, 3));
    assert_eq!(equal_path_range(&s, "/a"), (0, 1));
    let (lo, hi) = equal_path_range(&s, "/bb");
    assert_eq!(lo, hi);
    assert_eq!(lo, 3);
    assert_eq!(equal_path_range(&s, "/z"), (4, 4));
}

#[test]
fn change_against_records_of_same_identity() {
    let pkg = vec![
        rec(FileType::Obj, "/b", Some("H2"), Some(2)),
        rec(FileType::Dir, "/a", None, None),
        rec(FileType::Obj, "/a", Some("H1"), Some(1)),
    ];
    let files = vec![
        rec(FileType::Obj, "/a", Some("H9"), Some(1)),
        rec(FileType::Obj, "/b", Some("H2"), Some(3)),
        rec(FileType::Obj, "/zzz", Some("H2"), Some(3)),
        rec(FileType::Obj, "/a", Some("H9"), Some(7)),
        rec(FileType::Obj, "/a", Some("H1"), Some(1)),
    ];
    let c = find_changes(&pkg, &files, true, true);
    assert_eq!(
        c,
        vec![
            Comparison::DifferByHash,
            Comparison::DifferByMTime,
            Comparison::Equal,
            Comparison::DifferByBoth,
            Comparison::Equal,
        ]
    );
    let c = find_changes(&pkg, &files, false, true);
    assert_eq!(c[0], Comparison::Equal);
    assert_eq!(c[3], Comparison::DifferByMTime);
    assert!(find_changes(&pkg, &Vec::new(), true, true).is_empty());
}

#[test]
fn change_with_duplicate_package_records() {
    let pkg = vec![
        rec(FileType::Obj, "/a", Some("H1"), Some(1)),
        rec(FileType::Obj, "/a", Some("H2"), Some(2)),
    ];
    let files = vec![rec(FileType::Obj, "/a", Some("H2"), Some(5))];
    assert_eq!(find_changes(&pkg, &files, true, true), vec![Comparison::DifferByMTime]);
    assert_eq!(Comparison::DifferByMTime.indicator(), Some('T'));
    assert_eq!(Comparison::DifferByHash.indicator(), Some('M'));
    assert_eq!(Comparison::DifferByBoth.indicator(), Some('M'));
    assert_eq!(Comparison::Equal.indicator(), None);
}

#[test]
fn record_indicators() {
    assert_eq!(rec(FileType::Dir, "/a", None, None).indicator(), 'D');
    assert_eq!(rec(FileType::Sym("x".to_string()), "/a", None, None).indicator(), 'L');
    assert_eq!(rec(FileType::Obj, "/a", None, None).indicator(), 'R');
    let e = FileInfo::new(FileType::Obj, "/bin/ls".to_string(), None, None, true);
    assert_eq!(e.indicator(), 'E');
}
