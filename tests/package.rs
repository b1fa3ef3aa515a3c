use cruft::catalog::file::File;
use cruft::file_info::FileType;
use cruft::package::Package;

#[test]
fn package_keeps_records_in_order() {
    let mut p = Package::new("/var/db/pkg/app-misc/foo-1.0/CONTENTS");
    assert_eq!(p.contents_path(), "/var/db/pkg/app-misc/foo-1.0/CONTENTS");
    assert!(p.files().is_empty());
    p.add_file(File::new("/usr/bin/foo", FileType::Obj, "abc".to_string(), Some(3)).to_file_info());
    p.add_file(File::new("/usr/share/foo", FileType::Dir, String::new(), None).to_file_info());
    assert_eq!(p.files().len(), 2);
    assert_eq!(p.files()[0].path, "/usr/bin/foo");
    assert_eq!(p.files()[0].md5.as_deref(), Some("abc"));
    assert_eq!(p.files()[1].ftype, FileType::Dir);
    assert_eq!(p.files()[1].md5, None);
}
