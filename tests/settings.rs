use cruft::settings::{is_split_usr, profile_is_split_usr, root_link, usr_sbin_link, Settings};
use cruft::symlink::Symlink;

#[test]
fn defaults() {
    let s = Settings::default();
    assert_eq!(s.pkg_dir(), "/var/db/pkg");
    assert!(!s.md5() && !s.mtime() && !s.verbose() && !s.is_split_usr());
    assert!(s.ignore_files().is_none() && s.ignore_paths().is_none() && s.links_to_usr().is_none());
}

#[test]
fn flags_invert_configured_choices() {
    let mut s = Settings::default();
    s.md5 = true;
    let s = s.merge_args(true, true, true, Some("/tmp/pkg".to_string()), Some(vec!["/proc".to_string()]), None);
    assert!(!s.md5());
    assert!(s.mtime());
    assert!(s.verbose());
    assert_eq!(s.pkg_dir(), "/tmp/pkg");
    assert_eq!(s.ignore_paths().unwrap(), &vec!["/proc".to_string()]);
    assert!(s.ignore_files().is_none());
    let s = s.merge_args(false, false, false, None, None, Some(vec!["/etc/mtab".to_string()]));
    assert!(!s.md5() && s.mtime() && s.verbose());
    assert_eq!(s.pkg_dir(), "/tmp/pkg");
    assert_eq!(s.ignore_paths().unwrap().len(), 1);
    assert_eq!(s.ignore_files().unwrap()[0], "/etc/mtab");
}

#[test]
fn split_usr_needs_profile_and_no_links() {
    assert!(is_split_usr(true, false));
    assert!(!is_split_usr(true, true));
    assert!(!is_split_usr(false, false));
    assert!(profile_is_split_usr("../../var/db/repos/gentoo/profiles/default/linux/amd64/23.0/split-usr"));
    assert!(!profile_is_split_usr("../../var/db/repos/gentoo/profiles/default/linux/amd64/23.0"));
    assert!(!profile_is_split_usr(""));
}

#[test]
fn links_decide_layout() {
    let s = Settings::default().with_links(vec![Symlink::new("/lib", "/usr/lib")], true);
    assert!(!s.is_split_usr());
    assert_eq!(s.links_to_usr().unwrap().len(), 1);
    let s = Settings::default().with_links(Vec::new(), true);
    assert!(s.is_split_usr());
    assert!(s.links_to_usr().is_none());
}

#[test]
fn link_targets_are_taken_from_root() {
    let l = root_link("/lib", "usr/lib");
    assert_eq!(l.src(), "/lib");
    assert_eq!(l.dst(), "/usr/lib");
    assert_eq!(root_link("/bin", "/usr/bin").dst(), "/usr/bin");
}

#[test]
fn usr_sbin_target() {
    let l = usr_sbin_link("bin").unwrap();
    assert_eq!(l.src(), "/usr/sbin");
    assert_eq!(l.dst(), "/usr/bin");
    assert_eq!(usr_sbin_link("/usr/bin").unwrap().dst(), "/usr/bin");
    assert!(usr_sbin_link("../bin").is_none());
    assert!(usr_sbin_link("/opt/bin").is_none());
    assert!(usr_sbin_link("").is_none());
}

#[test]
fn trailing_slashes_leave_link_targets() {
    let l = usr_sbin_link("bin/").unwrap();
    assert_eq!(l.src(), "/usr/sbin");
    assert_eq!(l.dst(), "/usr/bin");
    assert_eq!(usr_sbin_link("bin//").unwrap().dst(), "/usr/bin");
    assert_eq!(usr_sbin_link("/usr/bin/").unwrap().dst(), "/usr/bin");
    assert!(usr_sbin_link("/").is_none());
    assert!(usr_sbin_link("a/b/").is_none());
    assert_eq!(root_link("/bin", "usr/bin/").dst(), "/usr/bin");
    assert_eq!(root_link("/lib", "/usr/lib//").dst(), "/usr/lib");
    assert_eq!(root_link("/x", "/").dst(), "/");
}
