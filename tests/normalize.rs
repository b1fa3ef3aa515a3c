use cruft::normalize::{normalize_path, path_is_under};
use cruft::symlink::Symlink;

fn usr_links() -> Vec<Symlink> {
    vec![Symlink::new("/lib", "/usr/lib"), Symlink::new("/bin", "/usr/bin")]
}

#[test]
fn mapped_prefix_is_replaced() {
    assert_eq!(normalize_path("/lib/foo.so", &usr_links()), "/usr/lib/foo.so");
    assert_eq!(normalize_path("/bin/sh", &usr_links()), "/usr/bin/sh");
    assert_eq!(normalize_path("/lib", &usr_links()), "/usr/lib");
}

#[test]
fn unmapped_path_is_unchanged() {
    assert_eq!(normalize_path("/etc/passwd", &usr_links()), "/etc/passwd");
    assert_eq!(normalize_path("/lib64/ld.so", &usr_links()), "/lib64/ld.so");
    assert_eq!(normalize_path("/etc/passwd", &Vec::new()), "/etc/passwd");
}

#[test]
fn normalizing_twice_changes_nothing_more() {
    let once = normalize_path("/lib/foo.so", &usr_links());
    assert_eq!(normalize_path(&once, &usr_links()), once);
}

#[test]
fn only_first_mapping_applies() {
    let links = vec![Symlink::new("/sbin", "/usr/sbin"), Symlink::new("/usr/sbin", "/usr/bin")];
    assert_eq!(normalize_path("/sbin/init", &links), "/usr/sbin/init");
}

#[test]
fn component_prefixes() {
    assert!(path_is_under("/lib/x", "/lib"));
    assert!(path_is_under("/lib", "/lib"));
    assert!(!path_is_under("/lib64", "/lib"));
    assert!(!path_is_under("/li", "/lib"));
}
