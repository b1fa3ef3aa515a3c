use cruft::digest::ContentDigest;
use cruft::file_system::file::{File, Stat};

#[test]
fn digest_of_nothing() {
    assert_eq!(ContentDigest::new().finish(), "d41d8cd98f00b204e9800998ecf8427e");
}

#[test]
fn digest_over_pieces_equals_digest_of_whole() {
    let mut d = ContentDigest::new();
    d.update(b"a");
    d.update(b"bc");
    assert_eq!(d.finish(), "900150983cd24fb0d6963f7d28e17f72");
    let mut w = ContentDigest::new();
    w.update(b"abc");
    assert_eq!(w.finish(), "900150983cd24fb0d6963f7d28e17f72");
}

#[test]
fn digest_lands_in_scanned_entry() {
    let mut d = ContentDigest::new();
    d.update(b"hello\n");
    let f = File::new("/etc/hello", Stat::Regular, None, false).with_md5(d.finish());
    assert_eq!(f.md5.as_deref(), Some("b1946ac92492d2347c6235b4d2611184"));
}
