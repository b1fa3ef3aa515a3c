use cruft::file_info::FileType;
use cruft::file_system::file::{File, Stat};
use cruft::file_system::{is_executable, is_ignored, needs_md5, stat, stat_of, EntryMeta};
use cruft::settings::Settings;

fn meta() -> EntryMeta {
    EntryMeta {
        is_symlink: false,
        is_dir: false,
        is_block_device: false,
        is_char_device: false,
        is_fifo: false,
        is_socket: false,
        mode: 0o644,
        mtime: 1700000000,
    }
}

#[test]
fn ignored_directory_is_left_out() {
    let mut s = Settings::default();
    s.ignore_paths = Some(vec!["/proc".to_string(), "/sys".to_string()]);
    s.ignore_files = Some(vec!["/etc/mtab".to_string()]);
    assert!(is_ignored("/proc", true, &s));
    assert!(is_ignored("/sys", true, &s));
    assert!(!is_ignored("/proc/1", true, &s));
    assert!(!is_ignored("/usr", true, &s));
    assert!(!is_ignored("/proc", false, &s));
    assert!(is_ignored("/etc/mtab", false, &s));
    assert!(!is_ignored("/etc/mtab", true, &s));
    assert!(!is_ignored("/etc/fstab", false, &s));
}

#[test]
fn nothing_is_ignored_without_lists() {
    let s = Settings::default();
    assert!(!is_ignored("/proc", true, &s));
    assert!(!is_ignored("/etc/mtab", false, &s));
}

#[test]
fn entries_are_classified() {
    let m = meta();
    assert_eq!(stat_of(&m, String::new()), Stat::Regular);
    assert_eq!(stat_of(&EntryMeta { mode: 0o755, ..m }, String::new()), Stat::Executable);
    assert_eq!(stat_of(&EntryMeta { mode: 0o4755, ..m }, String::new()), Stat::Suid);
    assert_eq!(stat_of(&EntryMeta { is_dir: true, mode: 0o755, ..m }, String::new()), Stat::Directory);
    assert_eq!(stat_of(&EntryMeta { is_symlink: true, ..m }, "t".to_string()), Stat::Symlink("t".to_string()));
    assert_eq!(stat_of(&EntryMeta { is_block_device: true, ..m }, String::new()), Stat::BlockDevice);
    assert_eq!(stat_of(&EntryMeta { is_char_device: true, ..m }, String::new()), Stat::CharDevice);
    assert_eq!(stat_of(&EntryMeta { is_fifo: true, ..m }, String::new()), Stat::Fifo);
    assert_eq!(stat_of(&EntryMeta { is_socket: true, ..m }, String::new()), Stat::Socket);
}

#[test]
fn time_is_kept_only_when_compared() {
    let mut s = Settings::default();
    let f = stat("/etc/foo", &meta(), String::new(), &s);
    assert_eq!(f.mtime, None);
    s.mtime = true;
    let f = stat("/etc/foo", &meta(), String::new(), &s);
    assert_eq!(f.mtime, Some(1700000000));
    let d = stat("/etc", &EntryMeta { is_dir: true, ..meta() }, String::new(), &s);
    assert_eq!(d.mtime, None);
}

#[test]
fn only_regular_files_are_digested() {
    let mut s = Settings::default();
    let f = File::new("/etc/foo", Stat::Regular, None, false);
    assert!(!needs_md5(&f, &s));
    s.md5 = true;
    assert!(needs_md5(&f, &s));
    assert!(needs_md5(&File::new("/bin/su", Stat::Suid, None, false), &s));
    assert!(!needs_md5(&File::new("/dev/sda", Stat::BlockDevice, None, false), &s));
    assert!(!needs_md5(&File::new("/etc", Stat::Directory, None, false), &s));
}

#[test]
fn scanned_entry_becomes_record() {
    let f = File::new("/bin/ls", Stat::Executable, Some(5), true).with_md5("abc".to_string());
    assert_eq!(f.file_type(), FileType::Obj);
    let r = f.to_file_info();
    assert_eq!(r.path, "/bin/ls");
    assert_eq!(r.ftype, FileType::Obj);
    assert_eq!(r.md5.as_deref(), Some("abc"));
    assert_eq!(r.mtime, Some(5));
    assert!(r.executable);
    let l = File::new("/lib", Stat::Symlink("usr/lib".to_string()), None, false);
    assert_eq!(l.file_type(), FileType::Sym("usr/lib".to_string()));
    assert_eq!(File::new("/dev/null", Stat::CharDevice, None, false).file_type(), FileType::Obj);
    assert_eq!(File::new("/etc", Stat::Directory, None, false).file_type(), FileType::Dir);
}

#[test]
fn indicators() {
    assert_eq!(Stat::Directory.indicator(), 'D');
    assert_eq!(Stat::Regular.indicator(), 'R');
    assert_eq!(Stat::Executable.indicator(), 'E');
    assert_eq!(Stat::Suid.indicator(), 'S');
    assert_eq!(Stat::Symlink(String::new()).indicator(), 'L');
    assert_eq!(Stat::BlockDevice.indicator(), 'B');
    assert_eq!(Stat::CharDevice.indicator(), 'C');
    assert_eq!(Stat::Fifo.indicator(), 'F');
    assert_eq!(Stat::Socket.indicator(), 'Z');
}

#[test]
fn executable_means_some_execute_bit() {
    let m = meta();
    let setuid_no_exec = EntryMeta { mode: 0o4644, ..m };
    assert_eq!(stat_of(&setuid_no_exec, String::new()), Stat::Suid);
    assert!(!is_executable(&setuid_no_exec));
    assert!(!stat("/usr/bin/x", &setuid_no_exec, String::new(), &Settings::default()).to_file_info().executable);
    let setuid_exec = EntryMeta { mode: 0o4755, ..m };
    assert!(stat("/usr/bin/su", &setuid_exec, String::new(), &Settings::default()).to_file_info().executable);
    let device = EntryMeta { is_char_device: true, mode: 0o755, ..m };
    assert!(is_executable(&device));
    assert!(stat("/dev/x", &device, String::new(), &Settings::default()).to_file_info().executable);
    assert!(is_executable(&EntryMeta { is_block_device: true, mode: 0o710, ..m }));
    assert!(!is_executable(&EntryMeta { is_fifo: true, mode: 0o755, ..m }));
    assert!(!is_executable(&EntryMeta { is_socket: true, mode: 0o755, ..m }));
    assert!(!is_executable(&EntryMeta { is_dir: true, mode: 0o755, ..m }));
    assert!(!is_executable(&EntryMeta { is_symlink: true, mode: 0o777, ..m }));
    assert!(!is_executable(&m));
    assert!(is_executable(&EntryMeta { mode: 0o644 | 0o001, ..m }));
}
