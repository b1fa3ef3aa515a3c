use vstd::prelude::*;

pub mod file;

use crate::file_system::file::{File, Stat};
use crate::settings::Settings;
use crate::text::same_text;

verus! {

/// The live filesystem, walked from its root.
pub struct FileSystem;

/// What the metadata of an entry (not following a final link) says.
#[derive(Clone, Copy, Debug)]
pub struct EntryMeta {
    pub is_symlink: bool,
    pub is_dir: bool,
    pub is_block_device: bool,
    pub is_char_device: bool,
    pub is_fifo: bool,
    pub is_socket: bool,
    pub mode: u32,
    pub mtime: u64,
}

/// The stat of an entry: its file type first, then for a plain file the
/// set-user-id bit, then any execute bit.
pub open spec fn stat_spec(meta: EntryMeta) -> Stat {
    if meta.is_symlink {
        Stat::Symlink(arbitrary())
    } else if meta.is_dir {
        Stat::Directory
    } else if meta.is_block_device {
        Stat::BlockDevice
    } else if meta.is_char_device {
        Stat::CharDevice
    } else if meta.is_fifo {
        Stat::Fifo
    } else if meta.is_socket {
        Stat::Socket
    } else if meta.mode & 0o4000 != 0 {
        Stat::Suid
    } else if meta.mode & 0o111 != 0 {
        Stat::Executable
    } else {
        Stat::Regular
    }
}

/// `s` is the stat that `meta` gives, a link carrying `target`.
pub open spec fn is_stat_of(s: Stat, meta: EntryMeta, target: Seq<char>) -> bool {
    if meta.is_symlink {
        s is Symlink && s.target_spec() == Some(target)
    } else {
        s == stat_spec(meta)
    }
}

/// `path` is one of `list`.
pub open spec fn listed(list: Option<Vec<String>>, path: Seq<char>) -> bool {
    match list {
        Some(v) => exists|i: int| 0 <= i < v@.len() && (#[trigger] v@[i])@ == path,
        None => false,
    }
}

/// Whether an entry counts as executable: it is not a link, a directory, a
/// fifo or a socket, and some execute bit of its mode is set.
pub open spec fn executable_spec(meta: EntryMeta) -> bool {
    !meta.is_symlink && !meta.is_dir && !meta.is_fifo && !meta.is_socket && meta.mode & 0o111 != 0
}

/// Whether an entry counts as executable (see `executable_spec`).
pub fn is_executable(meta: &EntryMeta) -> (r: bool)
    ensures
        r == executable_spec(*meta),
{
    !meta.is_symlink && !meta.is_dir && !meta.is_fifo && !meta.is_socket && meta.mode & 0o111 != 0
}

/// Classifies an entry from its metadata; `target` is what a link points to.
pub fn stat_of(meta: &EntryMeta, target: String) -> (r: Stat)
    ensures
        is_stat_of(r, *meta, target@),
{
    if meta.is_symlink {
        Stat::Symlink(target)
    } else if meta.is_dir {
        Stat::Directory
    } else if meta.is_block_device {
        Stat::BlockDevice
    } else if meta.is_char_device {
        Stat::CharDevice
    } else if meta.is_fifo {
        Stat::Fifo
    } else if meta.is_socket {
        Stat::Socket
    } else if meta.mode & 0o4000 != 0 {
        Stat::Suid
    } else if meta.mode & 0o111 != 0 {
        Stat::Executable
    } else {
        Stat::Regular
    }
}

/// The scanned entry at `path`: its stat, whether it is executable, and its
/// modification time only when times are compared and the entry is not a
/// directory.
pub fn stat(path: &str, meta: &EntryMeta, target: String, settings: &Settings) -> (r: File)
    ensures
        r.path@ == path@,
        is_stat_of(r.stat, *meta, target@),
        r.executable == executable_spec(*meta),
        r.mtime == (if settings.mtime && !meta.is_dir {
            Some(meta.mtime)
        } else {
            None
        }),
        r.md5.is_none(),
{
    let s = stat_of(meta, target);
    let mtime = if settings.mtime() && !meta.is_dir {
        Some(meta.mtime)
    } else {
        None
    };
    File::new(path, s, mtime, is_executable(meta))
}

/// Whether the content of a scanned entry is digested: only when digests
/// are compared, and only for regular files.
pub fn needs_md5(file: &File, settings: &Settings) -> (r: bool)
    ensures
        r == (settings.md5 && file.stat.is_regular()),
{
    settings.md5() && file.stat.is_regular_file()
}

fn is_listed(list: Option<&Vec<String>>, path: &str) -> (r: bool)
    ensures
        r == (list.is_some() && exists|i: int|
            0 <= i < list.unwrap()@.len() && (#[trigger] list.unwrap()@[i])@ == path@),
{
    if list.is_none() {
        return false;
    }
    let v = list.unwrap();
    let mut i: usize = 0;
    while i < v.len()
        invariant
            list.is_some(),
            v == list.unwrap(),
            i <= v@.len(),
            forall|m: int| 0 <= m < i ==> (#[trigger] v@[m])@ != path@,
        decreases v.len() - i,
    {
        if same_text(v[i].as_str(), path) {
            assert(v@[i as int]@ == path@);
            return true;
        }
        i = i + 1;
    }
    false
}

/// Whether the walk leaves out an entry: a directory whose exact path is
/// one of the ignored paths (its whole subtree is then left out), or an
/// entry of another kind whose exact path is one of the ignored files.
pub fn is_ignored(path: &str, is_dir: bool, settings: &Settings) -> (r: bool)
    ensures
        r == (if is_dir {
            listed(settings.ignore_paths, path@)
        } else {
            listed(settings.ignore_files, path@)
        }),
{
    if is_dir {
        is_listed(settings.ignore_paths(), path)
    } else {
        is_listed(settings.ignore_files(), path)
    }
}

} // verus!
