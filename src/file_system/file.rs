use vstd::prelude::*;

use crate::file_info::{opt_str_view, FileInfo, FileType, Kind, RecordView};

verus! {

/// What a scan found at a path.
#[derive(Clone, Debug, PartialEq, Eq)]
pub enum Stat {
    Directory,
    Regular,
    Executable,
    Suid,
    Symlink(String),
    BlockDevice,
    CharDevice,
    Fifo,
    Socket,
}

impl Stat {
    pub open spec fn kind_spec(&self) -> Kind {
        match self {
            Stat::Directory => Kind::Dir,
            Stat::Symlink(_) => Kind::Sym,
            _ => Kind::Obj,
        }
    }

    pub open spec fn target_spec(&self) -> Option<Seq<char>> {
        match self {
            Stat::Symlink(t) => Some(t@),
            _ => None,
        }
    }

    /// A regular file, with or without execute or set-user-id bits.
    pub open spec fn is_regular(&self) -> bool {
        self is Regular || self is Executable || self is Suid
    }

    pub fn is_regular_file(&self) -> (r: bool)
        ensures
            r == self.is_regular(),
    {
        match self {
            Stat::Regular | Stat::Executable | Stat::Suid => true,
            _ => false,
        }
    }

    /// The one-letter indicator shown beside a reported path.
    pub fn indicator(&self) -> (r: char)
        ensures
            r == match self {
                Stat::Directory => 'D',
                Stat::Regular => 'R',
                Stat::Executable => 'E',
                Stat::Suid => 'S',
                Stat::Symlink(_) => 'L',
                Stat::BlockDevice => 'B',
                Stat::CharDevice => 'C',
                Stat::Fifo => 'F',
                Stat::Socket => 'Z',
            },
    {
        match self {
            Stat::Directory => 'D',
            Stat::Regular => 'R',
            Stat::Executable => 'E',
            Stat::Suid => 'S',
            Stat::Symlink(_) => 'L',
            Stat::BlockDevice => 'B',
            Stat::CharDevice => 'C',
            Stat::Fifo => 'F',
            Stat::Socket => 'Z',
        }
    }
}

/// One entry found by the filesystem scan.
#[derive(Clone, Debug)]
pub struct File {
    pub path: String,
    pub stat: Stat,
    pub mtime: Option<u64>,
    pub md5: Option<String>,
    pub executable: bool,
}

impl File {
    /// An entry without a digest; `executable` tells whether any execute
    /// bit is set.
    pub fn new(path: &str, stat: Stat, mtime: Option<u64>, executable: bool) -> (r: File)
        ensures
            r.path@ == path@,
            r.stat == stat,
            r.mtime == mtime,
            r.md5.is_none(),
            r.executable == executable,
    {
        File { path: String::from_str(path), stat, mtime, md5: None, executable }
    }

    /// The entry with the lowercase hex digest of its content.
    pub fn with_md5(self, digest: String) -> (r: File)
        ensures
            r.path == self.path,
            r.stat == self.stat,
            r.mtime == self.mtime,
            r.executable == self.executable,
            opt_str_view(r.md5) == Some(digest@),
    {
        File { md5: Some(digest), ..self }
    }

    /// The kind of the entry, with the target of a link; every kind that is
    /// neither a directory nor a link counts as a file.
    pub fn file_type(&self) -> (r: FileType)
        ensures
            r.kind_spec() == self.stat.kind_spec(),
            r.target_spec() == self.stat.target_spec(),
    {
        match &self.stat {
            Stat::Directory => FileType::Dir,
            Stat::Symlink(t) => FileType::Sym(t.clone()),
            _ => FileType::Obj,
        }
    }

    /// The record that this entry contributes to the set of files on disk.
    pub fn to_file_info(self) -> (r: FileInfo)
        ensures
            r@ == (RecordView {
                kind: self.stat.kind_spec(),
                target: self.stat.target_spec(),
                path: self.path@,
                md5: opt_str_view(self.md5),
                mtime: self.mtime,
                executable: self.executable,
            }),
    {
        let ftype = self.file_type();
        FileInfo {
            ftype,
            path: self.path,
            md5: self.md5,
            mtime: self.mtime,
            executable: self.executable,
        }
    }
}

} // verus!
