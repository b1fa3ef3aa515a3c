use vstd::prelude::*;

verus! {

/// The kind of a recorded entry; a symbolic link carries its target.
#[derive(Clone, Debug, PartialEq, Eq)]
pub enum FileType {
    Dir,
    Obj,
    Sym(String),
}

/// The kind of an entry without the link target: what takes part in identity.
#[derive(Clone, Copy, Debug, PartialEq, Eq, Structural)]
pub enum Kind {
    Dir,
    Obj,
    Sym,
}

impl FileType {
    pub open spec fn kind_spec(&self) -> Kind {
        match self {
            FileType::Dir => Kind::Dir,
            FileType::Obj => Kind::Obj,
            FileType::Sym(_) => Kind::Sym,
        }
    }

    pub open spec fn target_spec(&self) -> Option<Seq<char>> {
        match self {
            FileType::Sym(t) => Some(t@),
            _ => None,
        }
    }

    pub fn kind(&self) -> (r: Kind)
        ensures
            r == self.kind_spec(),
    {
        match self {
            FileType::Dir => Kind::Dir,
            FileType::Obj => Kind::Obj,
            FileType::Sym(_) => Kind::Sym,
        }
    }

    pub fn duplicate(&self) -> (r: FileType)
        ensures
            r.kind_spec() == self.kind_spec(),
            r.target_spec() == self.target_spec(),
    {
        match self {
            FileType::Dir => FileType::Dir,
            FileType::Obj => FileType::Obj,
            FileType::Sym(t) => FileType::Sym(t.clone()),
        }
    }
}

/// What a file record holds, as plain mathematical values.
pub struct RecordView {
    pub kind: Kind,
    pub target: Option<Seq<char>>,
    pub path: Seq<char>,
    pub md5: Option<Seq<char>>,
    pub mtime: Option<u64>,
    pub executable: bool,
}

/// One entry of a scan or of a package manifest: its kind and path, and,
/// where the comparison policy asked for them, its content digest (as
/// lowercase hex) and its modification time in seconds since the epoch.
#[derive(Clone, Debug)]
pub struct FileInfo {
    pub ftype: FileType,
    pub path: String,
    pub md5: Option<String>,
    pub mtime: Option<u64>,
    pub executable: bool,
}

pub open spec fn opt_str_view(s: Option<String>) -> Option<Seq<char>> {
    match s {
        Some(v) => Some(v@),
        None => None,
    }
}

impl View for FileInfo {
    type V = RecordView;

    open spec fn view(&self) -> RecordView {
        RecordView {
            kind: self.ftype.kind_spec(),
            target: self.ftype.target_spec(),
            path: self.path@,
            md5: opt_str_view(self.md5),
            mtime: self.mtime,
            executable: self.executable,
        }
    }
}

/// The values of a list of records, in order.
pub open spec fn views(s: Seq<FileInfo>) -> Seq<RecordView> {
    s.map_values(|f: FileInfo| f@)
}

/// Baseline identity: equal kind and equal path, whatever else differs.
pub open spec fn same_identity(a: RecordView, b: RecordView) -> bool {
    a.kind == b.kind && a.path == b.path
}

/// Strict identity: baseline identity, and equal digests when `hash` is
/// requested and equal modification times when `mtime` is.
pub open spec fn strict_match(a: RecordView, b: RecordView, hash: bool, mtime: bool) -> bool {
    &&& same_identity(a, b)
    &&& (hash ==> a.md5 == b.md5)
    &&& (mtime ==> a.mtime == b.mtime)
}

/// How two records of the same identity compare under the active policy.
#[derive(Clone, Copy, Debug, PartialEq, Eq, Structural)]
pub enum Comparison {
    Equal,
    DifferByHash,
    DifferByMTime,
    DifferByBoth,
}

impl Comparison {
    /// The letter that reports a change: `M` for content, `T` for time alone.
    pub fn indicator(&self) -> (r: Option<char>)
        ensures
            r == match self {
                Comparison::Equal => None,
                Comparison::DifferByMTime => Some('T'),
                _ => Some('M'),
            },
    {
        match self {
            Comparison::Equal => None,
            Comparison::DifferByMTime => Some('T'),
            _ => Some('M'),
        }
    }
}

pub open spec fn comparison_of(hash_differs: bool, mtime_differs: bool) -> Comparison {
    if hash_differs && mtime_differs {
        Comparison::DifferByBoth
    } else if hash_differs {
        Comparison::DifferByHash
    } else if mtime_differs {
        Comparison::DifferByMTime
    } else {
        Comparison::Equal
    }
}

fn opt_str_eq(a: &Option<String>, b: &Option<String>) -> (r: bool)
    ensures
        r == (opt_str_view(*a) == opt_str_view(*b)),
{
    match (a, b) {
        (Some(x), Some(y)) => {
            let e = x.eq(y);
            e
        },
        (None, None) => true,
        _ => false,
    }
}

fn opt_u64_eq(a: Option<u64>, b: Option<u64>) -> (r: bool)
    ensures
        r == (a == b),
{
    match (a, b) {
        (Some(x), Some(y)) => x == y,
        (None, None) => true,
        _ => false,
    }
}

impl FileInfo {
    pub fn new(ftype: FileType, path: String, md5: Option<String>, mtime: Option<u64>, executable: bool) -> (r: FileInfo)
        ensures
            r@.kind == ftype.kind_spec(),
            r@.target == ftype.target_spec(),
            r@.path == path@,
            r@.md5 == opt_str_view(md5),
            r@.mtime == mtime,
            r@.executable == executable,
    {
        FileInfo { ftype, path, md5, mtime, executable }
    }

    pub fn duplicate(&self) -> (r: FileInfo)
        ensures
            r@ == self@,
    {
        FileInfo {
            ftype: self.ftype.duplicate(),
            path: self.path.clone(),
            md5: match &self.md5 {
                Some(s) => Some(s.clone()),
                None => None,
            },
            mtime: self.mtime,
            executable: self.executable,
        }
    }

    pub fn path(&self) -> (r: &str)
        ensures
            r@ == self@.path,
    {
        self.path.as_str()
    }

    pub fn file_type(&self) -> (r: FileType)
        ensures
            r.kind_spec() == self@.kind,
            r.target_spec() == self@.target,
    {
        self.ftype.duplicate()
    }

    pub fn mtime(&self) -> (r: Option<u64>)
        ensures
            r == self@.mtime,
    {
        self.mtime
    }

    pub fn md5(&self) -> (r: Option<&str>)
        ensures
            r.is_some() == self@.md5.is_some(),
            r.is_some() ==> r.unwrap()@ == self@.md5.unwrap(),
    {
        match &self.md5 {
            Some(s) => Some(s.as_str()),
            None => None,
        }
    }

    /// The letter that reports the kind of a record: `D` directory, `L` link,
    /// `E` executable file, `R` other file.
    pub fn indicator(&self) -> (r: char)
        ensures
            r == match self@.kind {
                Kind::Dir => 'D',
                Kind::Sym => 'L',
                Kind::Obj => if self.executable {
                    'E'
                } else {
                    'R'
                },
            },
    {
        match self.ftype {
            FileType::Dir => 'D',
            FileType::Sym(_) => 'L',
            FileType::Obj => if self.executable {
                'E'
            } else {
                'R'
            },
        }
    }

    /// Baseline identity (see `same_identity`).
    pub fn same_identity(&self, other: &FileInfo) -> (r: bool)
        ensures
            r == same_identity(self@, other@),
    {
        self.ftype.kind() == other.ftype.kind() && self.path == other.path
    }

    /// Strict identity under the given policy (see `strict_match`).
    pub fn strict_match(&self, other: &FileInfo, hash: bool, mtime: bool) -> (r: bool)
        ensures
            r == strict_match(self@, other@, hash, mtime),
    {
        self.same_identity(other) && (!hash || opt_str_eq(&self.md5, &other.md5)) && (!mtime
            || opt_u64_eq(self.mtime, other.mtime))
    }

    /// Which of the requested fields differ between two records of the same
    /// identity; a field that is not requested never differs.
    pub fn compare(&self, other: &FileInfo, hash: bool, mtime: bool) -> (r: Comparison)
        ensures
            r == comparison_of(
                hash && self@.md5 != other@.md5,
                mtime && self@.mtime != other@.mtime,
            ),
    {
        let hash_differs = hash && !opt_str_eq(&self.md5, &other.md5);
        let mtime_differs = mtime && !opt_u64_eq(self.mtime, other.mtime);
        if hash_differs && mtime_differs {
            Comparison::DifferByBoth
        } else if hash_differs {
            Comparison::DifferByHash
        } else if mtime_differs {
            Comparison::DifferByMTime
        } else {
            Comparison::Equal
        }
    }
}

/// Records with equal kind and path have the same baseline identity, and
/// match strictly when neither digest nor time is requested.
pub proof fn lemma_identity_by_kind_and_path(a: RecordView, b: RecordView)
    requires
        a.kind == b.kind,
        a.path == b.path,
    ensures
        same_identity(a, b),
        strict_match(a, b, false, false),
{
}

} // verus!
