use vstd::prelude::*;

use crate::normalize::is_under;
use crate::symlink::Symlink;
use crate::text::{contains_str, contains_text, trim_trailing_slashes, without_trailing_slashes};

verus! {

/// The finished options of one run: where the package database lies, what
/// the filesystem walk leaves out, how manifest paths are rewritten, and
/// which fields take part in comparison.
#[derive(Clone, Debug)]
pub struct Settings {
    pub pkg_dir: String,
    pub ignore_files: Option<Vec<String>>,
    pub ignore_paths: Option<Vec<String>>,
    pub links_to_usr: Option<Vec<Symlink>>,
    pub split_usr: bool,
    pub md5: bool,
    pub mtime: bool,
    pub verbose: bool,
}

/// The package database searched when no other is configured.
pub open spec fn default_pkg_dir() -> Seq<char> {
    seq!['/', 'v', 'a', 'r', '/', 'd', 'b', '/', 'p', 'k', 'g']
}

pub open spec fn opt_vec_view(v: Option<Vec<String>>) -> Option<Seq<String>> {
    match v {
        Some(x) => Some(x@),
        None => None,
    }
}

/// `/usr/sbin` is merged into `/usr/bin` through a link whose target
/// `target`, without the slashes that end it, either is a single name
/// (taken relative to `/usr`) or lies under `/usr`; the destination it
/// gives, if any.
pub open spec fn usr_sbin_dst(target: Seq<char>) -> Option<Seq<char>> {
    let t = trim_trailing_slashes(target);
    if t.len() > 0 && forall|i: int| 0 <= i < t.len() ==> t[i] != '/' {
        Some(seq!['/', 'u', 's', 'r', '/'] + t)
    } else if is_under(t, seq!['/', 'u', 's', 'r']) {
        Some(t)
    } else {
        None
    }
}

/// A link target taken from the root: kept when absolute, else put under `/`.
pub open spec fn from_root(target: Seq<char>) -> Seq<char> {
    if target.len() > 0 && target[0] == '/' {
        target
    } else {
        seq!['/'] + target
    }
}

pub open spec fn split_usr_marker() -> Seq<char> {
    seq!['/', 's', 'p', 'l', 'i', 't', '-', 'u', 's', 'r']
}

/// Whether the target of the system profile link names a split-usr profile,
/// that is, holds `/split-usr`.
pub fn profile_is_split_usr(profile_target: &str) -> (r: bool)
    ensures
        r == contains_text(profile_target@, split_usr_marker()),
{
    let marker = "/split-usr";
    proof {
        reveal_strlit("/split-usr");
    }
    assert(marker@ =~= split_usr_marker());
    contains_str(profile_target, marker)
}

/// The system keeps the split-usr layout: its profile says so and no legacy
/// location links into `/usr`. Manifest paths are then used as written.
pub fn is_split_usr(profile_split: bool, links_exist: bool) -> (r: bool)
    ensures
        r == (profile_split && !links_exist),
{
    profile_split && !links_exist
}

/// The mapping of a legacy top-level location `src` that is a link with
/// target `target`: the target taken from the root, without the slashes
/// that end it.
pub fn root_link(src: &str, target: &str) -> (r: Symlink)
    ensures
        r.src@ == src@,
        r.dst@ == trim_trailing_slashes(from_root(target@)),
{
    let full = if target.unicode_len() > 0 && target.get_char(0) == '/' {
        String::from_str(target)
    } else {
        let root = "/";
        proof {
            reveal_strlit("/");
        }
        let dst = String::from_str(root).concat(target);
        assert(dst@ =~= from_root(target@));
        dst
    };
    Symlink { src: String::from_str(src), dst: without_trailing_slashes(full.as_str()) }
}

/// The mapping of `/usr/sbin` when it is a link with target `target`
/// (see `usr_sbin_dst`); none when the target leads outside `/usr`.
pub fn usr_sbin_link(target: &str) -> (r: Option<Symlink>)
    ensures
        match usr_sbin_dst(target@) {
            Some(d) => r.is_some() && r.unwrap().src@ == seq!['/', 'u', 's', 'r', '/', 's', 'b', 'i', 'n']
                && r.unwrap().dst@ == d,
            None => r.is_none(),
        },
{
    let ghost t = trim_trailing_slashes(target@);
    let src = "/usr/sbin";
    let usr = "/usr";
    let usr_slash = "/usr/";
    proof {
        reveal_strlit("/usr/sbin");
        reveal_strlit("/usr");
        reveal_strlit("/usr/");
    }
    assert(usr@ =~= seq!['/', 'u', 's', 'r']);
    let trimmed = without_trailing_slashes(target);
    let target = trimmed.as_str();
    let n = target.unicode_len();
    let mut bare = n > 0;
    let mut i: usize = 0;
    while i < n
        invariant
            n == target@.len(),
            i <= n,
            bare == (n > 0 && forall|m: int| 0 <= m < i ==> target@[m] != '/'),
        decreases n - i,
    {
        if target.get_char(i) == '/' {
            bare = false;
        }
        i = i + 1;
    }
    if bare {
        let dst = String::from_str(usr_slash).concat(target);
        assert(dst@ =~= seq!['/', 'u', 's', 'r', '/'] + t);
        assert(src@ =~= seq!['/', 'u', 's', 'r', '/', 's', 'b', 'i', 'n']);
        Some(Symlink { src: String::from_str(src), dst })
    } else if crate::normalize::path_is_under(target, usr) {
        assert(src@ =~= seq!['/', 'u', 's', 'r', '/', 's', 'b', 'i', 'n']);
        Some(Symlink::new(src, target))
    } else {
        None
    }
}

impl Default for Settings {
    fn default() -> (r: Settings)
        ensures
            r.pkg_dir@ == default_pkg_dir(),
            r.ignore_files.is_none(),
            r.ignore_paths.is_none(),
            r.links_to_usr.is_none(),
            !r.split_usr,
            !r.md5,
            !r.mtime,
            !r.verbose,
    {
        let dir = "/var/db/pkg";
        proof {
            reveal_strlit("/var/db/pkg");
        }
        assert(dir@ =~= default_pkg_dir());
        Settings {
            pkg_dir: String::from_str(dir),
            ignore_files: None,
            ignore_paths: None,
            links_to_usr: None,
            split_usr: false,
            md5: false,
            mtime: false,
            verbose: false,
        }
    }
}

impl Settings {
    /// Applies command-line flags to settings read from configuration files:
    /// `md5_flag` and `mtime_flag` invert the configured choice, `verbose_flag`
    /// turns diagnostics on, and each given value replaces the configured one.
    pub fn merge_args(
        self,
        md5_flag: bool,
        mtime_flag: bool,
        verbose_flag: bool,
        pkg_dir: Option<String>,
        ignore_paths: Option<Vec<String>>,
        ignore_files: Option<Vec<String>>,
    ) -> (r: Settings)
        ensures
            r.md5 == (self.md5 != md5_flag),
            r.mtime == (self.mtime != mtime_flag),
            r.verbose == (self.verbose || verbose_flag),
            r.pkg_dir@ == (match pkg_dir {
                Some(d) => d@,
                None => self.pkg_dir@,
            }),
            opt_vec_view(r.ignore_paths) == (if ignore_paths.is_some() {
                opt_vec_view(ignore_paths)
            } else {
                opt_vec_view(self.ignore_paths)
            }),
            opt_vec_view(r.ignore_files) == (if ignore_files.is_some() {
                opt_vec_view(ignore_files)
            } else {
                opt_vec_view(self.ignore_files)
            }),
            r.links_to_usr == self.links_to_usr,
            r.split_usr == self.split_usr,
    {
        let mut s = self;
        if md5_flag {
            s.md5 = !s.md5;
        }
        if mtime_flag {
            s.mtime = !s.mtime;
        }
        if verbose_flag {
            s.verbose = true;
        }
        if let Some(d) = pkg_dir {
            s.pkg_dir = d;
        }
        if ignore_paths.is_some() {
            s.ignore_paths = ignore_paths;
        }
        if ignore_files.is_some() {
            s.ignore_files = ignore_files;
        }
        s
    }

    /// Records the legacy locations found to link into `/usr` and decides
    /// from them and the profile whether the split-usr layout is in use.
    pub fn with_links(self, links: Vec<Symlink>, profile_split: bool) -> (r: Settings)
        ensures
            links@.len() == 0 ==> r.links_to_usr.is_none(),
            links@.len() > 0 ==> r.links_to_usr.is_some() && r.links_to_usr.unwrap()@ == links@,
            r.split_usr == (profile_split && links@.len() == 0),
            r.pkg_dir == self.pkg_dir,
            r.ignore_files == self.ignore_files,
            r.ignore_paths == self.ignore_paths,
            r.md5 == self.md5,
            r.mtime == self.mtime,
            r.verbose == self.verbose,
    {
        let mut s = self;
        let exist = links.len() > 0;
        s.split_usr = is_split_usr(profile_split, exist);
        s.links_to_usr = if exist {
            Some(links)
        } else {
            None
        };
        s
    }

    pub fn pkg_dir(&self) -> (r: &str)
        ensures
            r@ == self.pkg_dir@,
    {
        self.pkg_dir.as_str()
    }

    pub fn ignore_files(&self) -> (r: Option<&Vec<String>>)
        ensures
            r.is_some() == self.ignore_files.is_some(),
            r.is_some() ==> *r.unwrap() == self.ignore_files.unwrap(),
    {
        self.ignore_files.as_ref()
    }

    pub fn ignore_paths(&self) -> (r: Option<&Vec<String>>)
        ensures
            r.is_some() == self.ignore_paths.is_some(),
            r.is_some() ==> *r.unwrap() == self.ignore_paths.unwrap(),
    {
        self.ignore_paths.as_ref()
    }

    pub fn links_to_usr(&self) -> (r: Option<&Vec<Symlink>>)
        ensures
            r.is_some() == self.links_to_usr.is_some(),
            r.is_some() ==> *r.unwrap() == self.links_to_usr.unwrap(),
    {
        self.links_to_usr.as_ref()
    }

    pub fn is_split_usr(&self) -> (r: bool)
        ensures
            r == self.split_usr,
    {
        self.split_usr
    }

    pub fn md5(&self) -> (r: bool)
        ensures
            r == self.md5,
    {
        self.md5
    }

    pub fn mtime(&self) -> (r: bool)
        ensures
            r == self.mtime,
    {
        self.mtime
    }

    pub fn verbose(&self) -> (r: bool)
        ensures
            r == self.verbose,
    {
        self.verbose
    }
}

} // verus!
