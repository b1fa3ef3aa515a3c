use vstd::prelude::*;

use crate::catalog::file::File;
use crate::file_info::{opt_str_view, FileType, Kind};
use crate::normalize::{normalize, normalize_path};
use crate::settings::Settings;
use crate::text::{
    find_last_space, find_text, first_occurrence, last_space, parse_u64, text_at, u64_text,
};

verus! {

pub open spec fn tag_dir() -> Seq<char> {
    seq!['d', 'i', 'r']
}

pub open spec fn tag_obj() -> Seq<char> {
    seq!['o', 'b', 'j']
}

pub open spec fn tag_sym() -> Seq<char> {
    seq!['s', 'y', 'm']
}

pub open spec fn arrow() -> Seq<char> {
    seq![' ', '-', '>', ' ']
}

/// The line opens with the three-letter `tag` and a space.
pub open spec fn has_tag(line: Seq<char>, tag: Seq<char>) -> bool {
    line.len() >= 4 && line.take(3) == tag && line[3] == ' '
}

/// The fields of a manifest line as written, before any policy applies.
pub struct EntryFields {
    pub kind: Kind,
    pub path: Seq<char>,
    pub target: Option<Seq<char>>,
    pub hash: Option<Seq<char>>,
    pub mtime: Option<u64>,
}

/// `obj <path> <hash> <mtime>`: `j` is the last space, `k` the last one
/// before it; the path (between the tag and `k`) and the digest are not
/// empty, and the time is a decimal number, an optional `+` before it.
pub open spec fn obj_split(line: Seq<char>, j: int, k: int) -> bool {
    &&& last_space(line, j)
    &&& last_space(line.take(j), k)
    &&& 4 < k
    &&& k + 1 < j
    &&& u64_text(line.subrange(j + 1, line.len() as int)).is_some()
}

/// `sym <path> -> <target> <mtime>`: `a` is the first ` -> `, `j` the last
/// space; path and target are not empty, and the time is a decimal number, an optional `+` before it.
pub open spec fn sym_split(line: Seq<char>, a: int, j: int) -> bool {
    &&& first_occurrence(line, arrow(), a)
    &&& last_space(line, j)
    &&& 4 < a
    &&& a + 4 < j
    &&& u64_text(line.subrange(j + 1, line.len() as int)).is_some()
}

/// What a manifest line says, if it follows the grammar: a directory is
/// `dir <path>`, a file `obj <path> <hash> <mtime>`, a symbolic link
/// `sym <path> -> <target> <mtime>`. Paths may hold spaces.
pub open spec fn entry_fields(line: Seq<char>) -> Option<EntryFields> {
    if has_tag(line, tag_dir()) {
        if line.len() > 4 {
            Some(
                EntryFields {
                    kind: Kind::Dir,
                    path: line.subrange(4, line.len() as int),
                    target: None,
                    hash: None,
                    mtime: None,
                },
            )
        } else {
            None
        }
    } else if has_tag(line, tag_obj()) {
        if exists|j: int, k: int| obj_split(line, j, k) {
            let (j, k) = choose|j: int, k: int| obj_split(line, j, k);
            Some(
                EntryFields {
                    kind: Kind::Obj,
                    path: line.subrange(4, k),
                    target: None,
                    hash: Some(line.subrange(k + 1, j)),
                    mtime: u64_text(line.subrange(j + 1, line.len() as int)),
                },
            )
        } else {
            None
        }
    } else if has_tag(line, tag_sym()) {
        if exists|a: int, j: int| sym_split(line, a, j) {
            let (a, j) = choose|a: int, j: int| sym_split(line, a, j);
            Some(
                EntryFields {
                    kind: Kind::Sym,
                    path: line.subrange(4, a),
                    target: Some(line.subrange(a + 4, j)),
                    hash: None,
                    mtime: u64_text(line.subrange(j + 1, line.len() as int)),
                },
            )
        } else {
            None
        }
    } else {
        None
    }
}

/// A manifest path as it is stored: rewritten to the merged-usr form unless
/// the system keeps the split layout or has no links into `/usr`.
pub open spec fn stored_path(p: Seq<char>, settings: Settings) -> Seq<char> {
    if !settings.split_usr && settings.links_to_usr.is_some() {
        normalize(p, settings.links_to_usr.unwrap()@)
    } else {
        p
    }
}

/// The entry that a well-formed manifest line gives under `settings`: the
/// digest kept only when digests are compared, the time only when times are.
pub open spec fn entry_matches(f: File, e: EntryFields, settings: Settings) -> bool {
    &&& f.path@ == stored_path(e.path, settings)
    &&& f.file_type.kind_spec() == e.kind
    &&& f.file_type.target_spec() == e.target
    &&& opt_str_view(f.md5) == (if settings.md5 {
        e.hash
    } else {
        None
    })
    &&& f.mtime == (if settings.mtime {
        e.mtime
    } else {
        None
    })
}

/// A manifest line that does not follow the grammar.
#[derive(Clone, Copy, Debug, PartialEq, Eq, Structural)]
pub struct MalformedManifestLine;

/// `path` as it is stored under `settings` (see `stored_path`).
pub fn store_path(path: &str, settings: &Settings) -> (r: String)
    ensures
        r@ == stored_path(path@, *settings),
{
    if !settings.is_split_usr() {
        if let Some(links) = settings.links_to_usr() {
            return normalize_path(path, links);
        }
    }
    String::from_str(path)
}

/// Parses one manifest line into an entry (see `entry_fields` for the
/// grammar and `entry_matches` for what is kept). Lines that do not follow
/// the grammar are rejected.
pub fn parse_entry(line: &str, settings: &Settings) -> (r: Result<File, MalformedManifestLine>)
    ensures
        match entry_fields(line@) {
            None => r.is_err(),
            Some(e) => match r {
                Ok(f) => entry_matches(f, e, *settings),
                Err(_) => false,
            },
        },
{
    let n = line.unicode_len();
    if n < 4 || line.get_char(3) != ' ' {
        return Err(MalformedManifestLine);
    }
    let dir = "dir";
    let obj = "obj";
    let sym = "sym";
    let arrow_str = " -> ";
    proof {
        reveal_strlit("dir");
        reveal_strlit("obj");
        reveal_strlit("sym");
        reveal_strlit(" -> ");
        assert(dir@ =~= tag_dir());
        assert(obj@ =~= tag_obj());
        assert(sym@ =~= tag_sym());
        assert(arrow_str@ =~= arrow());
        assert(line@.take(3) =~= line@.subrange(0, 3));
        assert(line@.take(n as int) =~= line@);
    }
    if text_at(line, dir, 0) {
        if n == 4 {
            return Err(MalformedManifestLine);
        }
        let path = store_path(line.substring_char(4, n), settings);
        Ok(File::new(path.as_str(), FileType::Dir, String::new(), None))
    } else if text_at(line, obj, 0) {
        let j = match find_last_space(line, n) {
            Some(j) => j,
            None => {
                return Err(MalformedManifestLine);
            },
        };
        let k = match find_last_space(line, j) {
            Some(k) => k,
            None => {
                assert forall|j2: int, k2: int| !obj_split(line@, j2, k2) by {
                    if obj_split(line@, j2, k2) {
                        assert(line@.take(j as int)[k2] == line@[k2]);
                    }
                }
                return Err(MalformedManifestLine);
            },
        };
        let mt = if k > 4 && k + 1 < j {
            parse_u64(line.substring_char(j + 1, n))
        } else {
            None
        };
        let mt = match mt {
            Some(m) => m,
            None => {
                assert forall|j2: int, k2: int| !obj_split(line@, j2, k2) by {
                    if obj_split(line@, j2, k2) {
                        assert(j2 == j);
                        assert(k2 == k);
                    }
                }
                return Err(MalformedManifestLine);
            },
        };
        assert(obj_split(line@, j as int, k as int));
        assert(forall|j2: int, k2: int| obj_split(line@, j2, k2) ==> j2 == j && k2 == k);
        let path = store_path(line.substring_char(4, k), settings);
        let hash = if settings.md5() {
            String::from_str(line.substring_char(k + 1, j))
        } else {
            String::new()
        };
        let mtime = if settings.mtime() {
            Some(mt)
        } else {
            None
        };
        Ok(File::new(path.as_str(), FileType::Obj, hash, mtime))
    } else if text_at(line, sym, 0) {
        let a = match find_text(line, arrow_str) {
            Some(a) => a,
            None => {
                return Err(MalformedManifestLine);
            },
        };
        let j = match find_last_space(line, n) {
            Some(j) => j,
            None => {
                return Err(MalformedManifestLine);
            },
        };
        let mt = if a > 4 && a + 4 < j {
            parse_u64(line.substring_char(j + 1, n))
        } else {
            None
        };
        let mt = match mt {
            Some(m) => m,
            None => {
                assert forall|a2: int, j2: int| !sym_split(line@, a2, j2) by {
                    if sym_split(line@, a2, j2) {
                        assert(a2 == a);
                        assert(j2 == j);
                    }
                }
                return Err(MalformedManifestLine);
            },
        };
        assert(sym_split(line@, a as int, j as int));
        assert(forall|a2: int, j2: int| sym_split(line@, a2, j2) ==> a2 == a && j2 == j);
        let path = store_path(line.substring_char(4, a), settings);
        let target = String::from_str(line.substring_char(a + 4, j));
        let mtime = if settings.mtime() {
            Some(mt)
        } else {
            None
        };
        Ok(File::new(path.as_str(), FileType::Sym(target), String::new(), mtime))
    } else {
        Err(MalformedManifestLine)
    }
}

/// The first line of a manifest that does not follow the grammar.
#[derive(Clone, Copy, Debug, PartialEq, Eq, Structural)]
pub struct ManifestError {
    pub line: usize,
}

/// Parses every line of a manifest, in order; stops at the first line that
/// does not follow the grammar and reports its index.
pub fn parse_lines(lines: &Vec<String>, settings: &Settings) -> (r: Result<Vec<File>, ManifestError>)
    ensures
        match r {
            Ok(files) => {
                &&& files@.len() == lines@.len()
                &&& forall|i: int|
                    0 <= i < lines@.len() ==> match entry_fields((#[trigger] lines@[i])@) {
                        Some(e) => entry_matches(files@[i], e, *settings),
                        None => false,
                    }
            },
            Err(e) => {
                &&& e.line < lines@.len()
                &&& entry_fields(lines@[e.line as int]@) is None
                &&& forall|i: int| 0 <= i < e.line ==> (#[trigger] entry_fields(lines@[i]@)) is Some
            },
        },
{
    let mut files: Vec<File> = Vec::new();
    let mut i: usize = 0;
    while i < lines.len()
        invariant
            i <= lines@.len(),
            files@.len() == i,
            forall|m: int|
                0 <= m < i ==> match entry_fields((#[trigger] lines@[m])@) {
                    Some(e) => entry_matches(files@[m], e, *settings),
                    None => false,
                },
        decreases lines.len() - i,
    {
        match parse_entry(lines[i].as_str(), settings) {
            Ok(f) => {
                files.push(f);
            },
            Err(_) => {
                assert forall|m: int| 0 <= m < i implies (#[trigger] entry_fields(lines@[m]@)) is Some by {
                    assert(entry_fields(lines@[m]@) is Some);
                }
                return Err(ManifestError { line: i });
            },
        }
        i = i + 1;
    }
    Ok(files)
}

} // verus!
