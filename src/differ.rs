use vstd::prelude::*;

use crate::file_info::{
    comparison_of, same_identity, strict_match, views, Comparison, FileInfo, RecordView,
};
use crate::order::{equal_path_range, sort_by_path, sorted_by_path};
use crate::settings::Settings;

verus! {

broadcast use vstd::seq_lib::group_seq_properties;

/// Some record of `pkg` has the baseline identity of `o`.
pub open spec fn is_packaged(pkg: Seq<RecordView>, o: RecordView) -> bool {
    exists|i: int| 0 <= i < pkg.len() && same_identity(#[trigger] pkg[i], o)
}

/// Some record of `pkg` matches `o` strictly under the policy.
pub open spec fn is_packaged_strictly(
    pkg: Seq<RecordView>,
    o: RecordView,
    hash: bool,
    mtime: bool,
) -> bool {
    exists|i: int| 0 <= i < pkg.len() && strict_match(#[trigger] pkg[i], o, hash, mtime)
}

pub open spec fn untracked_pred(pkg: Seq<RecordView>) -> spec_fn(RecordView) -> bool {
    |o: RecordView| !is_packaged(pkg, o)
}

pub open spec fn modified_pred(pkg: Seq<RecordView>, hash: bool, mtime: bool) -> spec_fn(
    RecordView,
) -> bool {
    |o: RecordView| is_packaged(pkg, o) && !is_packaged_strictly(pkg, o, hash, mtime)
}

/// The observed records that no package record has the baseline identity of,
/// in their observed order.
pub open spec fn untracked(pkg: Seq<RecordView>, observed: Seq<RecordView>) -> Seq<RecordView> {
    observed.filter(untracked_pred(pkg))
}

/// The observed records with the baseline identity of a package record but
/// the strict identity of none, in their observed order.
pub open spec fn modified(
    pkg: Seq<RecordView>,
    observed: Seq<RecordView>,
    hash: bool,
    mtime: bool,
) -> Seq<RecordView> {
    observed.filter(modified_pred(pkg, hash, mtime))
}

/// Records with the same multiset of values agree on what they hold.
proof fn lemma_same_records(a: Seq<RecordView>, b: Seq<RecordView>, o: RecordView, hash: bool, mtime: bool)
    requires
        a.to_multiset() == b.to_multiset(),
    ensures
        is_packaged(a, o) == is_packaged(b, o),
        is_packaged_strictly(a, o, hash, mtime) == is_packaged_strictly(b, o, hash, mtime),
{
    broadcast use vstd::seq_lib::group_to_multiset_ensures;

    assert forall|x: RecordView| a.contains(x) <==> b.contains(x) by {
        assert(a.contains(x) <==> a.to_multiset().count(x) > 0);
        assert(b.contains(x) <==> b.to_multiset().count(x) > 0);
    }
    if is_packaged(a, o) {
        let i = choose|i: int| 0 <= i < a.len() && same_identity(#[trigger] a[i], o);
        assert(a.contains(a[i]));
        let j = choose|j: int| 0 <= j < b.len() && b[j] == a[i];
        assert(same_identity(b[j], o));
    }
    if is_packaged(b, o) {
        let i = choose|i: int| 0 <= i < b.len() && same_identity(#[trigger] b[i], o);
        assert(b.contains(b[i]));
        let j = choose|j: int| 0 <= j < a.len() && a[j] == b[i];
        assert(same_identity(a[j], o));
    }
    if is_packaged_strictly(a, o, hash, mtime) {
        let i = choose|i: int| 0 <= i < a.len() && strict_match(#[trigger] a[i], o, hash, mtime);
        assert(a.contains(a[i]));
        let j = choose|j: int| 0 <= j < b.len() && b[j] == a[i];
        assert(strict_match(b[j], o, hash, mtime));
    }
    if is_packaged_strictly(b, o, hash, mtime) {
        let i = choose|i: int| 0 <= i < b.len() && strict_match(#[trigger] b[i], o, hash, mtime);
        assert(b.contains(b[i]));
        let j = choose|j: int| 0 <= j < a.len() && a[j] == b[i];
        assert(strict_match(a[j], o, hash, mtime));
    }
}

/// Strict identity with neither digest nor time requested is baseline identity.
proof fn lemma_baseline_is_loosest_strict(pkg: Seq<RecordView>, o: RecordView)
    ensures
        is_packaged_strictly(pkg, o, false, false) == is_packaged(pkg, o),
{
    if is_packaged(pkg, o) {
        let i = choose|i: int| 0 <= i < pkg.len() && same_identity(#[trigger] pkg[i], o);
        assert(strict_match(pkg[i], o, false, false));
    }
}

/// A copy of every record, in order.
fn copy_records(v: &Vec<FileInfo>) -> (r: Vec<FileInfo>)
    ensures
        views(r@) == views(v@),
{
    let mut r: Vec<FileInfo> = Vec::new();
    let mut i: usize = 0;
    while i < v.len()
        invariant
            i <= v@.len(),
            views(r@) == views(v@).take(i as int),
        decreases v.len() - i,
    {
        let ghost before = r@;
        r.push(v[i].duplicate());
        assert(views(r@) =~= views(before).push(v@[i as int]@));
        assert(views(v@).take(i + 1) =~= views(v@).take(i as int).push(v@[i as int]@));
        i = i + 1;
    }
    assert(views(v@).take(v@.len() as int) =~= views(v@));
    r
}

/// Whether a record of the path-ordered `sorted` matches `o` strictly,
/// looking only at the records with its path.
fn contains_strictly(sorted: &Vec<FileInfo>, o: &FileInfo, hash: bool, mtime: bool) -> (r: bool)
    requires
        sorted_by_path(views(sorted@)),
    ensures
        r == is_packaged_strictly(views(sorted@), o@, hash, mtime),
{
    let (lo, hi) = equal_path_range(sorted, o.path.as_str());
    let mut i: usize = lo;
    while i < hi
        invariant
            lo <= i <= hi <= sorted@.len(),
            forall|m: int| 0 <= m < sorted@.len() ==> ((lo <= m < hi) <==> (#[trigger] views(
                sorted@,
            )[m]).path == o@.path),
            forall|m: int|
                lo <= m < i ==> !strict_match(#[trigger] views(sorted@)[m], o@, hash, mtime),
        decreases hi - i,
    {
        if sorted[i].strict_match(o, hash, mtime) {
            assert(strict_match(views(sorted@)[i as int], o@, hash, mtime));
            return true;
        }
        i = i + 1;
    }
    assert forall|m: int| 0 <= m < sorted@.len() implies !strict_match(
        #[trigger] views(sorted@)[m],
        o@,
        hash,
        mtime,
    ) by {
        if m < lo || m >= hi {
            assert(views(sorted@)[m].path != o@.path);
        }
    }
    false
}

/// Files present on disk with no manifest entry at all: the observed records
/// whose kind and path no package record has. Digests and times play no part.
pub fn find_untracked_files(pkg_files: &Vec<FileInfo>, fs_files: &Vec<FileInfo>) -> (r: Vec<FileInfo>)
    ensures
        views(r@) == untracked(views(pkg_files@), views(fs_files@)),
{
    let ghost t = views(pkg_files@);
    let ghost obs = views(fs_files@);
    let sorted = sort_by_path(copy_records(pkg_files));
    let mut r: Vec<FileInfo> = Vec::new();
    let mut i: usize = 0;
    while i < fs_files.len()
        invariant
            i <= fs_files.len(),
            t == views(pkg_files@),
            obs == views(fs_files@),
            sorted_by_path(views(sorted@)),
            views(sorted@).to_multiset() == t.to_multiset(),
            views(r@) == obs.take(i as int).filter(untracked_pred(t)),
        decreases fs_files.len() - i,
    {
        let o = &fs_files[i];
        let known = contains_strictly(&sorted, o, false, false);
        proof {
            lemma_same_records(views(sorted@), t, o@, false, false);
            lemma_baseline_is_loosest_strict(views(sorted@), o@);
        }
        proof {
            obs.lemma_take_succ_push(i as int);
            obs.take(i as int).lemma_filter_push(obs[i as int], untracked_pred(t));
        }
        if !known {
            let ghost before = r@;
            r.push(o.duplicate());
            assert(views(r@) =~= views(before).push(o@));
        }
        i = i + 1;
    }
    assert(obs.take(fs_files.len() as int) =~= obs);
    r
}

/// Files whose manifest entry matches in kind and path but not in the
/// requested digest or modification time: the observed records with the
/// baseline identity of a package record and the strict identity of none.
/// Empty when neither digest nor time is requested.
pub fn find_modified_files(
    pkg_files: &Vec<FileInfo>,
    fs_files: &Vec<FileInfo>,
    hash: bool,
    mtime: bool,
) -> (r: Vec<FileInfo>)
    ensures
        views(r@) == modified(views(pkg_files@), views(fs_files@), hash, mtime),
{
    let ghost t = views(pkg_files@);
    let ghost obs = views(fs_files@);
    let sorted = sort_by_path(copy_records(pkg_files));
    let mut r: Vec<FileInfo> = Vec::new();
    let mut i: usize = 0;
    while i < fs_files.len()
        invariant
            i <= fs_files.len(),
            t == views(pkg_files@),
            obs == views(fs_files@),
            sorted_by_path(views(sorted@)),
            views(sorted@).to_multiset() == t.to_multiset(),
            views(r@) == obs.take(i as int).filter(modified_pred(t, hash, mtime)),
        decreases fs_files.len() - i,
    {
        let o = &fs_files[i];
        let changed = contains_strictly(&sorted, o, false, false) && !contains_strictly(
            &sorted,
            o,
            hash,
            mtime,
        );
        proof {
            lemma_same_records(views(sorted@), t, o@, hash, mtime);
            lemma_same_records(views(sorted@), t, o@, false, false);
            lemma_baseline_is_loosest_strict(views(sorted@), o@);
        }
        proof {
            obs.lemma_take_succ_push(i as int);
            obs.take(i as int).lemma_filter_push(obs[i as int], modified_pred(t, hash, mtime));
        }
        if changed {
            let ghost before = r@;
            r.push(o.duplicate());
            assert(views(r@) =~= views(before).push(o@));
        }
        i = i + 1;
    }
    assert(obs.take(fs_files.len() as int) =~= obs);
    r
}

/// Reconciles the packaged files with the files on disk under the policy of
/// `settings`: the untracked files, and, when digests or times are compared,
/// the modified ones (none otherwise); each list ordered by path.
pub fn find_cruft(pkg_files: &Vec<FileInfo>, fs_files: &Vec<FileInfo>, settings: &Settings) -> (r: (
    Vec<FileInfo>,
    Vec<FileInfo>,
))
    ensures
        views(r.0@).to_multiset() == untracked(views(pkg_files@), views(fs_files@)).to_multiset(),
        sorted_by_path(views(r.0@)),
        views(r.1@).to_multiset() == modified(
            views(pkg_files@),
            views(fs_files@),
            settings.md5,
            settings.mtime,
        ).to_multiset(),
        sorted_by_path(views(r.1@)),
{
    let untracked_files = find_untracked_files(pkg_files, fs_files);
    let modified_files = if settings.md5() || settings.mtime() {
        find_modified_files(pkg_files, fs_files, settings.md5(), settings.mtime())
    } else {
        proof {
            lemma_strict_widening(views(pkg_files@), views(fs_files@), false, false);
        }
        let v: Vec<FileInfo> = Vec::new();
        assert(views(v@) =~= modified(views(pkg_files@), views(fs_files@), false, false));
        v
    };
    (sort_by_path(untracked_files), sort_by_path(modified_files))
}

/// How an observed record `o` has changed against the package records of
/// its kind and path: its digest counts as changed when digests are compared
/// and none of them has it, its time likewise; `Equal` when no package
/// record has its kind and path.
pub open spec fn change(pkg: Seq<RecordView>, o: RecordView, hash: bool, mtime: bool) -> Comparison {
    if !is_packaged(pkg, o) {
        Comparison::Equal
    } else {
        comparison_of(
            hash && !is_packaged_strictly(pkg, o, true, false),
            mtime && !is_packaged_strictly(pkg, o, false, true),
        )
    }
}

fn change_of(sorted: &Vec<FileInfo>, f: &FileInfo, hash: bool, mtime: bool) -> (r: Comparison)
    requires
        sorted_by_path(views(sorted@)),
    ensures
        r == change(views(sorted@), f@, hash, mtime),
{
    proof {
        lemma_baseline_is_loosest_strict(views(sorted@), f@);
    }
    if !contains_strictly(sorted, f, false, false) {
        return Comparison::Equal;
    }
    let hash_differs = hash && !contains_strictly(sorted, f, true, false);
    let mtime_differs = mtime && !contains_strictly(sorted, f, false, true);
    if hash_differs && mtime_differs {
        Comparison::DifferByBoth
    } else if hash_differs {
        Comparison::DifferByHash
    } else if mtime_differs {
        Comparison::DifferByMTime
    } else {
        Comparison::Equal
    }
}

/// How each of `files` has changed against the package records (see
/// `change`), in order.
pub fn find_changes(pkg_files: &Vec<FileInfo>, files: &Vec<FileInfo>, hash: bool, mtime: bool) -> (r:
    Vec<Comparison>)
    ensures
        r@.len() == files@.len(),
        forall|k: int|
            0 <= k < files@.len() ==> r@[k] == change(
                views(pkg_files@),
                (#[trigger] files@[k])@,
                hash,
                mtime,
            ),
{
    let ghost t = views(pkg_files@);
    let sorted = sort_by_path(copy_records(pkg_files));
    let mut r: Vec<Comparison> = Vec::new();
    let mut k: usize = 0;
    while k < files.len()
        invariant
            k <= files@.len(),
            t == views(pkg_files@),
            sorted_by_path(views(sorted@)),
            views(sorted@).to_multiset() == t.to_multiset(),
            r@.len() == k,
            forall|m: int|
                0 <= m < k ==> r@[m] == change(t, (#[trigger] files@[m])@, hash, mtime),
        decreases files.len() - k,
    {
        let c = change_of(&sorted, &files[k], hash, mtime);
        proof {
            lemma_same_records(views(sorted@), t, files@[k as int]@, false, false);
            lemma_same_records(views(sorted@), t, files@[k as int]@, true, false);
            lemma_same_records(views(sorted@), t, files@[k as int]@, false, true);
            lemma_baseline_is_loosest_strict(views(sorted@), files@[k as int]@);
            lemma_baseline_is_loosest_strict(t, files@[k as int]@);
        }
        r.push(c);
        k = k + 1;
    }
    r
}

/// Asking for digest or time comparison never takes a file off the
/// untracked list and never reports a file in both lists: every observed
/// record that no package record has the kind and path of is untracked, a
/// modified record always has a package record of its kind and path, and
/// with neither comparison asked for nothing is modified.
pub proof fn lemma_strict_widening(
    pkg: Seq<RecordView>,
    observed: Seq<RecordView>,
    hash: bool,
    mtime: bool,
)
    ensures
        modified(pkg, observed, false, false).len() == 0,
        forall|j: int|
            0 <= j < observed.len() && !is_packaged(pkg, #[trigger] observed[j]) ==> untracked(
                pkg,
                observed,
            ).contains(observed[j]),
        forall|k: int|
            0 <= k < modified(pkg, observed, hash, mtime).len() ==> {
                &&& is_packaged(pkg, #[trigger] modified(pkg, observed, hash, mtime)[k])
                &&& !untracked(pkg, observed).contains(modified(pkg, observed, hash, mtime)[k])
            },
{
    broadcast use vstd::seq_lib::group_filter_ensures;

    let none = modified(pkg, observed, false, false);
    if none.len() > 0 {
        let o = none[0];
        assert(is_packaged(pkg, o));
        let i = choose|i: int| 0 <= i < pkg.len() && same_identity(#[trigger] pkg[i], o);
        assert(strict_match(pkg[i], o, false, false));
    }
    let m = modified(pkg, observed, hash, mtime);
    let u = untracked(pkg, observed);
    assert forall|k: int| 0 <= k < m.len() implies !u.contains(#[trigger] m[k]) by {
        if u.contains(m[k]) {
            let j = choose|j: int| 0 <= j < u.len() && u[j] == m[k];
            assert(!is_packaged(pkg, u[j]));
        }
    }
}

/// How often `x` stands in a filtered sequence: as often as in the
/// sequence when it passes the filter, else never.
proof fn lemma_filter_count(s: Seq<RecordView>, p: spec_fn(RecordView) -> bool, x: RecordView)
    ensures
        s.filter(p).to_multiset().count(x) == if p(x) {
            s.to_multiset().count(x)
        } else {
            0
        },
    decreases s.len(),
{
    broadcast use vstd::seq_lib::group_to_multiset_ensures;

    if s.len() == 0 {
        assert(s.filter(p) =~= s);
    } else {
        let init = s.drop_last();
        lemma_filter_count(init, p, x);
        assert(init.push(s.last()) =~= s);
        init.lemma_filter_push(s.last(), p);
        vstd::seq_lib::to_multiset_build(init, s.last());
        if p(s.last()) {
            vstd::seq_lib::to_multiset_build(init.filter(p), s.last());
        }
    }
}

/// The report depends only on which records the two scans produced, not on
/// the order in which they were collected: reordering the packaged or the
/// observed records reorders the untracked and the modified lists and
/// changes nothing else.
pub proof fn lemma_collection_order_irrelevant(
    pkg1: Seq<RecordView>,
    pkg2: Seq<RecordView>,
    observed1: Seq<RecordView>,
    observed2: Seq<RecordView>,
    hash: bool,
    mtime: bool,
)
    requires
        pkg1.to_multiset() == pkg2.to_multiset(),
        observed1.to_multiset() == observed2.to_multiset(),
    ensures
        untracked(pkg1, observed1).to_multiset() == untracked(pkg2, observed2).to_multiset(),
        modified(pkg1, observed1, hash, mtime).to_multiset() == modified(
            pkg2,
            observed2,
            hash,
            mtime,
        ).to_multiset(),
{
    assert forall|x: RecordView|
        #[trigger] untracked(pkg1, observed1).to_multiset().count(x) == untracked(
            pkg2,
            observed2,
        ).to_multiset().count(x) by {
        lemma_same_records(pkg1, pkg2, x, hash, mtime);
        lemma_filter_count(observed1, untracked_pred(pkg1), x);
        lemma_filter_count(observed2, untracked_pred(pkg2), x);
    }
    assert forall|x: RecordView|
        #[trigger] modified(pkg1, observed1, hash, mtime).to_multiset().count(x) == modified(
            pkg2,
            observed2,
            hash,
            mtime,
        ).to_multiset().count(x) by {
        lemma_same_records(pkg1, pkg2, x, hash, mtime);
        lemma_filter_count(observed1, modified_pred(pkg1, hash, mtime), x);
        lemma_filter_count(observed2, modified_pred(pkg2, hash, mtime), x);
    }
    assert(untracked(pkg1, observed1).to_multiset() =~= untracked(pkg2, observed2).to_multiset());
    assert(modified(pkg1, observed1, hash, mtime).to_multiset() =~= modified(
        pkg2,
        observed2,
        hash,
        mtime,
    ).to_multiset());
}

} // verus!
