use vstd::prelude::*;

use crate::file_info::{views, FileInfo, RecordView};

verus! {

/// `a` comes before `b` in lexicographic order of characters.
pub open spec fn path_lt(a: Seq<char>, b: Seq<char>) -> bool
    decreases a.len(),
{
    if a.len() == 0 {
        b.len() > 0
    } else if b.len() == 0 {
        false
    } else if a[0] != b[0] {
        a[0] < b[0]
    } else {
        path_lt(a.drop_first(), b.drop_first())
    }
}

/// No record comes after one with a larger path.
pub open spec fn sorted_by_path(s: Seq<RecordView>) -> bool {
    forall|i: int, j: int| 0 <= i < j < s.len() ==> !path_lt(#[trigger] s[j].path, #[trigger] s[i].path)
}

/// No two paths come each before the other; no path comes before itself.
pub proof fn lemma_path_lt_asym(a: Seq<char>, b: Seq<char>)
    ensures
        path_lt(a, b) ==> !path_lt(b, a),
    decreases a.len(),
{
    if a.len() > 0 && b.len() > 0 && a[0] == b[0] {
        lemma_path_lt_asym(a.drop_first(), b.drop_first());
    }
}

/// Coming before is transitive.
pub proof fn lemma_path_lt_trans(a: Seq<char>, b: Seq<char>, c: Seq<char>)
    requires
        path_lt(a, b),
        path_lt(b, c),
    ensures
        path_lt(a, c),
    decreases a.len(),
{
    if a.len() > 0 && b.len() > 0 && c.len() > 0 && a[0] == b[0] && b[0] == c[0] {
        lemma_path_lt_trans(a.drop_first(), b.drop_first(), c.drop_first());
    }
}

/// Whether `a` comes before `b` (see `path_lt`).
pub fn path_less(a: &str, b: &str) -> (r: bool)
    ensures
        r == path_lt(a@, b@),
{
    let al = a.unicode_len();
    let bl = b.unicode_len();
    let mut k: usize = 0;
    assert(a@.skip(0) =~= a@);
    assert(b@.skip(0) =~= b@);
    while k < al && k < bl
        invariant
            al == a@.len(),
            bl == b@.len(),
            k <= al,
            k <= bl,
            path_lt(a@, b@) == path_lt(a@.skip(k as int), b@.skip(k as int)),
        decreases al - k,
    {
        let x = a.get_char(k);
        let y = b.get_char(k);
        assert(a@.skip(k as int)[0] == x);
        assert(b@.skip(k as int)[0] == y);
        if x != y {
            return x < y;
        }
        assert(a@.skip(k as int).drop_first() =~= a@.skip(k + 1));
        assert(b@.skip(k as int).drop_first() =~= b@.skip(k + 1));
        k = k + 1;
    }
    k == al && k < bl
}

/// Lexicographic order is total: two paths are equal or one comes first.
pub proof fn lemma_path_lt_total(a: Seq<char>, b: Seq<char>)
    ensures
        a == b || path_lt(a, b) || path_lt(b, a),
    decreases a.len(),
{
    if a.len() == 0 || b.len() == 0 {
        if a.len() == 0 && b.len() == 0 {
            assert(a =~= b);
        }
    } else if a[0] == b[0] {
        lemma_path_lt_total(a.drop_first(), b.drop_first());
        if a.drop_first() == b.drop_first() {
            assert(a.len() == a.drop_first().len() + 1);
            assert(b.len() == b.drop_first().len() + 1);
            assert forall|i: int| 0 <= i < a.len() implies a[i] == b[i] by {
                if i > 0 {
                    assert(a[i] == a.drop_first()[i - 1]);
                    assert(b[i] == b.drop_first()[i - 1]);
                }
            }
            assert(a =~= b);
        }
    }
}

/// Coming no earlier is transitive.
pub proof fn lemma_path_le_trans(a: Seq<char>, b: Seq<char>, c: Seq<char>)
    requires
        !path_lt(b, a),
        !path_lt(c, b),
    ensures
        !path_lt(c, a),
{
    lemma_path_lt_total(a, b);
    lemma_path_lt_total(b, c);
    lemma_path_lt_asym(a, c);
    if path_lt(a, b) && path_lt(b, c) {
        lemma_path_lt_trans(a, b, c);
    }
}

/// Merges two path-ordered lists into one path-ordered list.
fn merge(a: Vec<FileInfo>, b: Vec<FileInfo>) -> (r: Vec<FileInfo>)
    requires
        sorted_by_path(views(a@)),
        sorted_by_path(views(b@)),
    ensures
        views(r@).to_multiset() == views(a@).to_multiset().add(views(b@).to_multiset()),
        sorted_by_path(views(r@)),
{
    broadcast use vstd::seq_lib::group_to_multiset_ensures;

    let ghost va = views(a@);
    let ghost vb = views(b@);
    let mut r: Vec<FileInfo> = Vec::new();
    let mut i: usize = 0;
    let mut j: usize = 0;
    while i < a.len() || j < b.len()
        invariant
            va == views(a@),
            vb == views(b@),
            sorted_by_path(va),
            sorted_by_path(vb),
            i <= a@.len(),
            j <= b@.len(),
            sorted_by_path(views(r@)),
            views(r@).to_multiset() == va.take(i as int).to_multiset().add(
                vb.take(j as int).to_multiset(),
            ),
            forall|k: int|
                0 <= k < r@.len() ==> (i < a@.len() ==> !path_lt(
                    va[i as int].path,
                    #[trigger] views(r@)[k].path,
                )) && (j < b@.len() ==> !path_lt(vb[j as int].path, views(r@)[k].path)),
        decreases a.len() + b.len() - i - j,
    {
        let take_a = j >= b.len() || (i < a.len() && !path_less(
            b[j].path.as_str(),
            a[i].path.as_str(),
        ));
        let ghost old_r = views(r@);
        if take_a {
            let x = a[i].duplicate();
            r.push(x);
            proof {
                assert(views(r@) =~= old_r.push(va[i as int]));
                assert(va.take(i + 1) =~= va.take(i as int).push(va[i as int]));
                vstd::seq_lib::to_multiset_build(va.take(i as int), va[i as int]);
                vstd::seq_lib::to_multiset_build(old_r, va[i as int]);
                let s = views(r@);
                assert forall|x: int, y: int| 0 <= x < y < s.len() implies !path_lt(
                    #[trigger] s[y].path,
                    #[trigger] s[x].path,
                ) by {
                    if y == old_r.len() {
                        assert(s[x] == old_r[x]);
                    } else {
                        assert(s[x] == old_r[x] && s[y] == old_r[y]);
                    }
                }
                assert forall|k: int| 0 <= k < s.len() implies (i + 1 < a@.len() ==> !path_lt(
                    va[i + 1].path,
                    #[trigger] s[k].path,
                )) && (j < b@.len() ==> !path_lt(vb[j as int].path, s[k].path)) by {
                    if i + 1 < a@.len() {
                        assert(!path_lt(va[i + 1].path, va[i as int].path));
                        if k < old_r.len() {
                            lemma_path_le_trans(s[k].path, va[i as int].path, va[i + 1].path);
                        }
                    }
                }
            }
            i = i + 1;
        } else {
            let x = b[j].duplicate();
            r.push(x);
            proof {
                assert(views(r@) =~= old_r.push(vb[j as int]));
                assert(vb.take(j + 1) =~= vb.take(j as int).push(vb[j as int]));
                vstd::seq_lib::to_multiset_build(vb.take(j as int), vb[j as int]);
                vstd::seq_lib::to_multiset_build(old_r, vb[j as int]);
                if i < a@.len() {
                    lemma_path_lt_asym(vb[j as int].path, va[i as int].path);
                }
                let s = views(r@);
                assert forall|x: int, y: int| 0 <= x < y < s.len() implies !path_lt(
                    #[trigger] s[y].path,
                    #[trigger] s[x].path,
                ) by {
                    if y == old_r.len() {
                        assert(s[x] == old_r[x]);
                    } else {
                        assert(s[x] == old_r[x] && s[y] == old_r[y]);
                    }
                }
                assert forall|k: int| 0 <= k < s.len() implies (i < a@.len() ==> !path_lt(
                    va[i as int].path,
                    #[trigger] s[k].path,
                )) && (j + 1 < b@.len() ==> !path_lt(vb[j + 1].path, s[k].path)) by {
                    if j + 1 < b@.len() {
                        assert(!path_lt(vb[j + 1].path, vb[j as int].path));
                        if k < old_r.len() {
                            lemma_path_le_trans(s[k].path, vb[j as int].path, vb[j + 1].path);
                        }
                    }
                }
            }
            j = j + 1;
        }
    }
    assert(va.take(a@.len() as int) =~= va);
    assert(vb.take(b@.len() as int) =~= vb);
    r
}

/// The same records, ordered by path.
pub fn sort_by_path(v: Vec<FileInfo>) -> (r: Vec<FileInfo>)
    ensures
        views(r@).to_multiset() == views(v@).to_multiset(),
        sorted_by_path(views(r@)),
    decreases v@.len(),
{
    broadcast use vstd::seq_lib::group_to_multiset_ensures;

    if v.len() <= 1 {
        return v;
    }
    let mut left = v;
    let ghost whole = views(left@);
    let right = left.split_off(left.len() / 2);
    proof {
        assert(whole =~= views(left@) + views(right@));
        vstd::seq_lib::lemma_multiset_commutative(views(left@), views(right@));
    }
    let left = sort_by_path(left);
    let right = sort_by_path(right);
    merge(left, right)
}

/// The range of a path-ordered list whose records have path `p`: exactly
/// the positions from `r.0` up to, not including, `r.1`.
pub fn equal_path_range(sorted: &Vec<FileInfo>, p: &str) -> (r: (usize, usize))
    requires
        sorted_by_path(views(sorted@)),
    ensures
        r.0 <= r.1 <= sorted@.len(),
        forall|i: int|
            0 <= i < sorted@.len() ==> ((r.0 <= i < r.1) <==> (#[trigger] views(sorted@)[i]).path
                == p@),
{
    let ghost s = views(sorted@);
    let mut lo: usize = 0;
    let mut hi: usize = sorted.len();
    while lo < hi
        invariant
            s == views(sorted@),
            sorted_by_path(s),
            lo <= hi <= s.len(),
            forall|i: int| 0 <= i < lo ==> path_lt(#[trigger] s[i].path, p@),
            forall|i: int| hi <= i < s.len() ==> !path_lt(#[trigger] s[i].path, p@),
        decreases hi - lo,
    {
        let mid = lo + (hi - lo) / 2;
        if path_less(sorted[mid].path.as_str(), p) {
            proof {
                assert forall|i: int| 0 <= i <= mid implies path_lt(#[trigger] s[i].path, p@) by {
                    if i < mid && !path_lt(s[i].path, p@) {
                        lemma_path_le_trans(p@, s[i].path, s[mid as int].path);
                    }
                }
            }
            lo = mid + 1;
        } else {
            proof {
                assert forall|i: int| mid <= i < s.len() implies !path_lt(#[trigger] s[i].path, p@) by {
                    if i > mid {
                        lemma_path_le_trans(p@, s[mid as int].path, s[i].path);
                    }
                }
            }
            hi = mid;
        }
    }
    let mut k: usize = lo;
    while k < sorted.len() && crate::text::same_text(sorted[k].path.as_str(), p)
        invariant
            s == views(sorted@),
            lo <= k <= s.len(),
            forall|i: int| lo <= i < k ==> (#[trigger] s[i]).path == p@,
        decreases sorted.len() - k,
    {
        k = k + 1;
    }
    proof {
        assert forall|i: int| 0 <= i < s.len() implies ((lo <= i < k) <==> (#[trigger] s[i]).path
            == p@) by {
            if i < lo {
                lemma_path_lt_asym(s[i].path, p@);
            } else if i >= k {
                lemma_path_lt_total(s[k as int].path, p@);
                if i > k && s[i].path == p@ {
                    assert(!path_lt(s[i].path, s[k as int].path));
                }
            }
        }
    }
    (lo, k)
}

} // verus!
