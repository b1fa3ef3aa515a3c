use vstd::prelude::*;

use crate::symlink::Symlink;

verus! {

/// `p` lies under `prefix` component-wise: `prefix` is a leading part of `p`
/// that ends where `p` ends or where a `/` of `p` follows.
/// So `/lib/foo` lies under `/lib`, while `/lib64/foo` does not.
pub open spec fn is_under(p: Seq<char>, prefix: Seq<char>) -> bool {
    &&& prefix.len() <= p.len()
    &&& p.subrange(0, prefix.len() as int) == prefix
    &&& (p.len() == prefix.len() || p[prefix.len() as int] == '/')
}

/// `p` with the leading `src` replaced by `dst`.
pub open spec fn rebase(p: Seq<char>, src: Seq<char>, dst: Seq<char>) -> Seq<char> {
    dst + p.subrange(src.len() as int, p.len() as int)
}

/// The rewrite of `p` by the first of `links[i..]` whose source it lies under;
/// `p` itself when there is none.
pub open spec fn normalize_from(p: Seq<char>, links: Seq<Symlink>, i: int) -> Seq<char>
    decreases links.len() - i,
{
    if i < 0 || i >= links.len() {
        p
    } else if is_under(p, links[i].src@) {
        rebase(p, links[i].src@, links[i].dst@)
    } else {
        normalize_from(p, links, i + 1)
    }
}

/// The merged-usr form of `p`: rewritten by the first mapping that applies.
pub open spec fn normalize(p: Seq<char>, links: Seq<Symlink>) -> Seq<char> {
    normalize_from(p, links, 0)
}

/// No destination lies under a source, and no source under a destination:
/// a rewritten path is never rewritten again.
pub open spec fn links_separated(links: Seq<Symlink>) -> bool {
    forall|i: int, j: int|
        0 <= i < links.len() && 0 <= j < links.len() ==> {
            &&& !is_under(#[trigger] links[i].dst@, #[trigger] links[j].src@)
            &&& !is_under(links[j].src@, links[i].dst@)
        }
}

/// Whether `p` lies under `prefix` (see `is_under`).
pub fn path_is_under(p: &str, prefix: &str) -> (r: bool)
    ensures
        r == is_under(p@, prefix@),
{
    let pl = p.unicode_len();
    let ql = prefix.unicode_len();
    if ql > pl {
        return false;
    }
    let mut i: usize = 0;
    while i < ql
        invariant
            ql <= pl,
            pl == p@.len(),
            ql == prefix@.len(),
            i <= ql,
            forall|j: int| 0 <= j < i ==> p@[j] == prefix@[j],
        decreases ql - i,
    {
        if p.get_char(i) != prefix.get_char(i) {
            assert(p@.subrange(0, ql as int)[i as int] != prefix@[i as int]);
            return false;
        }
        i = i + 1;
    }
    assert(p@.subrange(0, ql as int) =~= prefix@);
    pl == ql || p.get_char(ql) == '/'
}

/// Rewrites a manifest path to its merged-usr form: the first mapping whose
/// source the path lies under has that source replaced by its destination;
/// mappings are not chained, and a path under none of them is unchanged.
pub fn normalize_path(path: &str, links: &Vec<Symlink>) -> (r: String)
    ensures
        r@ == normalize(path@, links@),
{
    let mut i: usize = 0;
    while i < links.len()
        invariant
            i <= links.len(),
            normalize(path@, links@) == normalize_from(path@, links@, i as int),
        decreases links.len() - i,
    {
        let link = &links[i];
        if path_is_under(path, link.src()) {
            let rest = path.substring_char(link.src.unicode_len(), path.unicode_len());
            return String::from_str(link.dst()).concat(rest);
        }
        i = i + 1;
    }
    String::from_str(path)
}

/// A path built as `dst` followed by nothing or by a `/`-led remainder lies
/// under `s` only if `dst` lies under `s` or `s` under `dst`.
proof fn lemma_rebased_under(dst: Seq<char>, rest: Seq<char>, s: Seq<char>)
    requires
        rest.len() == 0 || rest[0] == '/',
        is_under(dst + rest, s),
    ensures
        is_under(dst, s) || is_under(s, dst),
{
    let q = dst + rest;
    if s.len() <= dst.len() {
        assert(dst.subrange(0, s.len() as int) =~= q.subrange(0, s.len() as int));
        if s.len() < dst.len() {
            assert(q[s.len() as int] == dst[s.len() as int]);
        }
    } else {
        assert(s.subrange(0, dst.len() as int) =~= q.subrange(0, dst.len() as int));
        assert(q.subrange(0, s.len() as int).subrange(0, dst.len() as int) =~= q.subrange(
            0,
            dst.len() as int,
        ));
        assert(q.subrange(0, dst.len() as int) =~= dst);
        assert(s[dst.len() as int] == q.subrange(0, s.len() as int)[dst.len() as int]);
        assert(q[dst.len() as int] == rest[0]);
    }
}

/// A path under none of `links[i..]` sources comes out unchanged.
proof fn lemma_untouched(p: Seq<char>, links: Seq<Symlink>, i: int)
    requires
        0 <= i,
        forall|j: int| i <= j < links.len() ==> !is_under(p, #[trigger] links[j].src@),
    ensures
        normalize_from(p, links, i) == p,
    decreases links.len() - i,
{
    if i < links.len() {
        lemma_untouched(p, links, i + 1);
    }
}

/// The rewrite of `p` is the rewrite by some mapping it lies under, or `p`.
proof fn lemma_normalize_from_cases(p: Seq<char>, links: Seq<Symlink>, i: int)
    requires
        0 <= i,
    ensures
        normalize_from(p, links, i) == p || exists|k: int|
            i <= k < links.len() && is_under(p, #[trigger] links[k].src@) && normalize_from(
                p,
                links,
                i,
            ) == rebase(p, links[k].src@, links[k].dst@),
    decreases links.len() - i,
{
    if i < links.len() && !is_under(p, links[i].src@) {
        lemma_normalize_from_cases(p, links, i + 1);
    }
}

/// Normalizing twice gives what normalizing once gives, for mappings of
/// which no destination and source lie one under the other.
pub proof fn lemma_normalize_idempotent(p: Seq<char>, links: Seq<Symlink>)
    requires
        links_separated(links),
    ensures
        normalize(normalize(p, links), links) == normalize(p, links),
{
    let q = normalize(p, links);
    lemma_normalize_from_cases(p, links, 0);
    if q == p {
    } else {
        let k = choose|k: int|
            0 <= k < links.len() && is_under(p, #[trigger] links[k].src@) && q == rebase(
                p,
                links[k].src@,
                links[k].dst@,
            );
        let src = links[k].src@;
        let dst = links[k].dst@;
        let rest = p.subrange(src.len() as int, p.len() as int);
        if rest.len() > 0 {
            assert(rest[0] == p[src.len() as int]);
        }
        assert forall|j: int| 0 <= j < links.len() implies !is_under(q, #[trigger] links[j].src@) by {
            if is_under(q, links[j].src@) {
                lemma_rebased_under(dst, rest, links[j].src@);
                assert(!is_under(links[k].dst@, links[j].src@));
            }
        }
        lemma_untouched(q, links, 0);
    }
}

/// A path that lies under no mapping's source is returned unchanged.
pub proof fn lemma_normalize_unmapped(p: Seq<char>, links: Seq<Symlink>)
    requires
        forall|j: int| 0 <= j < links.len() ==> !is_under(p, #[trigger] links[j].src@),
    ensures
        normalize(p, links) == p,
{
    lemma_untouched(p, links, 0);
}

} // verus!
