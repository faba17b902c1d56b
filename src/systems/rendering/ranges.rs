use vstd::prelude::*;
use vstd::std_specs::btree::spec_btree_keys_iter;
use vstd::std_specs::iter::IteratorSpec;
use vstd::std_specs::cmp::OrdSpec;
use vstd::laws_cmp::obeys_cmp;
use vstd::std_specs::btree::increasing_seq;
use std::collections::BTreeSet;

verus! {

broadcast use vstd::laws_cmp::group_laws_cmp;

/// One past the last element of a region held as `(start, length)`.
pub open spec fn range_end(r: (usize, usize)) -> int {
    r.0 + r.1
}

/// The regions already handed out from one buffer: none empty, none
/// overlapping another, all ending within the address space.
pub open spec fn ranges_wf(rs: Set<(usize, usize)>) -> bool {
    &&& rs.finite()
    &&& forall|r: (usize, usize)| #[trigger] rs.contains(r) ==> r.1 > 0 && range_end(r) <= usize::MAX
    &&& forall|a: (usize, usize), b: (usize, usize)|
        #[trigger] rs.contains(a) && #[trigger] rs.contains(b) && a != b ==> range_end(a) <= b.0
            || range_end(b) <= a.0
}

/// A place where a new region may begin: the start of the buffer or the end
/// of a region already handed out.
pub open spec fn is_candidate(rs: Set<(usize, usize)>, p: int) -> bool {
    p == 0 || exists|r: (usize, usize)| #[trigger] rs.contains(r) && range_end(r) == p
}

/// No region handed out begins within `[p, p + size]`: the gap after `p` is
/// strictly wider than `size`, or runs to the end of the buffer.
pub open spec fn has_room(rs: Set<(usize, usize)>, p: int, size: int) -> bool {
    forall|r: (usize, usize)| #[trigger] rs.contains(r) ==> !(p <= r.0 <= p + size)
}

/// `p` is where first-fit places a region of `size` elements: the lowest
/// candidate with room after it.
pub open spec fn is_first_fit(rs: Set<(usize, usize)>, size: int, p: int) -> bool {
    &&& is_candidate(rs, p)
    &&& has_room(rs, p, size)
    &&& forall|c: int| 0 <= c < p && #[trigger] is_candidate(rs, c) ==> !has_room(rs, c, size)
}

/// `s` lists the regions of `rs` by increasing start.
pub open spec fn lists_in_order(rs: Set<(usize, usize)>, s: Seq<(usize, usize)>) -> bool {
    &&& forall|i: int| 0 <= i < s.len() ==> #[trigger] rs.contains(s[i])
    &&& forall|r: (usize, usize)| #[trigger] rs.contains(r) ==> exists|i: int| 0 <= i < s.len() && s[i] == r
    &&& forall|i: int, j: int| 0 <= i < j < s.len() ==> range_end(#[trigger] s[i]) <= #[trigger] s[j].0
}

/// Where the scan stands before looking at `s[k]`: just past the region before it.
pub open spec fn end_before(s: Seq<(usize, usize)>, k: int) -> int {
    if k == 0 {
        0
    } else {
        range_end(s[k - 1])
    }
}

pub(crate) proof fn lemma_iter_lists_in_order(ranges: &BTreeSet<(usize, usize)>)
    requires
        ranges_wf(ranges@),
    ensures
        lists_in_order(ranges@, spec_btree_keys_iter(ranges).remaining().unref()),
{
    let rem = spec_btree_keys_iter(ranges).remaining();
    let s = rem.unref();
    let rs = ranges@;
    assert(s.to_set() == rs);
    assert(obeys_cmp::<usize>());
    assert(obeys_cmp::<(usize, usize)>());
    assert(obeys_cmp::<&(usize, usize)>());
    assert(increasing_seq(rem));
    assert forall|i: int| 0 <= i < s.len() implies #[trigger] rs.contains(s[i]) by {
        assert(s.to_set().contains(s[i]));
    }
    assert forall|r: (usize, usize)| #[trigger] rs.contains(r) implies exists|i: int|
        0 <= i < s.len() && s[i] == r by {
        assert(s.to_set().contains(r));
    }
    assert forall|i: int, j: int| 0 <= i < j < s.len() implies range_end(#[trigger] s[i])
        <= #[trigger] s[j].0 by {
        assert(<&(usize, usize) as OrdSpec>::cmp_spec(&rem[i], &rem[j]) is Less);
        assert(rem[i] != rem[j]);
        assert(rs.contains(s[i]) && rs.contains(s[j]));
    }
}

/// Facts about the position the scan stops at: `k` regions were passed over,
/// none of them leaving room before it, and `s[k]`, if any, leaves room.
pub(crate) proof fn lemma_scan_result(rs: Set<(usize, usize)>, s: Seq<(usize, usize)>, size: int, k: int)
    requires
        ranges_wf(rs),
        lists_in_order(rs, s),
        size >= 0,
        0 <= k <= s.len(),
        forall|j: int| 0 <= j < k ==> #[trigger] s[j].0 <= end_before(s, j) + size,
        k < s.len() ==> s[k].0 > end_before(s, k) + size,
    ensures
        is_first_fit(rs, size, end_before(s, k)),
{
    let p = end_before(s, k);
    if k > 0 {
        assert(rs.contains(s[k - 1]));
    }
    assert forall|r: (usize, usize)| #[trigger] rs.contains(r) implies !(p <= r.0 <= p + size) by {
        let m = choose|m: int| 0 <= m < s.len() && s[m] == r;
        if m < k {
            if m < k - 1 {
                assert(range_end(s[m]) <= s[k - 1].0);
            }
            assert(rs.contains(s[m]));
        } else if m > k {
            assert(range_end(s[k]) <= s[m].0);
            assert(rs.contains(s[k]));
        }
    }
    assert forall|c: int| 0 <= c < p && #[trigger] is_candidate(rs, c) implies !has_room(rs, c, size) by {
        if c == 0 {
            assert(rs.contains(s[0]));
        } else {
            let a = choose|a: (usize, usize)| #[trigger] rs.contains(a) && range_end(a) == c;
            let m = choose|m: int| 0 <= m < s.len() && s[m] == a;
            if m >= k - 1 {
                if m > k - 1 {
                    assert(range_end(s[k - 1]) <= s[m].0);
                    assert(rs.contains(s[m]));
                }
            }
            assert(m + 1 < k);
            assert(s[m + 1].0 <= end_before(s, m + 1) + size);
            assert(range_end(s[m]) <= s[m + 1].0);
            assert(rs.contains(s[m + 1]));
        }
    }
}

/// Where first-fit places a region of `size` elements among `rs`.
pub open spec fn first_fit(rs: Set<(usize, usize)>, size: int) -> int {
    choose|p: int| is_first_fit(rs, size, p)
}

/// Candidate positions are never negative.
proof fn lemma_candidate_nonneg(rs: Set<(usize, usize)>, p: int)
    requires
        is_candidate(rs, p),
    ensures
        p >= 0,
{
    if p != 0 {
        let a = choose|a: (usize, usize)| #[trigger] rs.contains(a) && range_end(a) == p;
    }
}

pub proof fn lemma_first_fit_unique(rs: Set<(usize, usize)>, size: int, p: int)
    requires
        is_first_fit(rs, size, p),
    ensures
        first_fit(rs, size) == p,
{
    let q = first_fit(rs, size);
    assert(is_first_fit(rs, size, q));
    lemma_candidate_nonneg(rs, p);
    lemma_candidate_nonneg(rs, q);
    if q < p {
        assert(!has_room(rs, q, size));
    }
    if p < q {
        assert(!has_room(rs, p, size));
    }
}

/// A region placed by first-fit overlaps none already handed out.
pub proof fn lemma_insert_first_fit(rs: Set<(usize, usize)>, size: int, p: int)
    requires
        ranges_wf(rs),
        is_first_fit(rs, size, p),
        size > 0,
        p + size <= usize::MAX,
    ensures
        p >= 0,
        ranges_wf(rs.insert((p as usize, size as usize))),
        forall|r: (usize, usize)| #[trigger] rs.contains(r) ==> range_end(r) <= p || r.0 > p + size,
{
    lemma_candidate_nonneg(rs, p);
    let n = (p as usize, size as usize);
    assert forall|r: (usize, usize)| #[trigger] rs.contains(r) implies range_end(r) <= p || r.0 > p
        + size by {
        if r.0 < p {
            let a = choose|a: (usize, usize)| #[trigger] rs.contains(a) && range_end(a) == p;
            if a != r {
                assert(range_end(a) <= r.0 || range_end(r) <= a.0);
            }
        }
    }
    let rs2 = rs.insert(n);
    assert forall|a: (usize, usize), b: (usize, usize)|
        #[trigger] rs2.contains(a) && #[trigger] rs2.contains(b) && a != b implies range_end(a)
        <= b.0 || range_end(b) <= a.0 by {
        if a != n && b != n {
            assert(rs.contains(a) && rs.contains(b));
        }
    }
}

} // verus!
