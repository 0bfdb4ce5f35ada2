//! Ordering of collected part results.
//!
//! A multipart Complete call must receive its parts ordered by part
//! number — not by dispatch order or completion order, since under
//! concurrency part numbers reflect task scheduling order. This module
//! holds the verified sort and the law that sorting any permutation of the
//! part numbers `1..=n` yields exactly the contiguous ascending sequence.

use vstd::prelude::*;
use crate::ETag;

verus! {

broadcast use
    vstd::seq_lib::group_to_multiset_ensures,
    vstd::multiset::group_multiset_axioms,
;

/// The collected results are ordered by part number.
pub open spec fn sorted_by_part_number(s: Seq<ETag>) -> bool {
    forall|i: int, j: int| 0 <= i < j < s.len() ==> s[i].part_number <= s[j].part_number
}

/// No part number occurs twice.
pub open spec fn distinct_part_numbers(s: Seq<ETag>) -> bool {
    forall|i: int, j: int| 0 <= i < j < s.len() ==> s[i].part_number != s[j].part_number
}

/// Position `i` holds part number `i + 1`: the contiguous ascending
/// sequence `1, 2, ..., len` that a Complete call expects.
pub open spec fn contiguous_from_one(s: Seq<ETag>) -> bool {
    forall|i: int| 0 <= i < s.len() ==> #[trigger] s[i].part_number == i + 1
}

/// Sorts the collected part results by part number (insertion sort). The
/// result is ordered and holds exactly the same results, whatever order
/// the part-upload tasks finished in.
pub fn sort_by_part_number(parts: Vec<ETag>) -> (r: Vec<ETag>)
    ensures
        sorted_by_part_number(r@),
        r@.to_multiset() == parts@.to_multiset(),
        r@.len() == parts@.len(),
{
    let mut input = parts;
    let mut out: Vec<ETag> = Vec::new();
    proof {
        assert(out@.to_multiset().add(input@.to_multiset()) =~= parts@.to_multiset());
    }
    while input.len() > 0
        invariant
            sorted_by_part_number(out@),
            out@.to_multiset().add(input@.to_multiset()) =~= parts@.to_multiset(),
            out@.len() + input@.len() == parts@.len(),
        decreases input@.len(),
    {
        let ghost prev_input = input@;
        let ghost prev_out = out@;
        let e = match input.pop() {
            Some(e) => e,
            None => {
                return out;
            },
        };
        let mut j = out.len();
        while j > 0 && out[j - 1].part_number > e.part_number
            invariant
                j <= out@.len(),
                sorted_by_part_number(out@),
                out@ == prev_out,
                forall|k: int| j <= k < out@.len() ==> #[trigger] out@[k].part_number > e.part_number,
            decreases j,
        {
            j = j - 1;
        }
        out.insert(j, e);
        proof {
            prev_out.insert_ensures(j as int, e);
            assert forall|a: int, b: int| 0 <= a < b < out@.len() implies
                out@[a].part_number <= out@[b].part_number by {
                if a < j && b < j {
                    assert(out@[a] == prev_out[a] && out@[b] == prev_out[b]);
                } else if a < j && b == j {
                    assert(out@[a] == prev_out[a]);
                    assert(prev_out[a].part_number <= prev_out[j - 1].part_number);
                } else if a == j && b > j {
                    assert(out@[b] == prev_out[b - 1]);
                } else if a < j && b > j {
                    assert(out@[a] == prev_out[a] && out@[b] == prev_out[b - 1]);
                    if j > 0 {
                        assert(prev_out[a].part_number <= prev_out[j - 1].part_number);
                    }
                    assert(prev_out[b - 1].part_number > e.part_number);
                } else {
                    assert(out@[a] == prev_out[a - 1] && out@[b] == prev_out[b - 1]);
                }
            }
            assert(prev_input =~= input@.push(e));
            assert(out@.to_multiset() =~= prev_out.to_multiset().insert(e));
            assert(prev_input.to_multiset() =~= input@.to_multiset().insert(e));
            assert(out@.to_multiset().add(input@.to_multiset()) =~= prev_out.to_multiset().add(
                prev_input.to_multiset(),
            ));
        }
    }
    proof {
        assert(input@.to_multiset().len() == 0);
        assert(out@.to_multiset().add(input@.to_multiset()) =~= out@.to_multiset());
    }
    out
}

/// An ordered run of distinct part numbers drawn from `1..=len` can only
/// be the contiguous ascending sequence `1, 2, ..., len`.
pub proof fn lemma_sorted_distinct_in_range_is_contiguous(s: Seq<ETag>)
    requires
        sorted_by_part_number(s),
        distinct_part_numbers(s),
        forall|i: int| 0 <= i < s.len() ==> 1 <= #[trigger] s[i].part_number <= s.len(),
    ensures
        contiguous_from_one(s),
{
    assert forall|i: int| 0 <= i < s.len() implies #[trigger] s[i].part_number == i + 1 by {
        lemma_contiguous_lower_bound(s, i);
        lemma_contiguous_upper_bound(s, i);
    }
}

proof fn lemma_contiguous_lower_bound(s: Seq<ETag>, i: int)
    requires
        sorted_by_part_number(s),
        distinct_part_numbers(s),
        forall|k: int| 0 <= k < s.len() ==> 1 <= #[trigger] s[k].part_number <= s.len(),
        0 <= i < s.len(),
    ensures
        s[i].part_number >= i + 1,
    decreases i,
{
    if i > 0 {
        lemma_contiguous_lower_bound(s, i - 1);
        assert(s[i - 1].part_number <= s[i].part_number);
        assert(s[i - 1].part_number != s[i].part_number);
    }
}

proof fn lemma_contiguous_upper_bound(s: Seq<ETag>, i: int)
    requires
        sorted_by_part_number(s),
        distinct_part_numbers(s),
        forall|k: int| 0 <= k < s.len() ==> 1 <= #[trigger] s[k].part_number <= s.len(),
        0 <= i < s.len(),
    ensures
        s[i].part_number <= i + 1,
    decreases s.len() - i,
{
    if i < s.len() - 1 {
        lemma_contiguous_upper_bound(s, i + 1);
        assert(s[i].part_number <= s[i + 1].part_number);
        assert(s[i].part_number != s[i + 1].part_number);
    }
}

/// The part-ordering law: sorting any rearrangement of results whose part
/// numbers were assigned `1, 2, ..., n` in dispatch order yields exactly
/// those results in contiguous ascending part-number order — regardless of
/// the order in which the part-upload tasks finished.
pub proof fn lemma_sort_of_permutation_is_contiguous(sorted: Seq<ETag>, assigned: Seq<ETag>)
    requires
        sorted_by_part_number(sorted),
        sorted.to_multiset() == assigned.to_multiset(),
        contiguous_from_one(assigned),
    ensures
        sorted.len() == assigned.len(),
        contiguous_from_one(sorted),
{
    assert(sorted.len() == assigned.len()) by {
        assert(sorted.to_multiset().len() == sorted.len());
        assert(assigned.to_multiset().len() == assigned.len());
    }
    let n = assigned.len() as int;
    assert(assigned.no_duplicates()) by {
        assert forall|i: int, j: int|
            0 <= i < assigned.len() && 0 <= j < assigned.len() && i != j implies assigned[i]
            != assigned[j] by {
            assert(assigned[i].part_number == i + 1);
            assert(assigned[j].part_number == j + 1);
        }
    }
    assigned.lemma_multiset_has_no_duplicates();
    sorted.lemma_multiset_has_no_duplicates_conv();
    assert forall|i: int| 0 <= i < sorted.len() implies 1 <= #[trigger] sorted[i].part_number
        <= sorted.len() by {
        lemma_element_comes_from(sorted, assigned, i);
    }
    assert forall|i: int, j: int| 0 <= i < j < sorted.len() implies sorted[i].part_number
        != sorted[j].part_number by {
        lemma_element_comes_from(sorted, assigned, i);
        lemma_element_comes_from(sorted, assigned, j);
        let ki = choose|k: int| 0 <= k < n && assigned[k] == sorted[i];
        let kj = choose|k: int| 0 <= k < n && assigned[k] == sorted[j];
        assert(sorted[i] != sorted[j]);
        assert(ki != kj);
        assert(assigned[ki].part_number == ki + 1);
        assert(assigned[kj].part_number == kj + 1);
    }
    lemma_sorted_distinct_in_range_is_contiguous(sorted);
}

/// Two contiguous ascending runs holding the same results are the same
/// sequence: each position is pinned down by its part number.
pub proof fn lemma_contiguous_same_multiset_is_equal(a: Seq<ETag>, b: Seq<ETag>)
    requires
        contiguous_from_one(a),
        contiguous_from_one(b),
        a.to_multiset() == b.to_multiset(),
    ensures
        a =~= b,
{
    assert(a.len() == b.len()) by {
        assert(a.to_multiset().len() == a.len());
        assert(b.to_multiset().len() == b.len());
    }
    assert forall|k: int| 0 <= k < a.len() implies a[k] == b[k] by {
        lemma_element_comes_from(a, b, k);
        let j = choose|j: int| 0 <= j < b.len() && b[j] == a[k];
        assert(b[j].part_number == j + 1);
        assert(a[k].part_number == k + 1);
    }
}

/// Every element of `sorted` occurs somewhere in `assigned`, and its part
/// number is therefore in `1..=len`.
proof fn lemma_element_comes_from(sorted: Seq<ETag>, assigned: Seq<ETag>, i: int)
    requires
        sorted.to_multiset() == assigned.to_multiset(),
        contiguous_from_one(assigned),
        sorted.len() == assigned.len(),
        0 <= i < sorted.len(),
    ensures
        exists|k: int| 0 <= k < assigned.len() && assigned[k] == sorted[i],
        1 <= sorted[i].part_number <= sorted.len(),
{
    assert(sorted.contains(sorted[i]));
    assert(sorted.to_multiset().count(sorted[i]) > 0);
    assert(assigned.contains(sorted[i]));
    let k = choose|k: int| 0 <= k < assigned.len() && assigned[k] == sorted[i];
    assert(assigned[k].part_number == k + 1);
}

} // verus!
