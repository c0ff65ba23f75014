//! The leak matcher and the document processor: the peak positions
//! found independently in the two series are sorted and intersected,
//! and a non-empty intersection is the leak report.

use vstd::prelude::*;
use vstd::relations::sorted_by;
use vstd::relations::total_ordering;
use vstd::seq_lib::lemma_multiset_commutative;
use vstd::seq_lib::lemma_sorted_unique;

use crate::maxes::find_maxes_conflicts;
use crate::maxes::find_maxes_prefixes;
use crate::params::Data;
use crate::params::Parameters;
use crate::specs::identify_leaks_spec;
use crate::specs::leaks_up_to;
use crate::specs::matches_row;
use crate::specs::option_vec_view;
use crate::specs::process_doc_spec;
use crate::specs::u32_leq;

verus! {

/// Inserting an element anywhere in a sequence adds exactly that
/// element to its multiset.
proof fn lemma_insert_to_multiset(s: Seq<u32>, i: int, a: u32)
    requires
        0 <= i <= s.len(),
    ensures
        s.insert(i, a).to_multiset() =~= s.to_multiset().insert(a),
{
    broadcast use vstd::seq_lib::group_to_multiset_ensures;
    broadcast use vstd::multiset::group_multiset_axioms;

    let le = s.subrange(0, i);
    let ri = s.subrange(i, s.len() as int);
    assert(s =~= le + ri);
    lemma_multiset_commutative(le, ri);
    lemma_multiset_commutative(le.push(a), ri);
    assert(le.push(a).to_multiset() =~= le.to_multiset().insert(a));
}

/// Sorts the positions ascending, by insertion into a fresh vector.
/// The result is pinned to the model's canonical sorting, so every
/// caller knows the outcome depends only on the multiset of positions.
fn sort_indexes(v: &mut Vec<u32>)
    ensures
        final(v)@ == old(v)@.sort_by(u32_leq()),
        final(v)@.to_multiset() == old(v)@.to_multiset(),
        sorted_by(final(v)@, u32_leq()),
{
    proof {
        assert(total_ordering(u32_leq()));
    }
    let ghost input = v@;
    let mut out: Vec<u32> = Vec::new();
    proof {
        assert(input.take(0) =~= out@);
    }
    let mut i: usize = 0;
    while i < v.len()
        invariant
            0 <= i <= v@.len(),
            v@ == input,
            sorted_by(out@, u32_leq()),
            out@.to_multiset() == input.take(i as int).to_multiset(),
        decreases v@.len() - i,
    {
        let x = v[i];
        let mut pos: usize = 0;
        while pos < out.len() && out[pos] <= x
            invariant
                0 <= pos <= out@.len(),
                forall|j: int| 0 <= j < pos ==> out@[j] <= x,
            decreases out@.len() - pos,
        {
            pos = pos + 1;
        }
        let ghost before = out@;
        out.insert(pos, x);
        proof {
            let after = before.insert(pos as int, x);
            before.insert_ensures(pos as int, x);
            assert(pos < before.len() ==> x < before[pos as int]);
            assert forall|k: int| pos < k < after.len() implies x < #[trigger] after[k] by {
                assert(after[k] == before[k - 1]);
                if pos < k - 1 {
                    assert(u32_leq()(before[pos as int], before[k - 1]));
                }
            }
            assert forall|a: int, b: int| 0 <= a < b < after.len() implies #[trigger] u32_leq()(
                after[a],
                after[b],
            ) by {
                if b < pos {
                    assert(after[a] == before[a] && after[b] == before[b]);
                    assert(u32_leq()(before[a], before[b]));
                } else if b == pos {
                    assert(after[b] == x && after[a] == before[a]);
                    assert(before[a] <= x);
                } else {
                    assert(x < after[b]);
                    if a < pos {
                        assert(after[a] == before[a] && before[a] <= x);
                    } else if a == pos {
                        assert(after[a] == x);
                    } else {
                        assert(after[a] == before[a - 1] && after[b] == before[b - 1]);
                        assert(u32_leq()(before[a - 1], before[b - 1]));
                    }
                }
            }
            lemma_insert_to_multiset(before, pos as int, x);
            broadcast use vstd::seq_lib::group_to_multiset_ensures;

            assert(input.take(i as int + 1).drop_last() =~= input.take(i as int));
            assert(input.take(i as int + 1) =~= input.take(i as int).push(input[i as int]));
        }
        i = i + 1;
    }
    proof {
        assert(input.take(input.len() as int) =~= input);
        input.lemma_sort_by_ensures(u32_leq());
        lemma_sorted_unique(out@, input.sort_by(u32_leq()), u32_leq());
    }
    *v = out;
}

/// Intersects the two peak-position sets: nothing when either set is
/// empty (no leaks, not an error), otherwise both sets are sorted
/// ascending in place and scanned pairwise for equal positions; a
/// non-empty list of common positions is the leak report.
pub fn identify_leaks(prefixes_indexes: &mut Vec<u32>, conflicts_indexes: &mut Vec<u32>) -> (r:
    Option<Vec<u32>>)
    ensures
        option_vec_view(r) == identify_leaks_spec(
            old(prefixes_indexes)@,
            old(conflicts_indexes)@,
        ),
        old(prefixes_indexes)@.len() == 0 || old(conflicts_indexes)@.len() == 0 ==> {
            &&& final(prefixes_indexes)@ == old(prefixes_indexes)@
            &&& final(conflicts_indexes)@ == old(conflicts_indexes)@
        },
        old(prefixes_indexes)@.len() > 0 && old(conflicts_indexes)@.len() > 0 ==> {
            &&& final(prefixes_indexes)@ == old(prefixes_indexes)@.sort_by(u32_leq())
            &&& final(conflicts_indexes)@ == old(conflicts_indexes)@.sort_by(u32_leq())
        },
{
    if prefixes_indexes.len() == 0 || conflicts_indexes.len() == 0 {
        return None;
    }

    sort_indexes(prefixes_indexes);
    sort_indexes(conflicts_indexes);

    let ghost sp = prefixes_indexes@;
    let ghost sc = conflicts_indexes@;

    let mut leaks: Vec<u32> = Vec::new();
    let mut pi: usize = 0;
    while pi < prefixes_indexes.len()
        invariant
            0 <= pi <= sp.len(),
            prefixes_indexes@ == sp,
            conflicts_indexes@ == sc,
            leaks@ == leaks_up_to(sp, sc, pi as int),
        decreases sp.len() - pi,
    {
        let p_value = prefixes_indexes[pi];
        let mut ci: usize = 0;
        proof {
            assert(leaks@ =~= leaks_up_to(sp, sc, pi as int) + matches_row(p_value, sc, 0));
        }
        while ci < conflicts_indexes.len()
            invariant
                0 <= ci <= sc.len(),
                prefixes_indexes@ == sp,
                conflicts_indexes@ == sc,
                0 <= pi < sp.len(),
                p_value == sp[pi as int],
                leaks@ == leaks_up_to(sp, sc, pi as int) + matches_row(p_value, sc, ci as int),
            decreases sc.len() - ci,
        {
            if p_value == conflicts_indexes[ci] {
                leaks.push(p_value);
            }
            ci = ci + 1;
        }
        pi = pi + 1;
    }

    if leaks.len() == 0 {
        None
    } else {
        Some(leaks)
    }
}

/// Runs the peak finder on both sequences of one document with the
/// document-specific minimum changes, and intersects the two results.
/// If either sequence yields no qualifying peak set, the result is "no
/// leak" and the matcher is not invoked.
pub fn process_doc(doc: &Data, params: &Parameters) -> (r: Option<Vec<u32>>)
    requires
        doc.prefixes@.len() <= 0x1_0000_0000,
        doc.conflicts@.len() <= 0x1_0000_0000,
    ensures
        option_vec_view(r) == process_doc_spec(
            doc.prefixes@,
            doc.conflicts@,
            params.prefixes_peak_min_value,
            params.conflicts_peak_min_value,
            params.similarity,
            params.max_nb_peaks,
            params.percent_std,
        ),
{
    let prefixes_maxes = find_maxes_prefixes(&doc.prefixes, params);
    let conflicts_maxes = find_maxes_conflicts(&doc.conflicts, params);

    match (prefixes_maxes, conflicts_maxes) {
        (Some(mut p_maxes), Some(mut c_maxes)) => identify_leaks(&mut p_maxes, &mut c_maxes),
        _ => None,
    }
}

} // verus!
