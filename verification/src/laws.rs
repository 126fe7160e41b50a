//! Proved laws of the score merger.
//!
//! Each public proof function here states, over the same spec functions
//! that the merger's contracts use, one property that holds of every merge:
//! what a shared objective's merged score is, that the merge is destructive
//! (the source's entries are gone afterwards), that an absent destination
//! degenerates the merge to a pure rename, that no objective appears out of
//! nowhere, and that other players' entries pass through untouched and in
//! order.

use vstd::prelude::*;

use crate::merge::{
    append_unmatched, entries_for, entries_not_for, find_objective, merge_entry, merge_result,
    merged_entries, merged_from_source, sat_add_i32,
};
use crate::model::PlayerScoreV;

verus! {

/// Every entry of `s` carries the player name `name`.
pub open spec fn all_named(s: Seq<PlayerScoreV>, name: Seq<char>) -> bool {
    forall|i: int| 0 <= i < s.len() ==> (#[trigger] s[i]).name == name
}

/// No entry of `s` carries the player name `name`.
pub open spec fn none_named(s: Seq<PlayerScoreV>, name: Seq<char>) -> bool {
    forall|i: int| 0 <= i < s.len() ==> (#[trigger] s[i]).name != name
}

/// No entry of `s` carries the objective `obj`.
pub open spec fn no_objective(s: Seq<PlayerScoreV>, obj: Seq<char>) -> bool {
    forall|i: int| 0 <= i < s.len() ==> (#[trigger] s[i]).objective != obj
}

/// `src` with every entry's player name replaced by `dst_name` and nothing
/// else changed.
pub open spec fn renamed(src: Seq<PlayerScoreV>, dst_name: Seq<char>) -> Seq<PlayerScoreV> {
    src.map_values(
        |e: PlayerScoreV|
            PlayerScoreV { objective: e.objective, name: dst_name, score: e.score, locked: e.locked },
    )
}

proof fn lemma_entries_for_all_named(s: Seq<PlayerScoreV>, name: Seq<char>)
    ensures
        all_named(entries_for(s, name), name),
    decreases s.len(),
{
    if s.len() > 0 {
        lemma_entries_for_all_named(s.drop_last(), name);
        if s.last().name == name {
            let rd = entries_for(s.drop_last(), name);
            assert forall|i: int| 0 <= i < entries_for(s, name).len() implies (#[trigger] entries_for(
                s,
                name,
            )[i]).name == name by {
                if i < rd.len() {
                    assert(entries_for(s, name)[i] == rd[i]);
                }
            }
        }
    }
}

proof fn lemma_entries_not_for_none_named(s: Seq<PlayerScoreV>, name: Seq<char>)
    ensures
        none_named(entries_not_for(s, name), name),
    decreases s.len(),
{
    if s.len() > 0 {
        lemma_entries_not_for_none_named(s.drop_last(), name);
        if s.last().name != name {
            let rd = entries_not_for(s.drop_last(), name);
            assert forall|i: int| 0 <= i < entries_not_for(s, name).len() implies (
            #[trigger] entries_not_for(s, name)[i]).name != name by {
                if i < rd.len() {
                    assert(entries_not_for(s, name)[i] == rd[i]);
                }
            }
        }
    }
}

proof fn lemma_entries_for_of_none_named(s: Seq<PlayerScoreV>, name: Seq<char>)
    requires
        none_named(s, name),
    ensures
        entries_for(s, name) == Seq::<PlayerScoreV>::empty(),
    decreases s.len(),
{
    if s.len() > 0 {
        assert(none_named(s.drop_last(), name)) by {
            assert forall|i: int| 0 <= i < s.drop_last().len() implies (#[trigger] s.drop_last()[i]).name
                != name by {
                assert(s.drop_last()[i] == s[i]);
            }
        }
        lemma_entries_for_of_none_named(s.drop_last(), name);
        assert(s.last().name != name);
    }
}

proof fn lemma_entries_for_empty_means_none_named(s: Seq<PlayerScoreV>, name: Seq<char>)
    requires
        entries_for(s, name).len() == 0,
    ensures
        none_named(s, name),
    decreases s.len(),
{
    if s.len() > 0 {
        assert(s.last().name != name);
        lemma_entries_for_empty_means_none_named(s.drop_last(), name);
        assert forall|i: int| 0 <= i < s.len() implies (#[trigger] s[i]).name != name by {
            if i < s.len() - 1 {
                assert(s.drop_last()[i] == s[i]);
                assert(s.drop_last()[i].name != name);
            }
        }
    }
}

proof fn lemma_entries_not_for_id(s: Seq<PlayerScoreV>, name: Seq<char>)
    requires
        none_named(s, name),
    ensures
        entries_not_for(s, name) == s,
    decreases s.len(),
{
    if s.len() > 0 {
        assert(none_named(s.drop_last(), name)) by {
            assert forall|i: int| 0 <= i < s.drop_last().len() implies (#[trigger] s.drop_last()[i]).name
                != name by {
                assert(s.drop_last()[i] == s[i]);
            }
        }
        lemma_entries_not_for_id(s.drop_last(), name);
        assert(s.last().name != name);
        assert(entries_not_for(s, name) =~= s);
    }
}

proof fn lemma_entries_not_for_keeps_none_named(s: Seq<PlayerScoreV>, name: Seq<char>, m: Seq<char>)
    requires
        none_named(s, m),
    ensures
        none_named(entries_not_for(s, name), m),
    decreases s.len(),
{
    if s.len() > 0 {
        assert(none_named(s.drop_last(), m)) by {
            assert forall|i: int| 0 <= i < s.drop_last().len() implies (#[trigger] s.drop_last()[i]).name
                != m by {
                assert(s.drop_last()[i] == s[i]);
            }
        }
        lemma_entries_not_for_keeps_none_named(s.drop_last(), name, m);
        if s.last().name != name {
            let rd = entries_not_for(s.drop_last(), name);
            assert forall|i: int| 0 <= i < entries_not_for(s, name).len() implies (
            #[trigger] entries_not_for(s, name)[i]).name != m by {
                if i < rd.len() {
                    assert(entries_not_for(s, name)[i] == rd[i]);
                }
            }
        }
    }
}

proof fn lemma_entries_for_of_not_for(s: Seq<PlayerScoreV>, name: Seq<char>, m: Seq<char>)
    requires
        m != name,
    ensures
        entries_for(entries_not_for(s, name), m) == entries_for(s, m),
    decreases s.len(),
{
    if s.len() > 0 {
        lemma_entries_for_of_not_for(s.drop_last(), name, m);
        if s.last().name != name {
            let rd = entries_not_for(s.drop_last(), name);
            assert(entries_not_for(s, name) == rd.push(s.last()));
            assert(rd.push(s.last()).drop_last() =~= rd);
        } else {
            assert(s.last().name != m);
        }
    }
}

proof fn lemma_entries_for_add(a: Seq<PlayerScoreV>, b: Seq<PlayerScoreV>, name: Seq<char>)
    ensures
        entries_for(a + b, name) == entries_for(a, name) + entries_for(b, name),
    decreases b.len(),
{
    if b.len() == 0 {
        assert(a + b =~= a);
        assert(entries_for(a, name) + entries_for(b, name) =~= entries_for(a, name));
    } else {
        lemma_entries_for_add(a, b.drop_last(), name);
        assert((a + b).drop_last() =~= a + b.drop_last());
        assert((a + b).last() == b.last());
        if b.last().name == name {
            assert(entries_for(a, name) + entries_for(b.drop_last(), name).push(b.last()) =~= (
            entries_for(a, name) + entries_for(b.drop_last(), name)).push(b.last()));
        }
    }
}

proof fn lemma_merged_all_named(
    src: Seq<PlayerScoreV>,
    dst: Seq<PlayerScoreV>,
    dst_name: Seq<char>,
)
    ensures
        all_named(merged_from_source(src, dst, dst_name), dst_name),
    decreases src.len(),
{
    if src.len() > 0 {
        lemma_merged_all_named(src.drop_last(), dst, dst_name);
        let rd = merged_from_source(src.drop_last(), dst, dst_name);
        assert forall|i: int| 0 <= i < merged_from_source(src, dst, dst_name).len() implies (
        #[trigger] merged_from_source(src, dst, dst_name)[i]).name == dst_name by {
            if i < rd.len() {
                assert(merged_from_source(src, dst, dst_name)[i] == rd[i]);
            }
        }
    }
}

proof fn lemma_merged_no_objective(
    src: Seq<PlayerScoreV>,
    dst: Seq<PlayerScoreV>,
    dst_name: Seq<char>,
    obj: Seq<char>,
)
    requires
        no_objective(src, obj),
    ensures
        no_objective(merged_from_source(src, dst, dst_name), obj),
    decreases src.len(),
{
    if src.len() > 0 {
        assert(no_objective(src.drop_last(), obj)) by {
            assert forall|i: int| 0 <= i < src.drop_last().len() implies (#[trigger] src.drop_last()[i]).objective
                != obj by {
                assert(src.drop_last()[i] == src[i]);
            }
        }
        lemma_merged_no_objective(src.drop_last(), dst, dst_name, obj);
        let rd = merged_from_source(src.drop_last(), dst, dst_name);
        assert(merge_entry(src.last(), dst, dst_name).objective == src.last().objective);
        assert forall|i: int| 0 <= i < merged_from_source(src, dst, dst_name).len() implies (
        #[trigger] merged_from_source(src, dst, dst_name)[i]).objective != obj by {
            if i < rd.len() {
                assert(merged_from_source(src, dst, dst_name)[i] == rd[i]);
            }
        }
    }
}

proof fn lemma_append_unmatched_all_named(
    acc: Seq<PlayerScoreV>,
    dst: Seq<PlayerScoreV>,
    name: Seq<char>,
)
    requires
        all_named(acc, name),
        all_named(dst, name),
    ensures
        all_named(append_unmatched(acc, dst), name),
    decreases dst.len(),
{
    if dst.len() > 0 {
        assert(all_named(dst.drop_first(), name)) by {
            assert forall|i: int| 0 <= i < dst.drop_first().len() implies (
            #[trigger] dst.drop_first()[i]).name == name by {
                assert(dst.drop_first()[i] == dst[i + 1]);
            }
        }
        assert(dst.first() == dst[0]);
        if find_objective(acc, dst.first().objective) is Some {
            lemma_append_unmatched_all_named(acc, dst.drop_first(), name);
        } else {
            assert(all_named(acc.push(dst.first()), name)) by {
                assert forall|i: int| 0 <= i < acc.push(dst.first()).len() implies (
                #[trigger] acc.push(dst.first())[i]).name == name by {
                    if i < acc.len() {
                        assert(acc.push(dst.first())[i] == acc[i]);
                    }
                }
            }
            lemma_append_unmatched_all_named(acc.push(dst.first()), dst.drop_first(), name);
        }
    }
}

proof fn lemma_append_unmatched_no_objective(
    acc: Seq<PlayerScoreV>,
    dst: Seq<PlayerScoreV>,
    obj: Seq<char>,
)
    requires
        no_objective(acc, obj),
        no_objective(dst, obj),
    ensures
        no_objective(append_unmatched(acc, dst), obj),
    decreases dst.len(),
{
    if dst.len() > 0 {
        assert(no_objective(dst.drop_first(), obj)) by {
            assert forall|i: int| 0 <= i < dst.drop_first().len() implies (
            #[trigger] dst.drop_first()[i]).objective != obj by {
                assert(dst.drop_first()[i] == dst[i + 1]);
            }
        }
        assert(dst.first() == dst[0]);
        if find_objective(acc, dst.first().objective) is Some {
            lemma_append_unmatched_no_objective(acc, dst.drop_first(), obj);
        } else {
            assert(no_objective(acc.push(dst.first()), obj)) by {
                assert forall|i: int| 0 <= i < acc.push(dst.first()).len() implies (
                #[trigger] acc.push(dst.first())[i]).objective != obj by {
                    if i < acc.len() {
                        assert(acc.push(dst.first())[i] == acc[i]);
                    }
                }
            }
            lemma_append_unmatched_no_objective(acc.push(dst.first()), dst.drop_first(), obj);
        }
    }
}

/// Every entry of the merged set carries the destination's name.
pub proof fn lemma_merged_entries_all_named(
    scores: Seq<PlayerScoreV>,
    src_name: Seq<char>,
    dst_name: Seq<char>,
)
    ensures
        all_named(merged_entries(scores, src_name, dst_name), dst_name),
{
    lemma_merged_all_named(entries_for(scores, src_name), entries_for(scores, dst_name), dst_name);
    lemma_entries_for_all_named(scores, dst_name);
    lemma_append_unmatched_all_named(
        merged_from_source(
            entries_for(scores, src_name),
            entries_for(scores, dst_name),
            dst_name,
        ),
        entries_for(scores, dst_name),
        dst_name,
    );
}

proof fn lemma_merged_from_source_index(
    src: Seq<PlayerScoreV>,
    dst: Seq<PlayerScoreV>,
    dst_name: Seq<char>,
    i: int,
)
    requires
        0 <= i < src.len(),
    ensures
        merged_from_source(src, dst, dst_name).len() == src.len(),
        merged_from_source(src, dst, dst_name)[i] == merge_entry(src[i], dst, dst_name),
    decreases src.len(),
{
    if src.len() == 1 {
    } else if i < src.len() - 1 {
        lemma_merged_from_source_index(src.drop_last(), dst, dst_name, i);
        assert(src.drop_last()[i] == src[i]);
    } else {
        lemma_merged_from_source_index(src.drop_last(), dst, dst_name, 0);
    }
}

proof fn lemma_append_unmatched_prefix(acc: Seq<PlayerScoreV>, dst: Seq<PlayerScoreV>, i: int)
    requires
        0 <= i < acc.len(),
    ensures
        append_unmatched(acc, dst).len() >= acc.len(),
        append_unmatched(acc, dst)[i] == acc[i],
    decreases dst.len(),
{
    if dst.len() > 0 {
        if find_objective(acc, dst.first().objective) is Some {
            lemma_append_unmatched_prefix(acc, dst.drop_first(), i);
        } else {
            lemma_append_unmatched_prefix(acc.push(dst.first()), dst.drop_first(), i);
            assert(acc.push(dst.first())[i] == acc[i]);
        }
    }
}

/// Law: the i-th merged entry is exactly what the i-th source entry
/// contributes against the destination's entries: the merged set starts
/// with one entry per source entry, in source order, each given by
/// `merge_entry`.
pub proof fn lemma_merged_entry_per_source(
    scores: Seq<PlayerScoreV>,
    src_name: Seq<char>,
    dst_name: Seq<char>,
    i: int,
)
    requires
        0 <= i < entries_for(scores, src_name).len(),
    ensures
        merged_entries(scores, src_name, dst_name).len() >= entries_for(scores, src_name).len(),
        merged_entries(scores, src_name, dst_name)[i] == merge_entry(
            entries_for(scores, src_name)[i],
            entries_for(scores, dst_name),
            dst_name,
        ),
{
    let src = entries_for(scores, src_name);
    let dst = entries_for(scores, dst_name);
    lemma_merged_from_source_index(src, dst, dst_name, i);
    lemma_append_unmatched_prefix(merged_from_source(src, dst, dst_name), dst, i);
}

/// Law: for an objective shared by source and destination, with both scores
/// present, the merged entry's score is the saturating sum of the two, and
/// that sum does not depend on which of the two players is merged into
/// which.
pub proof fn lemma_shared_objective_score_sum(
    e: PlayerScoreV,
    dst: Seq<PlayerScoreV>,
    dst_name: Seq<char>,
)
    requires
        find_objective(dst, e.objective) is Some,
        e.score is Some,
        find_objective(dst, e.objective)->0.score is Some,
    ensures
        merge_entry(e, dst, dst_name).score == Some(
            sat_add_i32(e.score->0, find_objective(dst, e.objective)->0.score->0),
        ),
        merge_entry(e, dst, dst_name).score == Some(
            sat_add_i32(find_objective(dst, e.objective)->0.score->0, e.score->0),
        ),
{
}

/// Law: the merge is lossy by design. For a shared objective with both
/// scores present, the merged entry depends on the two scores only through
/// their exact sum: any two ways of splitting the same total between the
/// source's and the destination's entry produce the same merged entry, so
/// the pre-merge split cannot be recovered from the result and the merge is
/// not invertible.
pub proof fn lemma_split_not_recoverable(
    e: PlayerScoreV,
    e2: PlayerScoreV,
    dst: Seq<PlayerScoreV>,
    dst2: Seq<PlayerScoreV>,
    dst_name: Seq<char>,
)
    requires
        e.objective == e2.objective,
        find_objective(dst, e.objective) is Some,
        find_objective(dst2, e2.objective) is Some,
        find_objective(dst, e.objective)->0.locked == find_objective(dst2, e2.objective)->0.locked,
        e.score is Some,
        e2.score is Some,
        find_objective(dst, e.objective)->0.score is Some,
        find_objective(dst2, e2.objective)->0.score is Some,
        e.score->0 + find_objective(dst, e.objective)->0.score->0 == e2.score->0
            + find_objective(dst2, e2.objective)->0.score->0,
    ensures
        merge_entry(e, dst, dst_name) == merge_entry(e2, dst2, dst_name),
{
}

/// Law: the merge is destructive. After merging, no entry for the source
/// player is left anywhere in the result, so no later merge can rebuild the
/// original unmerged state from it.
pub proof fn lemma_merge_removes_source(
    scores: Seq<PlayerScoreV>,
    src_name: Seq<char>,
    dst_name: Seq<char>,
)
    requires
        src_name != dst_name,
    ensures
        entries_for(merge_result(scores, src_name, dst_name), src_name).len() == 0,
{
    let kept = entries_not_for(entries_not_for(scores, src_name), dst_name);
    let merged = merged_entries(scores, src_name, dst_name);
    lemma_entries_for_add(kept, merged, src_name);
    lemma_entries_not_for_none_named(scores, src_name);
    lemma_entries_not_for_keeps_none_named(entries_not_for(scores, src_name), dst_name, src_name);
    lemma_entries_for_of_none_named(kept, src_name);
    lemma_merged_entries_all_named(scores, src_name, dst_name);
    assert(none_named(merged, src_name));
    lemma_entries_for_of_none_named(merged, src_name);
}

/// Law: when the destination has no entries at all, the merge degenerates
/// to a pure rename: the result is everyone else's entries followed by the
/// source's entries with only their player name changed to the destination.
pub proof fn lemma_merge_renames_when_destination_empty(
    scores: Seq<PlayerScoreV>,
    src_name: Seq<char>,
    dst_name: Seq<char>,
)
    requires
        entries_for(scores, dst_name).len() == 0,
    ensures
        merge_result(scores, src_name, dst_name) == entries_not_for(scores, src_name) + renamed(
            entries_for(scores, src_name),
            dst_name,
        ),
{
    let dst = entries_for(scores, dst_name);
    assert(dst =~= Seq::<PlayerScoreV>::empty());
    lemma_merged_from_empty_dst(entries_for(scores, src_name), dst_name);
    lemma_entries_for_empty_means_none_named(scores, dst_name);
    lemma_entries_not_for_keeps_none_named(scores, src_name, dst_name);
    lemma_entries_not_for_id(entries_not_for(scores, src_name), dst_name);
}

proof fn lemma_merged_from_empty_dst(src: Seq<PlayerScoreV>, dst_name: Seq<char>)
    ensures
        merged_from_source(src, Seq::<PlayerScoreV>::empty(), dst_name) == renamed(src, dst_name),
    decreases src.len(),
{
    if src.len() == 0 {
        assert(renamed(src, dst_name) =~= Seq::<PlayerScoreV>::empty());
    } else {
        lemma_merged_from_empty_dst(src.drop_last(), dst_name);
        assert(merge_entry(src.last(), Seq::<PlayerScoreV>::empty(), dst_name) == (PlayerScoreV {
            objective: src.last().objective,
            name: dst_name,
            score: src.last().score,
            locked: src.last().locked,
        }));
        assert(renamed(src, dst_name) =~= renamed(src.drop_last(), dst_name).push(
            merge_entry(src.last(), Seq::<PlayerScoreV>::empty(), dst_name),
        ));
    }
}

/// Law: no merged entry appears for an objective that neither the source
/// nor the destination had an entry for.
pub proof fn lemma_no_spurious_objective(
    scores: Seq<PlayerScoreV>,
    src_name: Seq<char>,
    dst_name: Seq<char>,
    obj: Seq<char>,
)
    requires
        no_objective(entries_for(scores, src_name), obj),
        no_objective(entries_for(scores, dst_name), obj),
    ensures
        no_objective(merged_entries(scores, src_name, dst_name), obj),
{
    lemma_merged_no_objective(
        entries_for(scores, src_name),
        entries_for(scores, dst_name),
        dst_name,
        obj,
    );
    lemma_append_unmatched_no_objective(
        merged_from_source(
            entries_for(scores, src_name),
            entries_for(scores, dst_name),
            dst_name,
        ),
        entries_for(scores, dst_name),
        obj,
    );
}

/// Law: the entries of every player other than source and destination are
/// untouched by the merge and keep their original relative order.
pub proof fn lemma_other_players_untouched(
    scores: Seq<PlayerScoreV>,
    src_name: Seq<char>,
    dst_name: Seq<char>,
    other: Seq<char>,
)
    requires
        other != src_name,
        other != dst_name,
    ensures
        entries_for(merge_result(scores, src_name, dst_name), other) == entries_for(scores, other),
{
    let kept = entries_not_for(entries_not_for(scores, src_name), dst_name);
    let merged = merged_entries(scores, src_name, dst_name);
    lemma_entries_for_add(kept, merged, other);
    lemma_merged_entries_all_named(scores, src_name, dst_name);
    assert(none_named(merged, other));
    lemma_entries_for_of_none_named(merged, other);
    lemma_entries_for_of_not_for(entries_not_for(scores, src_name), dst_name, other);
    lemma_entries_for_of_not_for(scores, src_name, other);
    assert(entries_for(kept, other) + Seq::<PlayerScoreV>::empty() =~= entries_for(scores, other));
}

} // verus!
