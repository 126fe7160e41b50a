//! The score merger: combining one player's score entries into another's.
//!
//! The merge works on the full list of score entries and two player names,
//! source and destination. Every source entry is combined with the first
//! destination entry of the same objective (summing present scores,
//! preferring the destination's lock flag) and renamed to the destination;
//! destination entries whose objective no source entry matches are kept;
//! all other players' entries pass through untouched, in their original
//! order, and the merged entries are appended at the end.
//!
//! Score summation saturates at the bounds of `i32`: this is the library's
//! documented overflow policy.

use vstd::prelude::*;

use crate::model::{PlayerScore, PlayerScoreV, ScoreboardData, ScoreboardRoot};
use crate::ScoreboardError;

verus! {

/// The mathematical values of a sequence of score entries.
pub open spec fn views(s: Seq<PlayerScore>) -> Seq<PlayerScoreV> {
    s.map_values(|p: PlayerScore| p@)
}

/// Saturating addition of two scores: the sum, clamped to `i32`.
pub open spec fn sat_add_i32(x: i32, y: i32) -> i32 {
    if x + y > i32::MAX {
        i32::MAX
    } else if x + y < i32::MIN {
        i32::MIN
    } else {
        (x + y) as i32
    }
}

/// The entries of `s` whose player name is `name`, in their original order.
pub open spec fn entries_for(s: Seq<PlayerScoreV>, name: Seq<char>) -> Seq<PlayerScoreV>
    decreases s.len(),
{
    if s.len() == 0 {
        Seq::empty()
    } else if s.last().name == name {
        entries_for(s.drop_last(), name).push(s.last())
    } else {
        entries_for(s.drop_last(), name)
    }
}

/// The entries of `s` whose player name is not `name`, in their original
/// order.
pub open spec fn entries_not_for(s: Seq<PlayerScoreV>, name: Seq<char>) -> Seq<PlayerScoreV>
    decreases s.len(),
{
    if s.len() == 0 {
        Seq::empty()
    } else if s.last().name != name {
        entries_not_for(s.drop_last(), name).push(s.last())
    } else {
        entries_not_for(s.drop_last(), name)
    }
}

/// The first entry of `s` whose objective is `obj`, if any.
pub open spec fn find_objective(s: Seq<PlayerScoreV>, obj: Seq<char>) -> Option<PlayerScoreV>
    decreases s.len(),
{
    if s.len() == 0 {
        None
    } else if s.first().objective == obj {
        Some(s.first())
    } else {
        find_objective(s.drop_first(), obj)
    }
}

/// How two optional scores combine: present scores are added (saturating),
/// a single present score is taken as it is, and two absent scores stay
/// absent.
pub open spec fn combine_scores(a: Option<i32>, b: Option<i32>) -> Option<i32> {
    match (a, b) {
        (Some(x), Some(y)) => Some(sat_add_i32(x, y)),
        (Some(x), None) => Some(x),
        (None, Some(y)) => Some(y),
        (None, None) => None,
    }
}

/// The merged entry that one source entry `e` contributes, given the
/// destination's entries `dst` and the destination's name: if `dst` carries
/// `e`'s objective, the scores combine and the destination's lock flag is
/// taken; otherwise `e` is kept with only its name changed.
pub open spec fn merge_entry(e: PlayerScoreV, dst: Seq<PlayerScoreV>, dst_name: Seq<char>) -> PlayerScoreV {
    match find_objective(dst, e.objective) {
        Some(d) => PlayerScoreV {
            objective: e.objective,
            name: dst_name,
            score: combine_scores(e.score, d.score),
            locked: d.locked,
        },
        None => PlayerScoreV {
            objective: e.objective,
            name: dst_name,
            score: e.score,
            locked: e.locked,
        },
    }
}

/// The merged entries contributed by the source's entries, in source order.
pub open spec fn merged_from_source(
    src: Seq<PlayerScoreV>,
    dst: Seq<PlayerScoreV>,
    dst_name: Seq<char>,
) -> Seq<PlayerScoreV>
    decreases src.len(),
{
    if src.len() == 0 {
        Seq::empty()
    } else {
        merged_from_source(src.drop_last(), dst, dst_name).push(
            merge_entry(src.last(), dst, dst_name),
        )
    }
}

/// `acc` extended, front to back, by those entries of `dst` whose objective
/// the accumulated sequence does not yet carry.
pub open spec fn append_unmatched(acc: Seq<PlayerScoreV>, dst: Seq<PlayerScoreV>) -> Seq<PlayerScoreV>
    decreases dst.len(),
{
    if dst.len() == 0 {
        acc
    } else if find_objective(acc, dst.first().objective) is Some {
        append_unmatched(acc, dst.drop_first())
    } else {
        append_unmatched(acc.push(dst.first()), dst.drop_first())
    }
}

/// The full merged set for one merge: the source's entries combined into
/// the destination's, followed by the destination entries left unmatched.
pub open spec fn merged_entries(
    scores: Seq<PlayerScoreV>,
    src_name: Seq<char>,
    dst_name: Seq<char>,
) -> Seq<PlayerScoreV> {
    append_unmatched(
        merged_from_source(
            entries_for(scores, src_name),
            entries_for(scores, dst_name),
            dst_name,
        ),
        entries_for(scores, dst_name),
    )
}

/// The whole score list after the merge: every entry of a player other than
/// source and destination, in original order, followed by the merged set.
pub open spec fn merge_result(
    scores: Seq<PlayerScoreV>,
    src_name: Seq<char>,
    dst_name: Seq<char>,
) -> Seq<PlayerScoreV> {
    entries_not_for(entries_not_for(scores, src_name), dst_name)
        + merged_entries(scores, src_name, dst_name)
}

/// Executable saturating addition, proved against `sat_add_i32`.
pub fn sat_add(x: i32, y: i32) -> (r: i32)
    ensures
        r == sat_add_i32(x, y),
{
    if y > 0 && x > i32::MAX - y {
        i32::MAX
    } else if y < 0 && x < i32::MIN - y {
        i32::MIN
    } else {
        x + y
    }
}

/// Executable score combination, proved against `combine_scores`.
pub fn combine(a: Option<i32>, b: Option<i32>) -> (r: Option<i32>)
    ensures
        r == combine_scores(a, b),
{
    match (a, b) {
        (Some(x), Some(y)) => Some(sat_add(x, y)),
        (Some(x), None) => Some(x),
        (None, Some(y)) => Some(y),
        (None, None) => None,
    }
}

/// The score entries that belong to `player_name`, in their original order.
pub fn scoreboard_for_player(player_score: Vec<PlayerScore>, player_name: String) -> (r: Vec<
    PlayerScore,
>)
    ensures
        views(r@) == entries_for(views(player_score@), player_name@),
{
    let mut out: Vec<PlayerScore> = Vec::new();
    let mut i: usize = 0;
    while i < player_score.len()
        invariant
            i <= player_score.len(),
            views(out@) == entries_for(views(player_score@).subrange(0, i as int), player_name@),
        decreases player_score.len() - i,
    {
        proof {
            assert(views(player_score@).subrange(0, (i + 1) as int).drop_last() =~= views(
                player_score@,
            ).subrange(0, i as int));
        }
        if player_score[i].name == player_name {
            out.push(player_score[i].clone());
            proof {
                assert(views(out@) =~= entries_for(
                    views(player_score@).subrange(0, (i + 1) as int),
                    player_name@,
                ));
            }
        }
        i = i + 1;
    }
    proof {
        assert(views(player_score@).subrange(0, player_score@.len() as int) =~= views(
            player_score@,
        ));
    }
    out
}

/// The score entries that do not belong to `player_name`, in their original
/// order.
pub fn scoreboard_excluding_player(player_score: Vec<PlayerScore>, player_name: String) -> (r: Vec<
    PlayerScore,
>)
    ensures
        views(r@) == entries_not_for(views(player_score@), player_name@),
{
    let mut out: Vec<PlayerScore> = Vec::new();
    let mut i: usize = 0;
    while i < player_score.len()
        invariant
            i <= player_score.len(),
            views(out@) == entries_not_for(
                views(player_score@).subrange(0, i as int),
                player_name@,
            ),
        decreases player_score.len() - i,
    {
        proof {
            assert(views(player_score@).subrange(0, (i + 1) as int).drop_last() =~= views(
                player_score@,
            ).subrange(0, i as int));
        }
        if !(player_score[i].name == player_name) {
            out.push(player_score[i].clone());
            proof {
                assert(views(out@) =~= entries_not_for(
                    views(player_score@).subrange(0, (i + 1) as int),
                    player_name@,
                ));
            }
        }
        i = i + 1;
    }
    proof {
        assert(views(player_score@).subrange(0, player_score@.len() as int) =~= views(
            player_score@,
        ));
    }
    out
}

/// The index of the first entry of `entries` whose objective is `obj`,
/// proved against `find_objective`.
fn find_objective_index(entries: &Vec<PlayerScore>, obj: &String) -> (r: Option<usize>)
    ensures
        match r {
            Some(i) => i < entries@.len() && entries@[i as int]@.objective == obj@
                && find_objective(views(entries@), obj@) == Some(entries@[i as int]@),
            None => find_objective(views(entries@), obj@) is None,
        },
{
    proof {
        assert(views(entries@).skip(0) =~= views(entries@));
    }
    let mut i: usize = 0;
    while i < entries.len()
        invariant
            i <= entries.len(),
            find_objective(views(entries@), obj@) == find_objective(
                views(entries@).skip(i as int),
                obj@,
            ),
        decreases entries.len() - i,
    {
        proof {
            assert(views(entries@).skip(i as int).first() == views(entries@)[i as int]);
            assert(views(entries@).skip(i as int).drop_first() =~= views(entries@).skip(
                (i + 1) as int,
            ));
        }
        if entries[i].objective == *obj {
            return Some(i);
        }
        i = i + 1;
    }
    proof {
        assert(views(entries@).skip(entries@.len() as int) =~= Seq::<PlayerScoreV>::empty());
    }
    None
}

/// A deep copy of a score list, proved to keep the entries.
fn clone_scores(v: &Vec<PlayerScore>) -> (r: Vec<PlayerScore>)
    ensures
        r@ == v@,
{
    let mut out: Vec<PlayerScore> = Vec::new();
    let mut i: usize = 0;
    while i < v.len()
        invariant
            i <= v.len(),
            out@ == v@.subrange(0, i as int),
        decreases v.len() - i,
    {
        out.push(v[i].clone());
        proof {
            assert(out@ =~= v@.subrange(0, (i + 1) as int));
        }
        i = i + 1;
    }
    proof {
        assert(v@.subrange(0, v@.len() as int) =~= v@);
    }
    out
}

/// The merged set that the source's entries `src` and the destination's
/// entries `dst` produce: each source entry combined with the first
/// destination entry of the same objective, followed by the destination
/// entries whose objective stayed unmatched.
pub fn merge_scores(src: &Vec<PlayerScore>, dst: &Vec<PlayerScore>, dst_name: &String) -> (r: Vec<
    PlayerScore,
>)
    ensures
        views(r@) == append_unmatched(
            merged_from_source(views(src@), views(dst@), dst_name@),
            views(dst@),
        ),
{
    let mut out: Vec<PlayerScore> = Vec::new();
    let mut i: usize = 0;
    while i < src.len()
        invariant
            i <= src.len(),
            views(out@) == merged_from_source(
                views(src@).subrange(0, i as int),
                views(dst@),
                dst_name@,
            ),
        decreases src.len() - i,
    {
        proof {
            assert(views(src@).subrange(0, (i + 1) as int).drop_last() =~= views(src@).subrange(
                0,
                i as int,
            ));
        }
        let entry = match find_objective_index(dst, &src[i].objective) {
            Some(j) => PlayerScore {
                objective: src[i].objective.clone(),
                name: dst_name.clone(),
                score: combine(src[i].score, dst[j].score),
                locked: dst[j].locked,
            },
            None => PlayerScore {
                objective: src[i].objective.clone(),
                name: dst_name.clone(),
                score: src[i].score,
                locked: src[i].locked,
            },
        };
        out.push(entry);
        proof {
            assert(views(out@) =~= merged_from_source(
                views(src@).subrange(0, (i + 1) as int),
                views(dst@),
                dst_name@,
            ));
        }
        i = i + 1;
    }
    proof {
        assert(views(src@).subrange(0, src@.len() as int) =~= views(src@));
    }
    let ghost mid = views(out@);
    proof {
        assert(views(dst@).skip(0) =~= views(dst@));
    }
    let mut j: usize = 0;
    while j < dst.len()
        invariant
            j <= dst.len(),
            append_unmatched(mid, views(dst@)) == append_unmatched(
                views(out@),
                views(dst@).skip(j as int),
            ),
        decreases dst.len() - j,
    {
        proof {
            assert(views(dst@).skip(j as int).first() == views(dst@)[j as int]);
            assert(views(dst@).skip(j as int).drop_first() =~= views(dst@).skip((j + 1) as int));
        }
        let ghost prev = views(out@);
        match find_objective_index(&out, &dst[j].objective) {
            Some(_) => {},
            None => {
                out.push(dst[j].clone());
                proof {
                    assert(views(out@) =~= prev.push(views(dst@)[j as int]));
                }
            },
        }
        j = j + 1;
    }
    proof {
        assert(views(dst@).skip(dst@.len() as int) =~= Seq::<PlayerScoreV>::empty());
    }
    out
}

/// The score merger: merge the entries of player `source` into those of
/// player `dest`.
///
/// Fails with `NameNotFound` exactly when `source` has no entries at all;
/// a missing destination is not an error. On success the result keeps every
/// other player's entries untouched and in order, drops the original
/// entries of both `source` and `dest`, and appends the merged set at the
/// end.
pub fn merge_player_scores(scores: Vec<PlayerScore>, source: &String, dest: &String) -> (r: Result<
    Vec<PlayerScore>,
    ScoreboardError,
>)
    ensures
        (r is Ok) == (entries_for(views(scores@), source@).len() > 0),
        r is Ok ==> views(r->Ok_0@) == merge_result(views(scores@), source@, dest@),
        r is Err ==> r->Err_0 == ScoreboardError::NameNotFound,
{
    let src_list = scoreboard_for_player(clone_scores(&scores), source.clone());
    if src_list.len() == 0 {
        return Err(ScoreboardError::NameNotFound);
    }
    let dst_list = scoreboard_for_player(clone_scores(&scores), dest.clone());
    let merged = merge_scores(&src_list, &dst_list, dest);
    let rest = scoreboard_excluding_player(clone_scores(&scores), source.clone());
    let mut result = scoreboard_excluding_player(rest, dest.clone());
    let ghost kept = views(result@);
    let mut i: usize = 0;
    while i < merged.len()
        invariant
            i <= merged.len(),
            views(result@) == kept + views(merged@).subrange(0, i as int),
        decreases merged.len() - i,
    {
        let ghost prev = views(result@);
        result.push(merged[i].clone());
        proof {
            assert(views(result@) =~= prev.push(views(merged@)[i as int]));
            assert(views(result@) =~= kept + views(merged@).subrange(0, (i + 1) as int));
        }
        i = i + 1;
    }
    proof {
        assert(views(merged@).subrange(0, merged@.len() as int) =~= views(merged@));
        assert(kept + views(merged@).subrange(0, 0) =~= kept);
    }
    Ok(result)
}

/// Apply the merge to a whole scoreboard: the score entries are replaced by
/// the merge's result and every other field passes through unchanged.
pub fn process_scoreboard(root: ScoreboardRoot, source: &String, dest: &String) -> (r: Result<
    ScoreboardRoot,
    ScoreboardError,
>)
    ensures
        (r is Ok) == (entries_for(views(root.data.player_scores@), source@).len() > 0),
        r is Ok ==> r->Ok_0.data_version == root.data_version,
        r is Ok ==> r->Ok_0.data.display_slots == root.data.display_slots,
        r is Ok ==> r->Ok_0.data.objectives == root.data.objectives,
        r is Ok ==> r->Ok_0.data.teams == root.data.teams,
        r is Ok ==> views(r->Ok_0.data.player_scores@) == merge_result(
            views(root.data.player_scores@),
            source@,
            dest@,
        ),
        r is Err ==> r->Err_0 == ScoreboardError::NameNotFound,
{
    let ScoreboardRoot { data_version, data } = root;
    let ScoreboardData { display_slots, objectives, player_scores, teams } = data;
    match merge_player_scores(player_scores, source, dest) {
        Ok(ps) => Ok(
            ScoreboardRoot {
                data_version,
                data: ScoreboardData {
                    display_slots,
                    objectives,
                    player_scores: ps,
                    teams,
                },
            },
        ),
        Err(e) => Err(e),
    }
}

} // verus!
