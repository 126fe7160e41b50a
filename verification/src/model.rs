//! The in-memory form of a scoreboard save file.
//!
//! The whole record tree is held as one owned value: a root with a format
//! version and a data block, which in turn holds display settings, the
//! objectives, the per-player score entries and the teams. Only the player
//! score entries are ever changed by the merge; everything else passes
//! through unchanged.

use vstd::prelude::*;

verus! {

/// One (objective, player, score, lock) record: the unit of the merge.
///
/// Well-formed files carry at most one entry per (objective, player) pair,
/// though the file format does not enforce that structurally.
#[derive(Debug, PartialEq)]
pub struct PlayerScore {
    pub objective: String,
    pub name: String,
    pub score: Option<i32>,
    pub locked: Option<i8>,
}

/// The mathematical value of a [`PlayerScore`]: the same four fields with
/// the strings abstracted to character sequences.
pub struct PlayerScoreV {
    pub objective: Seq<char>,
    pub name: Seq<char>,
    pub score: Option<i32>,
    pub locked: Option<i8>,
}

impl View for PlayerScore {
    type V = PlayerScoreV;

    open spec fn view(&self) -> PlayerScoreV {
        PlayerScoreV {
            objective: self.objective@,
            name: self.name@,
            score: self.score,
            locked: self.locked,
        }
    }
}

impl Clone for PlayerScore {
    fn clone(&self) -> (r: Self)
        ensures
            r == *self,
    {
        PlayerScore {
            objective: self.objective.clone(),
            name: self.name.clone(),
            score: self.score,
            locked: self.locked,
        }
    }
}

/// A scoreboard criterion (for example "kills") that scores are tracked
/// against. Immutable pass-through for the merge.
#[derive(Debug, PartialEq)]
pub struct Objectives {
    pub criteria_name: Option<String>,
    pub display_name: String,
    pub name: String,
}

/// The display-slot setting of the scoreboard. Immutable pass-through.
#[derive(Debug, PartialEq)]
pub struct DisplaySlot {
    pub list: String,
}

/// A player-name grouping. Team rosters reference players by name and are
/// deliberately not updated when a player's entries are merged away: a
/// known gap of the tool, documented rather than silently fixed.
#[derive(Debug, PartialEq)]
pub struct Teams {
    pub display_name: String,
    pub name: String,
    pub players: Vec<String>,
    pub team_color: String,
}

/// The data block of the scoreboard: display settings, objectives, the
/// per-player score entries, and teams.
#[derive(Debug, PartialEq)]
pub struct ScoreboardData {
    pub display_slots: DisplaySlot,
    pub objectives: Vec<Objectives>,
    pub player_scores: Vec<PlayerScore>,
    pub teams: Vec<Teams>,
}

/// The top-level record of the save file: a format-version integer and one
/// data block.
#[derive(Debug, PartialEq)]
pub struct ScoreboardRoot {
    pub data_version: i32,
    pub data: ScoreboardData,
}

} // verus!
