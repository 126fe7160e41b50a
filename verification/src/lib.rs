//! Merging of two players' entries in a game scoreboard save file.
//!
//! The save file is a gzip-compressed binary tag tree. This library holds
//! the verified core of the tool: the data model of the scoreboard, the
//! merge of one player's scores into another's, and the gzip framing of the
//! encoded bytes. Reading and writing files, and the binary-tag
//! serialization itself, live outside the library.

use vstd::prelude::*;

pub mod gzip;
pub mod laws;
pub mod merge;
pub mod model;

verus! {

/// Why a run of the tool failed.
///
/// Every error is terminal: the tool writes no output file after one.
#[derive(Clone, Copy, Debug, PartialEq, Eq, Structural)]
pub enum ScoreboardError {
    /// The source player has no score entries at all.
    NameNotFound,
    /// The input bytes are not a well-formed gzip stream.
    DecodeError,
    /// Compressing the output bytes failed. The in-memory gzip encoder is
    /// proved never to fail, so no library function returns this; the
    /// variant names the encode stage of the error taxonomy all the same.
    EncodeError,
}

} // verus!
