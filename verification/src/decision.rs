//! Whether the best candidate may be applied without asking.

use crate::candidate::MetadataCandidate;
use vstd::prelude::*;

verus! {

/// Score units per point: scores are whole thousandths of a point.
pub const SCORE_UNIT: u32 = 1000;

/// The highest score, 100 points.
pub const MAX_SCORE: u32 = 100_000;

/// A candidate that scores at least this much, 65 points, is confirmed.
pub const SCORE_THRESHOLD: u32 = 65_000;

/// What to do with one scored candidate.
#[derive(Debug)]
pub struct MetadataDecision {
    /// Whether the candidate is to be written to the catalogue unasked.
    pub apply: bool,
    /// Whether the score reached the threshold.
    pub confirmed: bool,
    pub score: u32,
    pub candidate: MetadataCandidate,
}

/// Which fields of a catalogue entry its owner edited by hand. The resolver
/// reads these and never changes them.
#[derive(Debug, Clone, Copy, PartialEq, Eq, Structural)]
pub struct BookMetadataState {
    pub author_manually_edited: bool,
    pub description_manually_edited: bool,
    pub cover_manually_edited: bool,
    pub title_manually_edited: bool,
}

/// Confirms the candidate exactly when its score reaches the threshold, and
/// applies it exactly when it is confirmed.
pub fn apply_metadata_decision(
    candidate: MetadataCandidate,
    score: u32,
    flags: &BookMetadataState,
) -> (d: MetadataDecision)
    ensures
        d.confirmed == (score >= SCORE_THRESHOLD),
        d.apply == d.confirmed,
        d.score == score,
        d.candidate == candidate,
{
    let confirmed = score >= SCORE_THRESHOLD;
    MetadataDecision { apply: confirmed, confirmed, score, candidate }
}

} // verus!
