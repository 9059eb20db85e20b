//! Metadata resolution for a local book and comic catalogue: text
//! normalisation, search-query variations, candidate scoring, ranking and the
//! auto-apply decision.

pub mod aggregator;
pub mod cache;
pub mod candidate;
pub mod decision;
pub mod enrichment;
pub mod normalizer;
pub mod normalizer_laws;
pub mod scorer;
pub mod search;
pub mod sources;
pub mod text;
pub mod variation_laws;
pub mod variations;
pub mod wordset;

pub use aggregator::Aggregator;
pub use cache::CachedResult;
pub use candidate::{MediaType, MetadataCandidate};
pub use decision::{apply_metadata_decision, BookMetadataState, MetadataDecision};
pub use enrichment::{MetadataCandidateDto, RankedCandidateDto, SearchMetadataResult};
pub use normalizer::{contains_japanese, normalize, settled};
pub use scorer::{score_candidate, score_candidate_with_context, ScoreContext};
pub use variations::{
    generate_variations, is_likely_western_book, is_likely_western_from, variations_from_parts,
};
pub use search::{rank_candidates, resolve, RankedCandidate, SearchResult};
pub use sources::{
    all_sources, AniListSource, JikanSource, KitsuSource, LocSource, MetadataSource,
    OpenLibrarySource, SourceId,
};
