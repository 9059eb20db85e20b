//! One adapter for each outside catalogue. An adapter says where a query is
//! sent and turns what comes back into candidates; sending is the caller's.

pub mod anilist;
pub mod jikan;
pub mod kitsu;
pub mod loc;
pub mod mapping;
pub mod open_library;
pub mod source_trait;

use vstd::prelude::*;

pub use anilist::AniListSource;
pub use jikan::JikanSource;
pub use kitsu::KitsuSource;
pub use loc::LocSource;
pub use open_library::OpenLibrarySource;
pub use source_trait::MetadataSource;

verus! {

/// The catalogues that there is an adapter for.
#[derive(Debug, Clone, Copy, PartialEq, Eq, Structural)]
pub enum SourceId {
    OpenLibrary,
    Loc,
    AniList,
    Jikan,
    Kitsu,
}

/// The catalogues that a search asks, in this order: the two for books and
/// the two for manga. The one that knows only anime is left out.
pub fn all_sources() -> (sources: Vec<SourceId>)
    ensures
        sources@ == seq![SourceId::OpenLibrary, SourceId::Loc, SourceId::AniList, SourceId::Jikan],
{
    let mut sources: Vec<SourceId> = Vec::new();
    sources.push(SourceId::OpenLibrary);
    sources.push(SourceId::Loc);
    sources.push(SourceId::AniList);
    sources.push(SourceId::Jikan);
    proof {
        assert(sources@ =~= seq![
            SourceId::OpenLibrary,
            SourceId::Loc,
            SourceId::AniList,
            SourceId::Jikan,
        ]);
    }
    sources
}

} // verus!
