//! What every adapter has to say for itself.

use crate::candidate::MediaType;
use vstd::prelude::*;

verus! {

/// One outside catalogue. An adapter keeps no state and may be asked from
/// several threads at once.
pub trait MetadataSource {
    /// The identifier that candidates of this catalogue carry as `source`.
    fn name(&self) -> (n: &'static str);

    /// The one kind of work that this catalogue is asked for.
    fn media_type(&self) -> (m: MediaType);

    /// How many seconds one request may take.
    fn timeout_secs(&self) -> (t: u64);

    /// Where a query is sent.
    fn endpoint(&self, query: &str) -> (url: String);
}

} // verus!
