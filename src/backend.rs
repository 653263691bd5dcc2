use vstd::prelude::*;
use crate::model::{Episode, DomError};
use crate::text::same_text;

verus! {

/// A source of episodes for feed URLs.
pub trait FetchingBackend {
    /// The episodes of the feed at `url`, oldest first.
    fn fetch_feed(&self, url: &str) -> Result<Vec<Episode>, DomError>;
}

/// The identifier under which the RSS/Atom backend is registered.
pub open spec fn rss_id() -> Seq<char> {
    "rss"@
}

/// The fetching backends, each under its identifier.
pub struct Backends<R: FetchingBackend> {
    /// Serves the identifier "rss".
    pub rss: R,
}

impl<R: FetchingBackend> Backends<R> {
    /// The backend registered under `name`.
    pub fn get_backend(&self, name: &str) -> (r: Result<&R, DomError>)
        ensures
            name@ == rss_id() ==> (r matches Ok(b) && b == &self.rss),
            name@ != rss_id() ==> (r matches Err(DomError::UnknownBackend(n)) && n@ == name@),
    {
        proof {
            reveal_strlit("rss");
        }
        if same_text(name, "rss") {
            Ok(&self.rss)
        } else {
            Err(DomError::UnknownBackend(name.to_string()))
        }
    }
}

} // verus!
