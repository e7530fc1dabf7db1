//! A top-level scraping unit: the entry the configuration declares, one
//! job with the set of base URLs it is seeded with. Running it — one
//! queue unit per URL — is the runner's work.

use vstd::prelude::*;
use crate::scraper_job::ScraperJob;
use crate::url_parts::UrlParts;

verus! {

/// One configured top-level entry: a job and the base URLs the queue is
/// seeded with for it.
#[derive(Debug)]
pub struct ScraperUnit {
    pub scraper: ScraperJob,
    pub urls: Vec<UrlParts>,
}

impl ScraperUnit {
    /// How many initial queue units this entry seeds: one per URL.
    pub fn seed_count(&self) -> (r: usize)
        ensures
            r == self.urls@.len(),
    {
        self.urls.len()
    }
}

} // verus!
