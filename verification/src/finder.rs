//! The whole reading of a page, from its text to a series of observations.

use crate::error::ExtractionError;
use crate::extract::{extract, extraction};
use crate::series::{one_spot, Observation, WindData};
use crate::status::{placeholder_rule, Rule, StatusTable};
use crate::store::TimeIndexedStore;
use vstd::prelude::*;

verus! {

/// What the text of a page yields under a status rule: the series of
/// observations of its bundle, or the error that ends the attempt.
pub open spec fn scraped(document: Seq<char>, rule: Rule) -> Result<
    Seq<Observation>,
    ExtractionError,
> {
    match extraction(document) {
        Ok(bundle) => bundle.normalized(rule),
        Err(e) => Err(e),
    }
}

/// Reads forecast pages, labelling each observation by its status rule.
#[derive(Debug)]
pub struct WindFinder {
    pub policy: StatusTable,
}

impl Default for WindFinder {
    fn default() -> (finder: Self)
        ensures
            finder.policy.rule() == placeholder_rule(),
    {
        WindFinder::new()
    }
}

impl WindFinder {
    /// A finder with the placeholder rule: every observation is labelled
    /// `status`.
    pub fn new() -> (finder: Self)
        ensures
            finder.policy.rule() == placeholder_rule(),
    {
        WindFinder { policy: StatusTable::placeholder() }
    }

    /// A finder with the given status rule.
    pub fn with_policy(policy: StatusTable) -> (finder: Self)
        ensures
            finder.policy == policy,
    {
        WindFinder { policy }
    }

    /// The series of observations that the text of a page yields.
    ///
    /// The page's data block is isolated, repaired and decoded, the cells
    /// of its tables and the name of its spot are read, and the parallel
    /// series are aligned into observations. Any error ends the attempt:
    /// there is no partial series.
    pub fn scrape(&self, document: &str) -> (r: Result<WindData, ExtractionError>)
        ensures
            match r {
                Ok(series) => scraped(document@, self.policy.rule()) == Ok::<
                    Seq<Observation>,
                    ExtractionError,
                >(series@) && one_spot(series@),
                Err(e) => scraped(document@, self.policy.rule()) == Err::<
                    Seq<Observation>,
                    ExtractionError,
                >(e),
            },
    {
        match extract(document) {
            Ok(bundle) => bundle.normalize_with(&self.policy),
            Err(e) => Err(e),
        }
    }

    /// Reads the text of a page and, where that succeeds, puts the new
    /// series in the place of whatever `store` held. Where it fails the
    /// store is left as it was, and the error is handed back.
    pub fn refresh(&self, store: &mut TimeIndexedStore, document: &str) -> (r: Result<
        (),
        ExtractionError,
    >)
        ensures
            match r {
                Ok(_) => scraped(document@, self.policy.rule()) == Ok::<Seq<Observation>, ExtractionError>(
                    final(store)@->0,
                ) && final(store)@ is Some,
                Err(e) => scraped(document@, self.policy.rule()) == Err::<
                    Seq<Observation>,
                    ExtractionError,
                >(e) && final(store)@ == old(store)@,
            },
    {
        match self.scrape(document) {
            Ok(series) => {
                store.replace(series);
                Ok(())
            },
            Err(e) => Err(e),
        }
    }
}

} // verus!
