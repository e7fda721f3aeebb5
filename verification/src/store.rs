//! The snapshot that queries are answered from: the series of the latest
//! reading that succeeded, replaced as a whole.

use crate::series::{
    applicable, lemma_first_in_window_is_least, one_spot, Data, Observation, WindData,
};
use crate::time::Timestamp;
use vstd::prelude::*;

verus! {

/// The answer to a query.
#[derive(Debug)]
pub enum Lookup<'a> {
    /// The observation that applies.
    Found(&'a Data),
    /// The store holds a series, and the series is empty.
    NoSlot,
    /// The store has never been given a series.
    NotPopulated,
}

/// The status with which an answer goes out over HTTP: 200 with the
/// observation, 204 where the series has no slot, 404 where the store has
/// never been populated.
pub open spec fn status_of(lookup: Lookup) -> u16 {
    match lookup {
        Lookup::Found(_) => 200,
        Lookup::NoSlot => 204,
        Lookup::NotPopulated => 404,
    }
}

impl<'a> Lookup<'a> {
    /// The status with which this answer goes out over HTTP.
    pub fn status(&self) -> (code: u16)
        ensures
            code == status_of(*self),
    {
        match self {
            Lookup::Found(_) => 200,
            Lookup::NoSlot => 204,
            Lookup::NotPopulated => 404,
        }
    }

    /// The observation found, if any.
    pub fn found(&self) -> (r: Option<&'a Data>)
        ensures
            match *self {
                Lookup::Found(d) => r == Some(d),
                _ => r is None,
            },
    {
        match self {
            Lookup::Found(d) => Some(*d),
            _ => None,
        }
    }
}

/// The current series, if any, with queries by point in time.
///
/// The store holds either nothing or one whole series; `replace` puts a new
/// series in the place of the old one in a single step.
#[derive(Debug)]
pub struct TimeIndexedStore {
    current: Option<WindData>,
}

impl View for TimeIndexedStore {
    type V = Option<Seq<Observation>>;

    closed spec fn view(&self) -> Option<Seq<Observation>> {
        match self.current {
            Some(series) => Some(series@),
            None => None,
        }
    }
}

/// What a store that holds `held` answers at `query`: nothing where it was
/// never populated, else the observation of its series that applies.
pub open spec fn answer(held: Option<Seq<Observation>>, query: Timestamp) -> Option<Observation> {
    match held {
        Some(series) => applicable(series, query),
        None => None,
    }
}

impl TimeIndexedStore {
    /// A store that has not been populated yet.
    pub fn new() -> (store: TimeIndexedStore)
        ensures
            store@ is None,
    {
        TimeIndexedStore { current: None }
    }

    /// Whether the store has been given a series.
    pub fn is_populated(&self) -> (r: bool)
        ensures
            r == (self@ is Some),
    {
        self.current.is_some()
    }

    /// Puts `series` in the place of whatever the store held.
    pub fn replace(&mut self, series: WindData)
        ensures
            final(self)@ == Some(series@),
    {
        self.current = Some(series);
    }

    /// The series that the store holds, if any: a whole series, all of
    /// whose observations name one spot.
    pub fn snapshot(&self) -> (r: Option<&WindData>)
        ensures
            match r {
                Some(series) => self@ == Some(series@) && one_spot(series@),
                None => self@ is None,
            },
    {
        match &self.current {
            Some(series) => {
                let _ = series.records();
                Some(series)
            },
            None => None,
        }
    }

    /// The observation that applies at `query_time`: the first of the
    /// series that is strictly later than `query_time` and no later than two
    /// hours after it; where there is none, the first of the series. `None`
    /// where the store was never populated or its series is empty.
    pub fn for_time(&self, query_time: Timestamp) -> (r: Option<&Data>)
        ensures
            match r {
                Some(d) => answer(self@, query_time) == Some(d@),
                None => answer(self@, query_time) is None,
            },
    {
        match &self.current {
            Some(series) => series.for_date(query_time),
            None => None,
        }
    }

    /// The answer at `query_time`, telling a store that was never populated
    /// from one whose series has no slot.
    pub fn lookup(&self, query_time: Timestamp) -> (r: Lookup<'_>)
        ensures
            match r {
                Lookup::Found(d) => answer(self@, query_time) == Some(d@),
                Lookup::NoSlot => self@ matches Some(series) && series.len() == 0,
                Lookup::NotPopulated => self@ is None,
            },
    {
        match &self.current {
            Some(series) => match series.for_date(query_time) {
                Some(d) => Lookup::Found(d),
                None => Lookup::NoSlot,
            },
            None => Lookup::NotPopulated,
        }
    }
}

/// A query is answered from the series that the store holds at that
/// moment and from nothing else: the answer is one of the observations of
/// that series, and there is none only where the store was never populated
/// or its series is empty. After `replace` that series is the new one,
/// whatever the store held before.
pub proof fn lemma_answer_is_of_series(held: Option<Seq<Observation>>, query: Timestamp)
    ensures
        answer(held, query) matches Some(observation) ==> held is Some && held->0.contains(
            observation,
        ),
        answer(held, query) is None <==> (held matches Some(series) ==> series.len() == 0),
{
    if held is Some {
        lemma_first_in_window_is_least(held->0, query, 0);
    }
}

} // verus!
