//! Observations and the series that one reading of a page yields.

use crate::compass::Direction;
use crate::number::Binary64;
use crate::time::Timestamp;
use vstd::prelude::*;

verus! {

/// What one observation says: the model of `Data`.
pub struct Observation {
    pub datetime: Timestamp,
    pub wind_direction: Direction,
    pub wind_status: Seq<char>,
    pub wind_speed: Binary64,
    pub wave_direction: Option<Direction>,
    pub wave_period: Option<i32>,
    pub wave_height: Option<Binary64>,
    pub air_temperature: Option<i32>,
    pub spot_name: Seq<char>,
}

/// One observation: wind, waves and temperature at a point in time.
#[derive(Debug)]
pub struct Data {
    /// The point in time of the observation.
    pub datetime: Timestamp,
    /// The compass point from which the wind blows.
    pub wind_direction: Direction,
    /// What the wind means for the waves, as the status policy puts it.
    pub wind_status: String,
    /// The speed of the wind.
    pub wind_speed: Binary64,
    /// The compass point from which the waves come, where known.
    pub wave_direction: Option<Direction>,
    /// The period of the waves in seconds, where known.
    pub wave_period: Option<i32>,
    /// The height of the waves, where known.
    pub wave_height: Option<Binary64>,
    /// The temperature of the air, where known.
    pub air_temperature: Option<i32>,
    /// The spot that the forecast is for.
    pub spot_name: String,
}

impl View for Data {
    type V = Observation;

    open spec fn view(&self) -> Observation {
        Observation {
            datetime: self.datetime,
            wind_direction: self.wind_direction,
            wind_status: self.wind_status@,
            wind_speed: self.wind_speed,
            wave_direction: self.wave_direction,
            wave_period: self.wave_period,
            wave_height: self.wave_height,
            air_temperature: self.air_temperature,
            spot_name: self.spot_name@,
        }
    }
}

impl Clone for Data {
    fn clone(&self) -> (r: Data)
        ensures
            r@ == self@,
    {
        Data {
            datetime: self.datetime,
            wind_direction: self.wind_direction,
            wind_status: self.wind_status.clone(),
            wind_speed: self.wind_speed,
            wave_direction: self.wave_direction,
            wave_period: self.wave_period,
            wave_height: self.wave_height,
            air_temperature: self.air_temperature,
            spot_name: self.spot_name.clone(),
        }
    }
}

/// What each of the observations in `data` says.
pub open spec fn observations(data: Seq<Data>) -> Seq<Observation> {
    Seq::new(data.len(), |i: int| data[i]@)
}

/// One more observation at the end of the data is one more at the end of
/// what the data say.
pub proof fn lemma_observations_push(data: Seq<Data>, last: Data)
    ensures
        observations(data.push(last)) == observations(data).push(last@),
{
    assert(observations(data.push(last)) =~= observations(data).push(last@));
}

/// Whether all observations of a series name the same spot.
pub open spec fn one_spot(series: Seq<Observation>) -> bool {
    forall|i: int, j: int|
        0 <= i < series.len() && 0 <= j < series.len() ==> (#[trigger] series[i]).spot_name == (
        #[trigger] series[j]).spot_name
}

/// The first position from `from` on whose observation lies in the window
/// of `query`.
pub open spec fn first_in_window(series: Seq<Observation>, query: Timestamp, from: int) -> Option<
    int,
>
    decreases series.len() - from,
{
    if from < 0 || from >= series.len() {
        None
    } else if series[from].datetime.in_window_of(query) {
        Some(from)
    } else {
        first_in_window(series, query, from + 1)
    }
}

/// The position of the observation that applies at `query`: the first, in
/// the order of the series, that lies in the window of `query`; where none
/// does, the first of the series; `None` for an empty series.
pub open spec fn applicable_at(series: Seq<Observation>, query: Timestamp) -> Option<int> {
    match first_in_window(series, query, 0) {
        Some(at) => Some(at),
        None => if series.len() > 0 {
            Some(0)
        } else {
            None
        },
    }
}

/// The observation that applies at `query`.
pub open spec fn applicable(series: Seq<Observation>, query: Timestamp) -> Option<Observation> {
    match applicable_at(series, query) {
        Some(at) => Some(series[at]),
        None => None,
    }
}

/// `first_in_window` is the least position from `from` on whose observation
/// lies in the window, and `None` only where none does.
pub proof fn lemma_first_in_window_is_least(series: Seq<Observation>, query: Timestamp, from: int)
    requires
        0 <= from,
    ensures
        match first_in_window(series, query, from) {
            Some(at) => {
                &&& from <= at < series.len()
                &&& series[at].datetime.in_window_of(query)
                &&& forall|j: int| from <= j < at ==> !series[j].datetime.in_window_of(query)
            },
            None => forall|j: int|
                from <= j < series.len() ==> !series[j].datetime.in_window_of(query),
        },
    decreases series.len() - from,
{
    if from < series.len() && !series[from].datetime.in_window_of(query) {
        lemma_first_in_window_is_least(series, query, from + 1);
    }
}

/// The series of one reading of a page: its observations in the order of
/// the source, all for the same spot.
#[derive(Debug)]
pub struct WindData {
    data: Vec<Data>,
}

impl View for WindData {
    type V = Seq<Observation>;

    closed spec fn view(&self) -> Seq<Observation> {
        observations(self.data@)
    }
}

impl Clone for WindData {
    fn clone(&self) -> (r: WindData)
        ensures
            r@ == self@,
    {
        proof {
            use_type_invariant(self);
        }
        let mut data: Vec<Data> = Vec::new();
        let mut i: usize = 0;
        while i < self.data.len()
            invariant
                i <= self.data.len(),
                observations(data@) == observations(self.data@).take(i as int),
            decreases self.data.len() - i,
        {
            proof {
                assert(observations(self.data@).take(i + 1) == observations(self.data@).take(
                    i as int,
                ).push(self.data@[i as int]@));
            }
            let copy: Data = self.data[i].clone();
            proof {
                lemma_observations_push(data@, copy);
            }
            data.push(copy);
            i = i + 1;
        }
        assert(observations(self.data@).take(self.data.len() as int) == observations(self.data@));
        WindData { data }
    }
}

impl WindData {
    #[verifier::type_invariant]
    spec fn well_formed(self) -> bool {
        one_spot(observations(self.data@))
    }

    /// The series of the given observations; `None` where they do not all
    /// name the same spot.
    pub fn new(data: Vec<Data>) -> (r: Option<WindData>)
        ensures
            match r {
                Some(series) => series@ == observations(data@) && one_spot(series@),
                None => !one_spot(observations(data@)),
            },
    {
        let mut i: usize = 1;
        while i < data.len()
            invariant
                1 <= i,
                forall|j: int|
                    0 <= j < i && j < data.len() ==> (#[trigger] data@[j]).spot_name@
                        == data@[0].spot_name@,
            decreases data.len() - i,
        {
            if data[i].spot_name != data[0].spot_name {
                assert(observations(data@)[i as int].spot_name != observations(
                    data@,
                )[0].spot_name);
                return None;
            }
            i = i + 1;
        }
        assert(one_spot(observations(data@))) by {
            assert forall|a: int, b: int| 0 <= a < data.len() && 0 <= b < data.len() implies (
            #[trigger] observations(data@)[a]).spot_name == (#[trigger] observations(
                data@,
            )[b]).spot_name by {
                assert(data@[a].spot_name@ == data@[0].spot_name@);
                assert(data@[b].spot_name@ == data@[0].spot_name@);
            }
        }
        Some(WindData { data })
    }

    /// The series of observations that are known to name one spot.
    pub(crate) fn of_one_spot(data: Vec<Data>) -> (r: WindData)
        requires
            one_spot(observations(data@)),
        ensures
            r@ == observations(data@),
    {
        WindData { data }
    }

    /// The number of observations.
    pub fn len(&self) -> (n: usize)
        ensures
            n == self@.len(),
    {
        self.data.len()
    }

    /// The observation at position `i`, where the series has one.
    pub fn get(&self, i: usize) -> (r: Option<&Data>)
        ensures
            match r {
                Some(d) => i < self@.len() && d@ == self@[i as int],
                None => i >= self@.len(),
            },
    {
        if i < self.data.len() {
            Some(&self.data[i])
        } else {
            None
        }
    }

    /// The observations, in the order of the series.
    pub fn records(&self) -> (r: &Vec<Data>)
        ensures
            observations(r@) == self@,
            one_spot(self@),
    {
        proof {
            use_type_invariant(self);
        }
        &self.data
    }

    /// The position of the observation that applies at `dt`.
    pub fn position_for_date(&self, dt: Timestamp) -> (r: Option<usize>)
        ensures
            match r {
                Some(at) => {
                    &&& applicable_at(self@, dt) == Some(at as int)
                    &&& at < self@.len()
                    &&& forall|j: int| 0 <= j < at ==> !self@[j].datetime.in_window_of(dt)
                    &&& self@[at as int].datetime.in_window_of(dt) || (at == 0 && forall|j: int|
                        0 <= j < self@.len() ==> !self@[j].datetime.in_window_of(dt))
                },
                None => applicable_at(self@, dt) is None && self@.len() == 0,
            },
    {
        proof {
            lemma_first_in_window_is_least(self@, dt, 0);
        }
        let mut i: usize = 0;
        while i < self.data.len()
            invariant
                i <= self.data.len(),
                first_in_window(self@, dt, i as int) == first_in_window(self@, dt, 0),
            decreases self.data.len() - i,
        {
            if self.data[i].datetime.is_in_window_of(&dt) {
                proof {
                    lemma_first_in_window_is_least(self@, dt, 0);
                }
                return Some(i);
            }
            i = i + 1;
        }
        if self.data.len() > 0 {
            Some(0)
        } else {
            None
        }
    }

    /// The observation that applies at `dt`: the first, in the order of the
    /// series, that is strictly later than `dt` and no later than two hours
    /// after it; where there is none, the first of the series. `None` only
    /// for an empty series.
    pub fn for_date(&self, dt: Timestamp) -> (r: Option<&Data>)
        ensures
            match r {
                Some(d) => applicable(self@, dt) == Some(d@),
                None => applicable(self@, dt) is None,
            },
            r is None <==> self@.len() == 0,
    {
        match self.position_for_date(dt) {
            Some(at) => Some(&self.data[at]),
            None => None,
        }
    }
}

} // verus!
