//! From the parallel series of one reading to a series of observations.

use crate::compass::{direction_for, direction_of, Direction};
use crate::error::ExtractionError;
use crate::number::Binary64;
use crate::series::{lemma_observations_push, observations, one_spot, Data, Observation, WindData};
use crate::status::{placeholder_rule, Rule, StatusTable};
use crate::time::{timestamp_of, Timestamp};
use vstd::prelude::*;

verus! {

/// The parallel series of one reading: the model of `RawSeriesBundle`.
///
/// The series are aligned by position. `timestamps`, `wind_bearings` and
/// `wind_speeds` are required; the others are optional and may be shorter.
pub struct Bundle {
    pub timestamps: Seq<Option<Seq<char>>>,
    pub wind_bearings: Seq<Binary64>,
    pub wind_speeds: Seq<Binary64>,
    pub wave_bearings: Seq<Binary64>,
    pub wave_heights: Seq<Binary64>,
    pub wave_periods: Seq<i32>,
    pub temperatures: Seq<i32>,
    pub spot_name: Seq<char>,
}

impl Bundle {
    /// Whether the required series have one length.
    pub open spec fn aligned(self) -> bool {
        &&& self.wind_bearings.len() == self.timestamps.len()
        &&& self.wind_speeds.len() == self.timestamps.len()
    }

    /// Whether every record carries a timestamp that can be read.
    pub open spec fn timestamps_readable(self) -> bool {
        forall|i: int|
            0 <= i < self.timestamps.len() ==> timestamp_found(#[trigger] self.timestamps[i])
    }

    /// The observation at position `i`, under the given status rule.
    pub open spec fn observation(self, rule: Rule, i: int) -> Observation {
        let wind = direction_of(self.wind_bearings[i]);
        let wave = if i < self.wave_bearings.len() {
            Some(direction_of(self.wave_bearings[i]))
        } else {
            None
        };
        Observation {
            datetime: timestamp_of(self.timestamps[i]->0)->0,
            wind_direction: wind,
            wind_status: rule(wind, wave),
            wind_speed: self.wind_speeds[i],
            wave_direction: wave,
            wave_period: if i < self.wave_periods.len() {
                Some(self.wave_periods[i])
            } else {
                None
            },
            wave_height: if i < self.wave_heights.len() {
                Some(self.wave_heights[i])
            } else {
                None
            },
            air_temperature: if i < self.temperatures.len() {
                Some(self.temperatures[i])
            } else {
                None
            },
            spot_name: self.spot_name,
        }
    }

    /// The series of observations that the bundle yields under the given
    /// status rule: one for each timestamp, in order; an error where a
    /// timestamp is missing or cannot be read.
    pub open spec fn normalized(self, rule: Rule) -> Result<Seq<Observation>, ExtractionError> {
        if self.timestamps_readable() {
            Ok(Seq::new(self.timestamps.len(), |i: int| self.observation(rule, i)))
        } else {
            Err(ExtractionError::BadTimestamp)
        }
    }
}

/// Whether a record carries a timestamp, and one that can be read.
pub open spec fn timestamp_found(text: Option<Seq<char>>) -> bool {
    text is Some && timestamp_of(text->0) is Some
}

/// The texts that `timestamps` holds.
pub open spec fn timestamp_texts(timestamps: Seq<Option<String>>) -> Seq<Option<Seq<char>>> {
    Seq::new(
        timestamps.len(),
        |i: int|
            match timestamps[i] {
                Some(text) => Some(text@),
                None => None,
            },
    )
}

/// The parallel series that one reading of a page yields, aligned by
/// position: the required series have one length.
#[derive(Debug)]
pub struct RawSeriesBundle {
    timestamps: Vec<Option<String>>,
    wind_bearings: Vec<Binary64>,
    wind_speeds: Vec<Binary64>,
    wave_bearings: Vec<Binary64>,
    wave_heights: Vec<Binary64>,
    wave_periods: Vec<i32>,
    temperatures: Vec<i32>,
    spot_name: String,
}

impl View for RawSeriesBundle {
    type V = Bundle;

    closed spec fn view(&self) -> Bundle {
        Bundle {
            timestamps: timestamp_texts(self.timestamps@),
            wind_bearings: self.wind_bearings@,
            wind_speeds: self.wind_speeds@,
            wave_bearings: self.wave_bearings@,
            wave_heights: self.wave_heights@,
            wave_periods: self.wave_periods@,
            temperatures: self.temperatures@,
            spot_name: self.spot_name@,
        }
    }
}

impl RawSeriesBundle {
    #[verifier::type_invariant]
    spec fn well_formed(self) -> bool {
        &&& self.wind_bearings@.len() == self.timestamps@.len()
        &&& self.wind_speeds@.len() == self.timestamps@.len()
    }

    /// The bundle of the given series; `None` where the required series,
    /// `timestamps`, `wind_bearings` and `wind_speeds`, differ in length.
    pub fn new(
        timestamps: Vec<Option<String>>,
        wind_bearings: Vec<Binary64>,
        wind_speeds: Vec<Binary64>,
        wave_bearings: Vec<Binary64>,
        wave_heights: Vec<Binary64>,
        wave_periods: Vec<i32>,
        temperatures: Vec<i32>,
        spot_name: String,
    ) -> (r: Option<RawSeriesBundle>)
        ensures
            r is Some <==> wind_bearings@.len() == timestamps@.len() && wind_speeds@.len()
                == timestamps@.len(),
            r matches Some(bundle) ==> bundle@ == (Bundle {
                timestamps: timestamp_texts(timestamps@),
                wind_bearings: wind_bearings@,
                wind_speeds: wind_speeds@,
                wave_bearings: wave_bearings@,
                wave_heights: wave_heights@,
                wave_periods: wave_periods@,
                temperatures: temperatures@,
                spot_name: spot_name@,
            }) && bundle@.aligned(),
    {
        if wind_bearings.len() != timestamps.len() || wind_speeds.len() != timestamps.len() {
            return None;
        }
        Some(
            RawSeriesBundle {
                timestamps,
                wind_bearings,
                wind_speeds,
                wave_bearings,
                wave_heights,
                wave_periods,
                temperatures,
                spot_name,
            },
        )
    }

    /// The bundle of series whose required ones are known to have one
    /// length.
    pub(crate) fn of_aligned(
        timestamps: Vec<Option<String>>,
        wind_bearings: Vec<Binary64>,
        wind_speeds: Vec<Binary64>,
        wave_bearings: Vec<Binary64>,
        wave_heights: Vec<Binary64>,
        wave_periods: Vec<i32>,
        temperatures: Vec<i32>,
        spot_name: String,
    ) -> (bundle: RawSeriesBundle)
        requires
            wind_bearings@.len() == timestamps@.len(),
            wind_speeds@.len() == timestamps@.len(),
        ensures
            bundle@ == (Bundle {
                timestamps: timestamp_texts(timestamps@),
                wind_bearings: wind_bearings@,
                wind_speeds: wind_speeds@,
                wave_bearings: wave_bearings@,
                wave_heights: wave_heights@,
                wave_periods: wave_periods@,
                temperatures: temperatures@,
                spot_name: spot_name@,
            }),
    {
        RawSeriesBundle {
            timestamps,
            wind_bearings,
            wind_speeds,
            wave_bearings,
            wave_heights,
            wave_periods,
            temperatures,
            spot_name,
        }
    }

    /// The number of records: the length of the required series.
    pub fn len(&self) -> (n: usize)
        ensures
            n == self@.timestamps.len(),
            self@.aligned(),
    {
        proof {
            use_type_invariant(self);
        }
        self.timestamps.len()
    }

    /// The texts of the timestamps, one for each record; `None` for a
    /// record without one.
    pub fn timestamps(&self) -> (r: &Vec<Option<String>>)
        ensures
            timestamp_texts(r@) == self@.timestamps,
    {
        &self.timestamps
    }

    /// The bearings of the wind in degrees, one for each record.
    pub fn wind_bearings(&self) -> (r: &Vec<Binary64>)
        ensures
            r@ == self@.wind_bearings,
    {
        &self.wind_bearings
    }

    /// The speeds of the wind, one for each record.
    pub fn wind_speeds(&self) -> (r: &Vec<Binary64>)
        ensures
            r@ == self@.wind_speeds,
    {
        &self.wind_speeds
    }

    /// The bearings of the waves in degrees, as far as they are known.
    pub fn wave_bearings(&self) -> (r: &Vec<Binary64>)
        ensures
            r@ == self@.wave_bearings,
    {
        &self.wave_bearings
    }

    /// The heights of the waves, as far as they are known.
    pub fn wave_heights(&self) -> (r: &Vec<Binary64>)
        ensures
            r@ == self@.wave_heights,
    {
        &self.wave_heights
    }

    /// The periods of the waves in seconds, as far as they are known.
    pub fn wave_periods(&self) -> (r: &Vec<i32>)
        ensures
            r@ == self@.wave_periods,
    {
        &self.wave_periods
    }

    /// The temperatures of the air, as far as they are known.
    pub fn temperatures(&self) -> (r: &Vec<i32>)
        ensures
            r@ == self@.temperatures,
    {
        &self.temperatures
    }

    /// The spot that the page names.
    pub fn spot_name(&self) -> (name: &str)
        ensures
            name@ == self@.spot_name,
    {
        self.spot_name.as_str()
    }

    /// The series of observations that the bundle yields under the given
    /// status rule.
    ///
    /// There is one observation for each timestamp, in order. The required
    /// series give its time, wind direction and wind speed; each optional
    /// series gives its part where it reaches that far, and nothing where it
    /// is shorter. A timestamp that is missing or cannot be read is an
    /// error, and then there is no series at all.
    pub fn normalize_with(&self, policy: &StatusTable) -> (r: Result<WindData, ExtractionError>)
        ensures
            match r {
                Ok(series) => self@.normalized(policy.rule()) == Ok::<
                    Seq<Observation>,
                    ExtractionError,
                >(series@),
                Err(e) => self@.normalized(policy.rule()) == Err::<
                    Seq<Observation>,
                    ExtractionError,
                >(e),
            },
            r matches Ok(series) ==> series@.len() == self@.timestamps.len() && one_spot(series@),
            r is Ok <==> self@.timestamps_readable(),
    {
        proof {
            use_type_invariant(self);
        }
        let n: usize = self.timestamps.len();
        let ghost bundle = self@;
        let mut data: Vec<Data> = Vec::new();
        let mut i: usize = 0;
        while i < n
            invariant
                i <= n,
                n == self.timestamps@.len(),
                self.wind_bearings@.len() == n,
                self.wind_speeds@.len() == n,
                bundle == self@,
                forall|k: int| 0 <= k < i ==> timestamp_found(#[trigger] bundle.timestamps[k]),
                observations(data@) == Seq::new(
                    i as nat,
                    |k: int| bundle.observation(policy.rule(), k),
                ),
            decreases n - i,
        {
            let datetime: Timestamp = match &self.timestamps[i] {
                Some(text) => match Timestamp::parse(text.as_str()) {
                    Some(datetime) => datetime,
                    None => {
                        assert(!timestamp_found(bundle.timestamps[i as int]));
                        return Err(ExtractionError::BadTimestamp);
                    },
                },
                None => {
                    assert(!timestamp_found(bundle.timestamps[i as int]));
                    return Err(ExtractionError::BadTimestamp);
                },
            };
            let wind: Direction = direction_for(self.wind_bearings[i]);
            let wave: Option<Direction> = if i < self.wave_bearings.len() {
                Some(direction_for(self.wave_bearings[i]))
            } else {
                None
            };
            let observation = Data {
                datetime,
                wind_direction: wind,
                wind_status: policy.classify(wind, wave),
                wind_speed: self.wind_speeds[i],
                wave_direction: wave,
                wave_period: if i < self.wave_periods.len() {
                    Some(self.wave_periods[i])
                } else {
                    None
                },
                wave_height: if i < self.wave_heights.len() {
                    Some(self.wave_heights[i])
                } else {
                    None
                },
                air_temperature: if i < self.temperatures.len() {
                    Some(self.temperatures[i])
                } else {
                    None
                },
                spot_name: self.spot_name.clone(),
            };
            proof {
                assert(observation@ == bundle.observation(policy.rule(), i as int));
                lemma_observations_push(data@, observation);
                assert(Seq::new((i + 1) as nat, |k: int| bundle.observation(policy.rule(), k))
                    == Seq::new(i as nat, |k: int| bundle.observation(policy.rule(), k)).push(
                    observation@,
                ));
            }
            data.push(observation);
            i = i + 1;
        }
        Ok(WindData::of_one_spot(data))
    }

    /// The series of observations that the bundle yields, each with the
    /// placeholder status.
    pub fn normalize(&self) -> (r: Result<WindData, ExtractionError>)
        ensures
            match r {
                Ok(series) => self@.normalized(placeholder_rule()) == Ok::<
                    Seq<Observation>,
                    ExtractionError,
                >(series@),
                Err(e) => self@.normalized(placeholder_rule()) == Err::<
                    Seq<Observation>,
                    ExtractionError,
                >(e),
            },
            r matches Ok(series) ==> series@.len() == self@.timestamps.len() && one_spot(series@),
            r is Ok <==> self@.timestamps_readable(),
    {
        let policy: StatusTable = StatusTable::placeholder();
        self.normalize_with(&policy)
    }
}

} // verus!
