//! From the text of a page to the parallel series that it carries.

use crate::block::{
    array_text, candidate, find_close, find_value_start, is_candidate, repair, repaired,
    value_start,
};
use crate::dom::{select_texts, selected_texts};
use crate::error::ExtractionError;
use crate::json::{decode_array, decoded_array, number_field, number_fields, string_field,
    string_fields};
use crate::normalize::{timestamp_texts, Bundle, RawSeriesBundle};
use crate::number::Binary64;
use crate::text::{
    chars_of, first_word, integer_of, parse_integer, slice_of, string_of, take_first_word, trim,
    trimmed,
};
use vstd::prelude::*;

verus! {

/// The selector of the scripts of a page.
pub open spec fn script_selector() -> Seq<char> {
    "script"@
}

/// The selector of the cells that hold the air temperature.
pub open spec fn temperature_selector() -> Seq<char> {
    "div.data-temp.data--major.weathertable__cell span.units-at"@
}

/// The selector of the cells that hold the wave period.
pub open spec fn period_selector() -> Seq<char> {
    "div.data-wavefreq.data--minor.weathertable__cell"@
}

/// The selector of the element that names the spot.
pub open spec fn spot_selector() -> Seq<char> {
    "span#spotheader-spotname"@
}

/// What one record of the data block says: the model of `RawRecord`.
pub struct Record {
    pub timestamp: Option<Seq<char>>,
    pub wind_bearing: Binary64,
    pub wave_bearing: Binary64,
    pub wind_speed: Binary64,
    pub wave_height: Binary64,
}

/// One record of the data block, a number that the source leaves out or
/// writes as something else being zero.
#[derive(Debug)]
pub struct RawRecord {
    /// The text of the timestamp, where the record has one.
    pub timestamp: Option<String>,
    /// The bearing of the wind in degrees.
    pub wind_bearing: Binary64,
    /// The bearing of the waves in degrees.
    pub wave_bearing: Binary64,
    /// The speed of the wind.
    pub wind_speed: Binary64,
    /// The height of the waves.
    pub wave_height: Binary64,
}

impl View for RawRecord {
    type V = Record;

    open spec fn view(&self) -> Record {
        Record {
            timestamp: match self.timestamp {
                Some(text) => Some(text@),
                None => None,
            },
            wind_bearing: self.wind_bearing,
            wave_bearing: self.wave_bearing,
            wind_speed: self.wind_speed,
            wave_height: self.wave_height,
        }
    }
}

/// What each of the records in `records` says.
pub open spec fn records_said(records: Seq<RawRecord>) -> Seq<Record> {
    Seq::new(records.len(), |i: int| records[i]@)
}

/// The number under `key`, and zero where there is none.
pub open spec fn number_at(numbers: Map<Seq<char>, u64>, key: Seq<char>) -> Binary64 {
    if numbers.dom().contains(key) {
        Binary64 { bits: numbers[key] }
    } else {
        Binary64 { bits: 0 }
    }
}

/// The record that a decoded element with the given numbers and strings
/// writes: its timestamp under `dtl`, the bearings of wind and waves under
/// `wd` and `wad`, the wind speed under `ws` and the wave height under `wh`.
pub open spec fn record_of(numbers: Map<Seq<char>, u64>, strings: Map<Seq<char>, Seq<char>>)
    -> Record {
    Record {
        timestamp: if strings.dom().contains("dtl"@) {
            Some(strings["dtl"@])
        } else {
            None
        },
        wind_bearing: number_at(numbers, "wd"@),
        wave_bearing: number_at(numbers, "wad"@),
        wind_speed: number_at(numbers, "ws"@),
        wave_height: number_at(numbers, "wh"@),
    }
}

/// What the text of a candidate yields: `Ok(None)` where it carries no data
/// label, the records of its array where that array closes and decodes, and
/// an error where it does not.
pub open spec fn candidate_reading(script: Seq<char>) -> Result<
    Option<Seq<Record>>,
    ExtractionError,
> {
    match value_start(script) {
        None => Ok(None),
        Some(start) => match array_text(script.skip(start)) {
            None => Err(ExtractionError::MalformedData),
            Some(array) => match decoded_array(repaired(array)) {
                None => Err(ExtractionError::MalformedData),
                Some(elements) => Ok(
                    Some(Seq::new(elements.len(), |i: int| record_of(elements[i].0, elements[i].1))),
                ),
            },
        },
    }
}

/// What one script yields: `Ok(None)` for a script that is no candidate,
/// and what its text yields for one that is.
pub open spec fn block_reading(script: Seq<char>) -> Result<Option<Seq<Record>>, ExtractionError> {
    if candidate(script) {
        candidate_reading(script)
    } else {
        Ok(None)
    }
}

/// The records of the last script that yields any; none where no script
/// does.
pub open spec fn latest_records(scripts: Seq<Seq<char>>) -> Seq<Record>
    decreases scripts.len(),
{
    if scripts.len() == 0 {
        Seq::empty()
    } else {
        match block_reading(scripts.last()) {
            Ok(Some(records)) => records,
            _ => latest_records(scripts.drop_last()),
        }
    }
}

/// Whether one of the scripts is a candidate for the data block.
pub open spec fn any_candidate(scripts: Seq<Seq<char>>) -> bool {
    exists|i: int| 0 <= i < scripts.len() && candidate(#[trigger] scripts[i])
}

/// Whether one of the scripts carries an array that does not close or does
/// not decode.
pub open spec fn any_malformed(scripts: Seq<Seq<char>>) -> bool {
    exists|i: int| 0 <= i < scripts.len() && (#[trigger] block_reading(scripts[i])) is Err
}

/// The records that the scripts of a page yield.
///
/// Every candidate is read. Where there is no candidate the page has no
/// data block; where the array of one does not close or decode the data are
/// malformed; otherwise the records are those of the last script that
/// yields any.
pub open spec fn records_of_scripts(scripts: Seq<Seq<char>>) -> Result<
    Seq<Record>,
    ExtractionError,
> {
    if !any_candidate(scripts) {
        Err(ExtractionError::NoDataBlock)
    } else if any_malformed(scripts) {
        Err(ExtractionError::MalformedData)
    } else {
        Ok(latest_records(scripts))
    }
}

/// The number that a table cell holds: its first word read as an integer,
/// and zero where that fails.
pub open spec fn cell_number(cell: Seq<char>) -> i32 {
    match integer_of(first_word(cell)) {
        Some(number) => number,
        None => 0,
    }
}

/// The spot that the selected elements name: the text of the first,
/// trimmed. `None` where nothing was selected.
pub open spec fn spot_of(texts: Seq<Seq<char>>) -> Option<Seq<char>> {
    if texts.len() > 0 {
        Some(trimmed(texts[0]))
    } else {
        None
    }
}

/// The bundle of series made of the records of the data block, the cells of
/// the two tables and the name of the spot.
pub open spec fn assembled(
    records: Seq<Record>,
    temperature_cells: Seq<Seq<char>>,
    period_cells: Seq<Seq<char>>,
    spot_name: Seq<char>,
) -> Bundle {
    Bundle {
        timestamps: Seq::new(records.len(), |i: int| records[i].timestamp),
        wind_bearings: Seq::new(records.len(), |i: int| records[i].wind_bearing),
        wind_speeds: Seq::new(records.len(), |i: int| records[i].wind_speed),
        wave_bearings: Seq::new(records.len(), |i: int| records[i].wave_bearing),
        wave_heights: Seq::new(records.len(), |i: int| records[i].wave_height),
        wave_periods: Seq::new(period_cells.len(), |i: int| cell_number(period_cells[i])),
        temperatures: Seq::new(
            temperature_cells.len(),
            |i: int| cell_number(temperature_cells[i]),
        ),
        spot_name,
    }
}

/// What the parts of a page yield: the bundle of their series, or the first
/// of the errors in this order: no data block, malformed data, missing
/// spot.
pub open spec fn extraction_of_parts(
    scripts: Seq<Seq<char>>,
    temperature_cells: Seq<Seq<char>>,
    period_cells: Seq<Seq<char>>,
    spot_texts: Seq<Seq<char>>,
) -> Result<Bundle, ExtractionError> {
    match records_of_scripts(scripts) {
        Err(e) => Err(e),
        Ok(records) => match spot_of(spot_texts) {
            None => Err(ExtractionError::MissingSpot),
            Some(spot_name) => Ok(assembled(records, temperature_cells, period_cells, spot_name)),
        },
    }
}

/// The texts of the elements of `document` that `selector` selects; none
/// where `selector` is no selector group.
pub open spec fn texts_selected(document: Seq<char>, selector: Seq<char>) -> Seq<Seq<char>> {
    match selected_texts(document, selector) {
        Some(texts) => texts,
        None => Seq::empty(),
    }
}

/// What a page yields: the extraction of its scripts, its temperature
/// cells, its wave period cells and the element that names its spot.
pub open spec fn extraction(document: Seq<char>) -> Result<Bundle, ExtractionError> {
    extraction_of_parts(
        texts_selected(document, script_selector()),
        texts_selected(document, temperature_selector()),
        texts_selected(document, period_selector()),
        texts_selected(document, spot_selector()),
    )
}

/// A page that names no spot yields `MissingSpot` whenever its data block
/// is found and decodes, whatever else it holds.
pub proof fn lemma_missing_spot(document: Seq<char>)
    requires
        records_of_scripts(texts_selected(document, script_selector())) is Ok,
        texts_selected(document, spot_selector()).len() == 0,
    ensures
        extraction(document) == Err::<Bundle, ExtractionError>(ExtractionError::MissingSpot),
{
}

/// The number under `key` in a decoded element, and zero where there is
/// none.
fn number_or_zero(value: &serde_json::Value, key: &str) -> (r: Binary64)
    ensures
        r == number_at(number_fields(*value), key@),
{
    match number_field(value, key) {
        Some(bits) => Binary64::from_bits(bits),
        None => Binary64::zero(),
    }
}

/// The record that a decoded element writes.
fn record_from(value: &serde_json::Value) -> (r: RawRecord)
    ensures
        r@ == record_of(number_fields(*value), string_fields(*value)),
{
    RawRecord {
        timestamp: string_field(value, "dtl"),
        wind_bearing: number_or_zero(value, "wd"),
        wave_bearing: number_or_zero(value, "wad"),
        wind_speed: number_or_zero(value, "ws"),
        wave_height: number_or_zero(value, "wh"),
    }
}

/// What the text of a candidate yields.
///
/// The array of records stands after the first data label and runs to the
/// first closing bracket that is structural: outside any string, and not
/// closing an inner array. Missing numbers in it are written as zero, and
/// the result is decoded.
pub fn read_candidate(script: &[char]) -> (r: Result<Option<Vec<RawRecord>>, ExtractionError>)
    ensures
        match r {
            Ok(Some(records)) => candidate_reading(script@) == Ok::<
                Option<Seq<Record>>,
                ExtractionError,
            >(Some(records_said(records@))),
            Ok(None) => candidate_reading(script@) == Ok::<Option<Seq<Record>>, ExtractionError>(
                None,
            ),
            Err(e) => candidate_reading(script@) == Err::<Option<Seq<Record>>, ExtractionError>(e),
        },
{
    let start: usize = match find_value_start(script) {
        Some(start) => start,
        None => return Ok(None),
    };
    let value: Vec<char> = slice_of(script, start, script.len());
    assert(value@ == script@.skip(start as int));
    let end: usize = match find_close(value.as_slice()) {
        Some(at) => at + 1,
        None => return Err(ExtractionError::MalformedData),
    };
    let array: Vec<char> = slice_of(value.as_slice(), 0, end);
    assert(array@ == value@.take(end as int));
    let fixed: Vec<char> = repair(array.as_slice());
    let text: String = string_of(fixed.as_slice());
    let values: Vec<serde_json::Value> = match decode_array(text.as_str()) {
        Ok(values) => values,
        Err(_) => return Err(ExtractionError::MalformedData),
    };
    let ghost elements = decoded_array(text@)->0;
    let mut records: Vec<RawRecord> = Vec::new();
    let mut i: usize = 0;
    while i < values.len()
        invariant
            i <= values.len(),
            elements.len() == values@.len(),
            forall|k: int|
                0 <= k < values@.len() ==> #[trigger] elements[k] == (
                    number_fields(values@[k]),
                    string_fields(values@[k]),
                ),
            records@.len() == i,
            forall|k: int|
                0 <= k < i ==> (#[trigger] records@[k])@ == record_of(
                    elements[k].0,
                    elements[k].1,
                ),
        decreases values.len() - i,
    {
        let record: RawRecord = record_from(&values[i]);
        records.push(record);
        i = i + 1;
    }
    assert(records_said(records@) == Seq::new(
        elements.len(),
        |k: int| record_of(elements[k].0, elements[k].1),
    ));
    Ok(Some(records))
}

/// What one script yields: nothing for a script that is no candidate, that
/// is, one that does not hold both the push marker and the data key; and
/// what its text yields for one that is.
pub fn read_block(script: &str) -> (r: Result<Option<Vec<RawRecord>>, ExtractionError>)
    ensures
        match r {
            Ok(Some(records)) => block_reading(script@) == Ok::<
                Option<Seq<Record>>,
                ExtractionError,
            >(Some(records_said(records@))),
            Ok(None) => block_reading(script@) == Ok::<Option<Seq<Record>>, ExtractionError>(None),
            Err(e) => block_reading(script@) == Err::<Option<Seq<Record>>, ExtractionError>(e),
        },
{
    let chars: Vec<char> = chars_of(script);
    if is_candidate(chars.as_slice()) {
        read_candidate(chars.as_slice())
    } else {
        Ok(None)
    }
}

/// The texts that `strings` hold.
pub open spec fn texts(strings: Seq<String>) -> Seq<Seq<char>> {
    Seq::new(strings.len(), |i: int| strings[i]@)
}

/// The records that the scripts of a page yield: those of the last script
/// that yields any. No candidate among the scripts is an error, and so is
/// a candidate whose array does not close or decode.
pub fn read_scripts(scripts: &Vec<String>) -> (r: Result<Vec<RawRecord>, ExtractionError>)
    ensures
        match r {
            Ok(records) => records_of_scripts(texts(scripts@)) == Ok::<
                Seq<Record>,
                ExtractionError,
            >(records_said(records@)),
            Err(e) => records_of_scripts(texts(scripts@)) == Err::<Seq<Record>, ExtractionError>(
                e,
            ),
        },
{
    let ghost all = texts(scripts@);
    let mut records: Vec<RawRecord> = Vec::new();
    let mut seen: bool = false;
    let mut i: usize = 0;
    proof {
        assert(all.take(0) == Seq::<Seq<char>>::empty());
    }
    while i < scripts.len()
        invariant
            i <= scripts.len(),
            all == texts(scripts@),
            seen == any_candidate(all.take(i as int)),
            !any_malformed(all.take(i as int)),
            records_said(records@) == latest_records(all.take(i as int)),
        decreases scripts.len() - i,
    {
        let chars: Vec<char> = chars_of(scripts[i].as_str());
        let ghost before = all.take(i as int);
        let ghost now = all.take(i + 1);
        proof {
            assert(now.drop_last() == before);
            assert(now.last() == chars@);
            assert forall|k: int| 0 <= k < before.len() implies before[k] == now[k] by {}
            if any_candidate(before) {
                let k = choose|k: int| 0 <= k < before.len() && candidate(#[trigger] before[k]);
                assert(candidate(now[k]));
            }
        }
        if is_candidate(chars.as_slice()) {
            proof {
                assert(candidate(now[i as int]));
            }
            seen = true;
            match read_candidate(chars.as_slice()) {
                Ok(Some(found)) => {
                    records = found;
                },
                Ok(None) => {},
                Err(e) => {
                    proof {
                        assert(all[i as int] == chars@);
                        assert(candidate(all[i as int]));
                        assert(block_reading(all[i as int]) is Err);
                    }
                    return Err(e);
                },
            }
        }
        proof {
            assert(block_reading(now.last()) is Ok);
            if any_malformed(now) {
                let k = choose|k: int|
                    0 <= k < now.len() && (#[trigger] block_reading(now[k])) is Err;
                if k < i {
                    assert(block_reading(before[k]) is Err);
                }
            }
            if any_candidate(now) && !seen {
                let k = choose|k: int| 0 <= k < now.len() && candidate(#[trigger] now[k]);
                if k < i {
                    assert(candidate(before[k]));
                }
            }
        }
        i = i + 1;
    }
    assert(all.take(scripts.len() as int) == all);
    if seen {
        Ok(records)
    } else {
        Err(ExtractionError::NoDataBlock)
    }
}

/// The number that a table cell holds: its first word read as an integer,
/// and zero where that fails.
pub fn cell_value(cell: &str) -> (r: i32)
    ensures
        r == cell_number(cell@),
{
    let chars: Vec<char> = chars_of(cell);
    let word: Vec<char> = take_first_word(chars.as_slice());
    match parse_integer(word.as_slice()) {
        Some(number) => number,
        None => 0,
    }
}

/// The numbers that the cells of a table hold.
pub fn cell_values(cells: &Vec<String>) -> (r: Vec<i32>)
    ensures
        r@ == Seq::new(cells@.len(), |i: int| cell_number(cells@[i]@)),
{
    let mut r: Vec<i32> = Vec::new();
    let mut i: usize = 0;
    while i < cells.len()
        invariant
            i <= cells.len(),
            r@ == Seq::new(i as nat, |k: int| cell_number(cells@[k]@)),
        decreases cells.len() - i,
    {
        r.push(cell_value(cells[i].as_str()));
        i = i + 1;
        assert(r@ == Seq::new(i as nat, |k: int| cell_number(cells@[k]@)));
    }
    r
}

/// The spot that the selected elements name: the text of the first,
/// without the white space at its two ends.
pub fn spot_name_of(selected: &Vec<String>) -> (r: Option<String>)
    ensures
        match r {
            Some(name) => spot_of(texts(selected@)) == Some(name@),
            None => spot_of(texts(selected@)) is None,
        },
{
    if selected.len() == 0 {
        return None;
    }
    let chars: Vec<char> = chars_of(selected[0].as_str());
    let name: Vec<char> = trim(chars.as_slice());
    Some(string_of(name.as_slice()))
}

/// The bundle of series made of the records of the data block, the cells of
/// the two tables and the name of the spot. Each series of the records has
/// one entry for each record, in order; each table gives one number for
/// each of its cells.
pub fn assemble(
    records: Vec<RawRecord>,
    temperature_cells: &Vec<String>,
    period_cells: &Vec<String>,
    spot_name: String,
) -> (bundle: RawSeriesBundle)
    ensures
        bundle@ == assembled(
            records_said(records@),
            texts(temperature_cells@),
            texts(period_cells@),
            spot_name@,
        ),
        bundle@.aligned(),
{
    let ghost said = records_said(records@);
    let mut timestamps: Vec<Option<String>> = Vec::new();
    let mut wind_bearings: Vec<Binary64> = Vec::new();
    let mut wind_speeds: Vec<Binary64> = Vec::new();
    let mut wave_bearings: Vec<Binary64> = Vec::new();
    let mut wave_heights: Vec<Binary64> = Vec::new();
    let mut rest: Vec<RawRecord> = records;
    let mut i: usize = 0;
    let n: usize = rest.len();
    while i < n
        invariant
            i <= n,
            n == rest@.len(),
            said == records_said(rest@),
            timestamps@.len() == i,
            timestamp_texts(timestamps@) == Seq::new(i as nat, |k: int| said[k].timestamp),
            wind_bearings@ == Seq::new(i as nat, |k: int| said[k].wind_bearing),
            wind_speeds@ == Seq::new(i as nat, |k: int| said[k].wind_speed),
            wave_bearings@ == Seq::new(i as nat, |k: int| said[k].wave_bearing),
            wave_heights@ == Seq::new(i as nat, |k: int| said[k].wave_height),
        decreases n - i,
    {
        let record: &RawRecord = &rest[i];
        let timestamp: Option<String> = match &record.timestamp {
            Some(text) => Some(text.clone()),
            None => None,
        };
        let ghost earlier = timestamps@;
        proof {
            assert(timestamp == record.timestamp);
            assert(said[i as int].timestamp == timestamp_texts(seq![timestamp])[0]);
            assert forall|k: int| 0 <= k < i + 1 implies #[trigger] timestamp_texts(
                earlier.push(timestamp),
            )[k] == said[k].timestamp by {
                if k < i {
                    assert(timestamp_texts(earlier)[k] == said[k].timestamp);
                }
            }
            assert(timestamp_texts(earlier.push(timestamp)) == Seq::new(
                (i + 1) as nat,
                |k: int| said[k].timestamp,
            ));
        }
        timestamps.push(timestamp);
        wind_bearings.push(record.wind_bearing);
        wind_speeds.push(record.wind_speed);
        wave_bearings.push(record.wave_bearing);
        wave_heights.push(record.wave_height);
        i = i + 1;
        proof {
            assert(timestamp_texts(timestamps@) == Seq::new(i as nat, |k: int| said[k].timestamp));
            assert(wind_bearings@ == Seq::new(i as nat, |k: int| said[k].wind_bearing));
            assert(wind_speeds@ == Seq::new(i as nat, |k: int| said[k].wind_speed));
            assert(wave_bearings@ == Seq::new(i as nat, |k: int| said[k].wave_bearing));
            assert(wave_heights@ == Seq::new(i as nat, |k: int| said[k].wave_height));
        }
    }
    let temperatures: Vec<i32> = cell_values(temperature_cells);
    let wave_periods: Vec<i32> = cell_values(period_cells);
    proof {
        assert(temperatures@ == Seq::new(
            texts(temperature_cells@).len(),
            |k: int| cell_number(texts(temperature_cells@)[k]),
        ));
        assert(wave_periods@ == Seq::new(
            texts(period_cells@).len(),
            |k: int| cell_number(texts(period_cells@)[k]),
        ));
    }
    RawSeriesBundle::of_aligned(
        timestamps,
        wind_bearings,
        wind_speeds,
        wave_bearings,
        wave_heights,
        wave_periods,
        temperatures,
        spot_name,
    )
}

/// What the parts of a page yield: the scripts, the texts of the
/// temperature cells and of the wave period cells, and the texts of the
/// elements selected for the name of the spot.
///
/// The result is the bundle of their series, or the first of the errors in
/// this order: no data block, malformed data, missing spot.
pub fn extract_from_parts(
    scripts: &Vec<String>,
    temperature_cells: &Vec<String>,
    period_cells: &Vec<String>,
    spot_texts: &Vec<String>,
) -> (r: Result<RawSeriesBundle, ExtractionError>)
    ensures
        match r {
            Ok(bundle) => extraction_of_parts(
                texts(scripts@),
                texts(temperature_cells@),
                texts(period_cells@),
                texts(spot_texts@),
            ) == Ok::<Bundle, ExtractionError>(bundle@) && bundle@.aligned(),
            Err(e) => extraction_of_parts(
                texts(scripts@),
                texts(temperature_cells@),
                texts(period_cells@),
                texts(spot_texts@),
            ) == Err::<Bundle, ExtractionError>(e),
        },
{
    let records: Vec<RawRecord> = match read_scripts(scripts) {
        Ok(records) => records,
        Err(e) => return Err(e),
    };
    let spot_name: String = match spot_name_of(spot_texts) {
        Some(name) => name,
        None => return Err(ExtractionError::MissingSpot),
    };
    Ok(assemble(records, temperature_cells, period_cells, spot_name))
}

/// The texts of the elements of `document` that `selector` selects; none
/// where `selector` is no selector group.
pub fn select(document: &str, selector: &str) -> (r: Vec<String>)
    ensures
        texts(r@) == texts_selected(document@, selector@),
{
    match select_texts(document, selector) {
        Some(found) => {
            assert(texts(found@) == found.deep_view());
            found
        },
        None => {
            let none: Vec<String> = Vec::new();
            assert(texts(none@) == Seq::<Seq<char>>::empty());
            none
        },
    }
}

/// What a page yields: the parallel series of its data block, the numbers
/// of its temperature and wave period cells, and the name of its spot.
///
/// The result is the bundle of these series, or the first of the errors in
/// this order: `NoDataBlock` where no script is a candidate, `MalformedData`
/// where the array of a candidate does not close or decode, `MissingSpot`
/// where no element names the spot.
pub fn extract(document: &str) -> (r: Result<RawSeriesBundle, ExtractionError>)
    ensures
        match r {
            Ok(bundle) => extraction(document@) == Ok::<Bundle, ExtractionError>(bundle@)
                && bundle@.aligned(),
            Err(e) => extraction(document@) == Err::<Bundle, ExtractionError>(e),
        },
{
    let scripts: Vec<String> = select(document, "script");
    let temperature_cells: Vec<String> = select(
        document,
        "div.data-temp.data--major.weathertable__cell span.units-at",
    );
    let period_cells: Vec<String> = select(
        document,
        "div.data-wavefreq.data--minor.weathertable__cell",
    );
    let spot_texts: Vec<String> = select(document, "span#spotheader-spotname");
    extract_from_parts(&scripts, &temperature_cells, &period_cells, &spot_texts)
}

} // verus!
