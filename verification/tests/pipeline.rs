use windfinder::compass::Direction;
use windfinder::error::ExtractionError;
use windfinder::extract::{
    assemble, cell_value, cell_values, extract, extract_from_parts, read_block, read_scripts,
    select, spot_name_of, RawRecord,
};
use windfinder::finder::WindFinder;
use windfinder::normalize::RawSeriesBundle;
use windfinder::number::Binary64;
use windfinder::status::StatusTable;
use windfinder::time::Timestamp;

fn number(x: f64) -> Binary64 {
    Binary64::from_bits(x.to_bits())
}

fn page(script: &str, spot: &str) -> String {
    format!(
        "<html><head><title>t</title><script>var a = [1];</script><script>{}</script></head>\
         <body>{}\
         <div class=\"data-temp data--major weathertable__cell\"><span class=\"units-at\">21 °C</span></div>\
         <div class=\"data-temp data--major weathertable__cell\"><span class=\"units-at\">warm</span></div>\
         <div class=\"data-temp data--minor weathertable__cell\"><span class=\"units-at\">99</span></div>\
         <div class=\"data-wavefreq data--minor weathertable__cell\"> 7 s</div>\
         </body></html>",
        script, spot
    )
}

const SPOT: &str = "<span id=\"spotheader-spotname\">\n  Els Poblets \u{a0}</span>";

const DATA: &str = "window.ctx.push({id: 1, fcData: [\
    {\"dtl\":\"2024-05-01T12:00:00+02:00\",\"wd\":270,\"wad\":90,\"ws\":5.5,\"wh\":0.4},\
    {\"dtl\":\"2024-05-01T13:00:00+02:00\",\"wd\": null,\"wad\":180.0,\"ws\":6,\"wh\": null,\"tags\":[[1],[2,\"]\"]]}\
    ], more: [1, 2]});";

#[test]
fn a_page_yields_its_series() {
    let bundle = extract(&page(DATA, SPOT)).unwrap();
    assert_eq!(bundle.len(), 2);
    assert_eq!(
        bundle.timestamps(),
        &vec![
            Some("2024-05-01T12:00:00+02:00".to_string()),
            Some("2024-05-01T13:00:00+02:00".to_string())
        ]
    );
    assert_eq!(bundle.wind_bearings(), &vec![number(270.0), number(0.0)]);
    assert_eq!(bundle.wave_bearings(), &vec![number(90.0), number(180.0)]);
    assert_eq!(bundle.wind_speeds(), &vec![number(5.5), number(6.0)]);
    assert_eq!(bundle.wave_heights(), &vec![number(0.4), number(0.0)]);
    assert_eq!(bundle.temperatures(), &vec![21, 0]);
    assert_eq!(bundle.wave_periods(), &vec![7]);
    assert_eq!(bundle.spot_name(), "Els Poblets");
}

#[test]
fn a_page_yields_its_observations() {
    let series = WindFinder::new().scrape(&page(DATA, SPOT)).unwrap();
    assert_eq!(series.len(), 2);
    let first = series.get(0).unwrap();
    assert_eq!(first.datetime, Timestamp::new(1714557600, 0, 7200));
    assert_eq!(first.wind_direction, Direction::W);
    assert_eq!(first.wind_status, "status");
    assert_eq!(first.wind_speed, number(5.5));
    assert_eq!(first.wave_direction, Some(Direction::E));
    assert_eq!(first.wave_period, Some(7));
    assert_eq!(first.wave_height, Some(number(0.4)));
    assert_eq!(first.air_temperature, Some(21));
    assert_eq!(first.spot_name, "Els Poblets");
    let second = series.get(1).unwrap();
    assert_eq!(second.datetime, Timestamp::new(1714561200, 0, 7200));
    assert_eq!(second.wind_direction, Direction::N);
    assert_eq!(second.wave_direction, Some(Direction::S));
    assert_eq!(second.wind_speed, number(6.0));
    assert_eq!(second.wave_period, None);
    assert_eq!(second.wave_height, Some(number(0.0)));
    assert_eq!(second.air_temperature, Some(0));
    assert_eq!(second.spot_name, "Els Poblets");
    assert!(series.get(2).is_none());
}

#[test]
fn a_page_without_a_candidate_has_no_data_block() {
    let r = extract(&page("var fcData = [];", SPOT));
    assert!(matches!(r, Err(ExtractionError::NoDataBlock)));
    let r = extract("<html><body><span id=\"spotheader-spotname\">x</span></body></html>");
    assert!(matches!(r, Err(ExtractionError::NoDataBlock)));
    let r = extract("");
    assert!(matches!(r, Err(ExtractionError::NoDataBlock)));
}

#[test]
fn an_array_that_does_not_decode_is_malformed() {
    let r = extract(&page("window.ctx.push({fcData: [{\"dtl\": }]});", SPOT));
    assert!(matches!(r, Err(ExtractionError::MalformedData)));
    let r = extract(&page("window.ctx.push({fcData: {\"dtl\": 1}]});", SPOT));
    assert!(matches!(r, Err(ExtractionError::MalformedData)));
    let r = extract(&page("window.ctx.push({fcData: [{\"wd\":null}]});", SPOT));
    assert!(matches!(r, Ok(_)));
}

#[test]
fn an_array_that_does_not_close_is_malformed() {
    let r = extract(&page("window.ctx.push({fcData: [{\"dtl\": \"x\"}, [1, 2]", SPOT));
    assert!(matches!(r, Err(ExtractionError::MalformedData)));
}

#[test]
fn malformed_data_comes_before_a_missing_spot() {
    let r = extract(&page("window.ctx.push({fcData: [{\"dtl\": }]});", ""));
    assert!(matches!(r, Err(ExtractionError::MalformedData)));
    let r = extract(&page("nothing here", ""));
    assert!(matches!(r, Err(ExtractionError::NoDataBlock)));
}

#[test]
fn a_page_that_names_no_spot_is_refused() {
    let r = extract(&page(DATA, ""));
    assert!(matches!(r, Err(ExtractionError::MissingSpot)));
    let r = extract(&page(DATA, "<span id=\"other\">Els Poblets</span>"));
    assert!(matches!(r, Err(ExtractionError::MissingSpot)));
    let r = WindFinder::new().scrape(&page(DATA, ""));
    assert!(matches!(r, Err(ExtractionError::MissingSpot)));
}

#[test]
fn a_timestamp_that_cannot_be_read_is_refused() {
    let script = "window.ctx.push({fcData: [{\"dtl\":\"yesterday\",\"wd\":1}]});";
    let bundle = extract(&page(script, SPOT)).unwrap();
    assert_eq!(bundle.len(), 1);
    assert!(matches!(bundle.normalize(), Err(ExtractionError::BadTimestamp)));
    let r = WindFinder::new().scrape(&page(script, SPOT));
    assert!(matches!(r, Err(ExtractionError::BadTimestamp)));
    let script = "window.ctx.push({fcData: [{\"wd\":1}, {\"dtl\":\"2024-05-01T12:00:00+02:00\"}]});";
    let bundle = extract(&page(script, SPOT)).unwrap();
    assert_eq!(bundle.timestamps(), &vec![None, Some("2024-05-01T12:00:00+02:00".to_string())]);
    assert!(matches!(bundle.normalize(), Err(ExtractionError::BadTimestamp)));
    let script = "window.ctx.push({fcData: [{\"dtl\":20240501}]});";
    let r = WindFinder::new().scrape(&page(script, SPOT));
    assert!(matches!(r, Err(ExtractionError::BadTimestamp)));
}

#[test]
fn a_candidate_without_a_label_carries_no_records() {
    let bundle = extract(&page("window.ctx.push({FCDATA: [1]});", SPOT)).unwrap();
    assert_eq!(bundle.len(), 0);
    assert_eq!(bundle.temperatures(), &vec![21, 0]);
    let series = bundle.normalize().unwrap();
    assert_eq!(series.len(), 0);
}

#[test]
fn the_last_script_with_records_wins() {
    let scripts = vec![
        "window.ctx.push({fcData: [{\"wd\": 90}]});".to_string(),
        "var unrelated = 1;".to_string(),
        "window.ctx.push({fcData: [{\"wd\": 180}, {\"wd\": 270}]});".to_string(),
        "window.ctx.push({fcdata: 0});".to_string(),
    ];
    let records = read_scripts(&scripts).unwrap();
    assert_eq!(records.len(), 2);
    assert_eq!(records[0].wind_bearing, number(180.0));
    assert_eq!(records[1].wind_bearing, number(270.0));
}

#[test]
fn one_malformed_candidate_spoils_the_reading() {
    let scripts = vec![
        "window.ctx.push({fcData: [{\"wd\": 90}]});".to_string(),
        "window.ctx.push({fcData: [oops]});".to_string(),
    ];
    assert!(matches!(read_scripts(&scripts), Err(ExtractionError::MalformedData)));
    let scripts = vec![
        "window.ctx.push({fcData: [oops]});".to_string(),
        "window.ctx.push({fcData: [{\"wd\": 90}]});".to_string(),
    ];
    assert!(matches!(read_scripts(&scripts), Err(ExtractionError::MalformedData)));
    assert!(matches!(read_scripts(&Vec::new()), Err(ExtractionError::NoDataBlock)));
}

#[test]
fn a_block_is_read_record_by_record() {
    let r = read_block("window.ctx.push({fcData: [{\"dtl\":\"t\",\"wd\":1.5,\"wad\":-2,\"ws\":\"fast\",\"other\":3}, 7, {\"dtl\":null}]}) ]");
    let records = r.unwrap().unwrap();
    assert_eq!(records.len(), 3);
    assert_eq!(records[0].timestamp, Some("t".to_string()));
    assert_eq!(records[0].wind_bearing, number(1.5));
    assert_eq!(records[0].wave_bearing, number(-2.0));
    assert_eq!(records[0].wind_speed, number(0.0));
    assert_eq!(records[0].wave_height, number(0.0));
    assert_eq!(records[1].timestamp, None);
    assert_eq!(records[1].wind_bearing, number(0.0));
    assert_eq!(records[2].timestamp, None);
    assert!(matches!(read_block("var x = 1;"), Ok(None)));
    assert!(matches!(read_block("window.ctx.push({fcdata: [1]})"), Ok(None)));
    assert!(matches!(read_block("window.ctx.push({fcData: 5})"), Err(ExtractionError::MalformedData)));
    assert!(matches!(read_block("window.ctx.push({fcData: []})"), Ok(Some(v)) if v.is_empty()));
    assert!(matches!(
        read_block("window.ctx.push({fcData: [] junk ]})"),
        Ok(Some(v)) if v.is_empty()
    ));
}

#[test]
fn large_whole_numbers_are_read_as_reals() {
    let r = read_block("window.ctx.push({fcData: [{\"wd\":18446744073709551615,\"wad\":-9223372036854775808,\"ws\":1e2}]})");
    let records = r.unwrap().unwrap();
    assert_eq!(records[0].wind_bearing, number(18446744073709551615.0));
    assert_eq!(records[0].wave_bearing, number(-9223372036854775808.0));
    assert_eq!(records[0].wind_speed, number(100.0));
}

#[test]
fn cells_hold_their_first_word_as_a_number() {
    assert_eq!(cell_value("21 °C"), 21);
    assert_eq!(cell_value("  -3\u{a0}°C"), -3);
    assert_eq!(cell_value("21°C"), 0);
    assert_eq!(cell_value(""), 0);
    assert_eq!(cell_value("   "), 0);
    assert_eq!(cell_value("warm 21"), 0);
    assert_eq!(cell_value("99999999999 s"), 0);
    assert_eq!(
        cell_values(&vec!["7 s".to_string(), "x".to_string(), "+12".to_string()]),
        vec![7, 0, 12]
    );
    assert_eq!(cell_values(&Vec::new()), Vec::<i32>::new());
}

#[test]
fn the_spot_is_the_first_selected_text_trimmed() {
    assert_eq!(spot_name_of(&vec![" A b \n".to_string(), "C".to_string()]), Some("A b".to_string()));
    assert_eq!(spot_name_of(&vec!["  ".to_string()]), Some("".to_string()));
    assert_eq!(spot_name_of(&Vec::new()), None);
}

#[test]
fn elements_are_selected_with_their_texts() {
    let doc = "<div><p class=\"a\">one <b>two</b></p><p>skip</p><p class=\"a\">three</p></div>";
    assert_eq!(select(doc, "p.a"), vec!["one two".to_string(), "three".to_string()]);
    assert_eq!(select(doc, "b"), vec!["two".to_string()]);
    assert_eq!(select(doc, "span"), Vec::<String>::new());
    assert_eq!(select(doc, "p..a["), Vec::<String>::new());
    assert_eq!(select("<script>if (a < b) { c(\"</p>\"); }</script>", "script"),
        vec!["if (a < b) { c(\"</p>\"); }".to_string()]);
}

#[test]
fn parts_are_assembled_by_position() {
    let records = vec![
        RawRecord {
            timestamp: Some("a".to_string()),
            wind_bearing: number(1.0),
            wave_bearing: number(2.0),
            wind_speed: number(3.0),
            wave_height: number(4.0),
        },
        RawRecord {
            timestamp: None,
            wind_bearing: number(5.0),
            wave_bearing: number(6.0),
            wind_speed: number(7.0),
            wave_height: number(8.0),
        },
    ];
    let bundle = assemble(
        records,
        &vec!["10".to_string()],
        &vec!["1".to_string(), "2".to_string(), "3".to_string()],
        "Spot".to_string(),
    );
    assert_eq!(bundle.len(), 2);
    assert_eq!(bundle.timestamps(), &vec![Some("a".to_string()), None]);
    assert_eq!(bundle.wind_bearings(), &vec![number(1.0), number(5.0)]);
    assert_eq!(bundle.wave_bearings(), &vec![number(2.0), number(6.0)]);
    assert_eq!(bundle.wind_speeds(), &vec![number(3.0), number(7.0)]);
    assert_eq!(bundle.wave_heights(), &vec![number(4.0), number(8.0)]);
    assert_eq!(bundle.temperatures(), &vec![10]);
    assert_eq!(bundle.wave_periods(), &vec![1, 2, 3]);
    assert_eq!(bundle.spot_name(), "Spot");
}

#[test]
fn parts_yield_what_the_page_yields() {
    let scripts = vec![DATA.to_string()];
    let none: Vec<String> = Vec::new();
    let r = extract_from_parts(&scripts, &none, &none, &vec![" S ".to_string()]).unwrap();
    assert_eq!(r.len(), 2);
    assert_eq!(r.spot_name(), "S");
    assert!(r.temperatures().is_empty());
    let r = extract_from_parts(&scripts, &none, &none, &none);
    assert!(matches!(r, Err(ExtractionError::MissingSpot)));
    let r = extract_from_parts(&none, &none, &none, &vec!["S".to_string()]);
    assert!(matches!(r, Err(ExtractionError::NoDataBlock)));
}

fn bundle_of(n: usize, optional: usize) -> RawSeriesBundle {
    let timestamps: Vec<Option<String>> =
        (0..n).map(|i| Some(format!("2024-05-01T{:02}:00:00Z", i))).collect();
    RawSeriesBundle::new(
        timestamps,
        (0..n).map(|i| number(22.5 * i as f64)).collect(),
        (0..n).map(|i| number(i as f64)).collect(),
        (0..optional).map(|i| number(45.0 * i as f64)).collect(),
        (0..optional).map(|i| number(0.5 * i as f64)).collect(),
        (0..optional).map(|i| i as i32).collect(),
        (0..optional).map(|i| 20 + i as i32).collect(),
        "Spot".to_string(),
    )
    .unwrap()
}

#[test]
fn one_observation_for_each_timestamp() {
    for n in 0..6 {
        for optional in 0..8 {
            let series = bundle_of(n, optional).normalize().unwrap();
            assert_eq!(series.len(), n);
            for i in 0..n {
                let d = series.get(i).unwrap();
                assert_eq!(d.datetime, Timestamp::new(1714521600 + 3600 * i as i64, 0, 0));
                assert_eq!(d.wind_direction, Direction::from_sector(i as u8));
                assert_eq!(d.wind_speed, number(i as f64));
                assert_eq!(d.spot_name, "Spot");
                if i < optional {
                    assert_eq!(d.wave_direction, Some(Direction::from_sector(2 * i as u8)));
                    assert_eq!(d.wave_height, Some(number(0.5 * i as f64)));
                    assert_eq!(d.wave_period, Some(i as i32));
                    assert_eq!(d.air_temperature, Some(20 + i as i32));
                } else {
                    assert_eq!(d.wave_direction, None);
                    assert_eq!(d.wave_height, None);
                    assert_eq!(d.wave_period, None);
                    assert_eq!(d.air_temperature, None);
                }
            }
        }
    }
}

#[test]
fn required_series_must_agree_in_length() {
    let ts = |n: usize| -> Vec<Option<String>> { (0..n).map(|_| None).collect() };
    let nums = |n: usize| -> Vec<Binary64> { (0..n).map(|_| number(0.0)).collect() };
    let make = |a: usize, b: usize, c: usize| {
        RawSeriesBundle::new(ts(a), nums(b), nums(c), nums(9), nums(0), vec![1], vec![], String::new())
    };
    assert!(make(2, 2, 2).is_some());
    assert!(make(0, 0, 0).is_some());
    assert!(make(2, 1, 2).is_none());
    assert!(make(2, 2, 3).is_none());
    assert!(make(1, 2, 2).is_none());
}

fn onshore() -> StatusTable {
    StatusTable::uniform("across").with(Direction::E, Some(Direction::E), "with the waves")
}

#[test]
fn the_status_policy_can_be_supplied() {
    let bundle = RawSeriesBundle::new(
        vec![Some("2024-05-01T00:00:00Z".to_string()), Some("2024-05-01T01:00:00Z".to_string())],
        vec![number(90.0), number(90.0)],
        vec![number(1.0), number(1.0)],
        vec![number(95.0)],
        vec![],
        vec![],
        vec![],
        "Spot".to_string(),
    )
    .unwrap();
    let series = bundle.normalize_with(&onshore()).unwrap();
    assert_eq!(series.get(0).unwrap().wind_status, "with the waves");
    assert_eq!(series.get(1).unwrap().wind_status, "across");
    let series = bundle.normalize_with(&StatusTable::placeholder()).unwrap();
    assert_eq!(series.get(0).unwrap().wind_status, "status");
    let finder = WindFinder::with_policy(onshore());
    let series = finder.scrape(&page(DATA, SPOT)).unwrap();
    assert_eq!(series.get(0).unwrap().wind_status, "across");
    assert_eq!(WindFinder::default().scrape(&page(DATA, SPOT)).unwrap().len(), 2);
}

#[test]
fn errors_describe_themselves() {
    assert_eq!(ExtractionError::NoDataBlock.message(), "no data block found");
    assert_eq!(ExtractionError::MalformedData.message(), "malformed data block");
    assert_eq!(ExtractionError::MissingSpot.message(), "missing spot name");
    assert_eq!(ExtractionError::BadTimestamp.message(), "bad timestamp");
}

#[test]
fn a_table_holds_one_label_for_each_pair() {
    let table = StatusTable::uniform("calm")
        .with(Direction::N, None, "unknown")
        .with(Direction::NNW, Some(Direction::NNW), "last")
        .with(Direction::N, Some(Direction::N), "first")
        .with(Direction::N, None, "none");
    for w in 0..16u8 {
        let wind = Direction::from_sector(w);
        for v in 0..17u8 {
            let wave = if v == 16 { None } else { Some(Direction::from_sector(v)) };
            let expected = match (w, v) {
                (0, 16) => "none",
                (15, 15) => "last",
                (0, 0) => "first",
                _ => "calm",
            };
            assert_eq!(table.classify(wind, wave), expected, "{:?} {:?}", wind, wave);
            assert_eq!(table.clone().classify(wind, wave), expected);
            assert_eq!(StatusTable::placeholder().classify(wind, wave), "status");
        }
    }
}
