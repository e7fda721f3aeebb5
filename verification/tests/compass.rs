use windfinder::compass::{direction_for, Direction};
use windfinder::number::Binary64;

fn angle(degrees: f64) -> Binary64 {
    Binary64::from_bits(degrees.to_bits())
}

#[test]
fn north_south_and_wrap() {
    assert_eq!(direction_for(angle(0.0)), Direction::N);
    assert_eq!(direction_for(angle(180.0)), Direction::S);
    assert_eq!(direction_for(angle(349.0)), Direction::N);
}

#[test]
fn labels_of_the_three_bearings() {
    assert_eq!(direction_for(angle(0.0)).label(), "N");
    assert_eq!(direction_for(angle(180.0)).label(), "S");
    assert_eq!(direction_for(angle(349.0)).label(), "N");
}

#[test]
fn every_sector_by_its_centre() {
    let expected = [
        "N", "NNE", "NE", "ENE", "E", "ESE", "SE", "SSE", "S", "SSW", "SW", "WSW", "W", "WNW",
        "NW", "NNW",
    ];
    for (i, label) in expected.iter().enumerate() {
        let d = direction_for(angle(22.5 * i as f64));
        assert_eq!(d.label(), *label);
        assert_eq!(d.to_sector() as usize, i);
        assert_eq!(Direction::from_sector(i as u8), d);
    }
}

#[test]
fn ties_go_away_from_zero() {
    assert_eq!(direction_for(angle(11.25)), Direction::NNE);
    assert_eq!(direction_for(angle(11.24)), Direction::N);
    assert_eq!(direction_for(angle(33.75)), Direction::NE);
    assert_eq!(direction_for(angle(-11.25)), Direction::NNW);
    assert_eq!(direction_for(angle(348.75)), Direction::N);
    assert_eq!(direction_for(angle(-348.75)), Direction::N);
}

#[test]
fn negative_bearings_use_the_true_modulo() {
    assert_eq!(direction_for(angle(-90.0)), Direction::W);
    assert_eq!(direction_for(angle(270.0)), Direction::W);
    assert_eq!(direction_for(angle(-22.5)), Direction::NNW);
    assert_eq!(direction_for(angle(-0.0)), Direction::N);
}

#[test]
fn bearings_beyond_one_turn() {
    assert_eq!(direction_for(angle(765.0)), Direction::NE);
    assert_eq!(direction_for(angle(3700.5)), Direction::E);
    assert_eq!(direction_for(angle(123456789.125)), Direction::S);
}

#[test]
fn very_large_and_very_small_bearings() {
    assert_eq!(direction_for(angle(1e300)), Direction::N);
    assert_eq!(direction_for(angle(-1e300)), Direction::N);
    assert_eq!(direction_for(angle(1.152921504606846976e18)), Direction::SE);
    assert_eq!(direction_for(angle(f64::MAX)), Direction::SE);
    assert_eq!(direction_for(angle(9007199254740991.0)), Direction::NNE);
    assert_eq!(direction_for(angle(1000000000000000.5)), Direction::W);
    assert_eq!(direction_for(angle(5e-324)), Direction::N);
    assert_eq!(direction_for(angle(f64::MIN_POSITIVE)), Direction::N);
}

#[test]
fn bearings_that_are_no_numbers_point_north() {
    assert_eq!(direction_for(angle(f64::NAN)), Direction::N);
    assert_eq!(direction_for(angle(f64::INFINITY)), Direction::N);
    assert_eq!(direction_for(angle(f64::NEG_INFINITY)), Direction::N);
}

#[test]
fn full_circles_change_nothing() {
    let bearings = [0.0, 45.0, 100.5, 200.25, 359.75, -30.0, -200.25, 11.25, 348.75];
    for a in bearings.iter() {
        for k in 0..5 {
            let turned = a + 360.0 * k as f64;
            assert_eq!(direction_for(angle(turned)), direction_for(angle(*a)), "{} + {} turns", a, k);
        }
    }
    let negative = [-30.0, -200.25, -11.25, -348.75];
    for a in negative.iter() {
        for k in 0..5 {
            let turned = a - 360.0 * k as f64;
            assert_eq!(direction_for(angle(turned)), direction_for(angle(*a)), "{} - {} turns", a, k);
        }
    }
    assert_eq!(direction_for(angle(-30.0 + 720.0)), direction_for(angle(-30.0)));
    assert_eq!(direction_for(angle(400.0 - 1080.0)), direction_for(angle(400.0)));
}

#[test]
fn a_tie_across_zero_lands_in_the_next_sector() {
    assert_eq!(direction_for(angle(-11.25)), Direction::NNW);
    assert_eq!(direction_for(angle(-11.25 + 360.0)), Direction::N);
}

#[test]
fn parts_of_a_number() {
    let one = Binary64::from_bits(1.0f64.to_bits());
    assert_eq!(one.parts(), (1u64 << 52, -52));
    assert!(one.is_finite());
    assert!(!one.is_negative());
    let tiny = Binary64::from_bits(1);
    assert_eq!(tiny.parts(), (1, -1074));
    let minus = Binary64::from_bits((-2.5f64).to_bits());
    assert!(minus.is_negative());
    assert_eq!(minus.parts(), (5u64 << 50, -51));
    assert_eq!(minus.to_bits(), (-2.5f64).to_bits());
    assert_eq!(Binary64::zero().to_bits(), 0);
    assert!(!Binary64::from_bits(f64::NAN.to_bits()).is_finite());
    assert!(!Binary64::from_bits(f64::INFINITY.to_bits()).is_finite());
    assert_eq!(Binary64::from_bits(f64::MAX.to_bits()).parts(), ((1u64 << 53) - 1, 971));
}
