//! The rule that says what the wind means for the waves, held as a table so
//! that another rule can be put in its place.

use crate::compass::Direction;
use vstd::prelude::*;
use vstd::string::*;

verus! {

/// A rule: the label for winds from one direction over waves from another,
/// or over waves whose direction is not known.
pub type Rule = spec_fn(Direction, Option<Direction>) -> Seq<char>;

/// The number of pairs that a rule covers: sixteen wind directions, each
/// with sixteen wave directions or none.
pub const PAIRS: usize = 272;

/// The place of a pair in the table.
pub open spec fn slot(wind: Direction, wave: Option<Direction>) -> int {
    wind.sector() * 17 + match wave {
        Some(from) => from.sector() + 1,
        None => 0,
    }
}

/// The rule that gives every pair the same label.
pub open spec fn uniform_rule(label: Seq<char>) -> Rule {
    |wind: Direction, wave: Option<Direction>| label
}

/// The rule in use until one is settled: every pair is labelled `status`.
pub open spec fn placeholder_rule() -> Rule {
    uniform_rule("status"@)
}

/// A rule changed for one pair.
pub open spec fn updated_rule(rule: Rule, wind: Direction, wave: Option<Direction>, label: Seq<char>)
    -> Rule {
    |w: Direction, v: Option<Direction>|
        if w == wind && v == wave {
            label
        } else {
            rule(w, v)
        }
}

/// A rule as a table: one label for each pair of directions.
#[derive(Debug)]
pub struct StatusTable {
    labels: Vec<String>,
}

impl StatusTable {
    #[verifier::type_invariant]
    spec fn well_formed(self) -> bool {
        self.labels@.len() == PAIRS
    }

    /// The rule that the table holds.
    pub closed spec fn rule(self) -> Rule {
        |wind: Direction, wave: Option<Direction>| self.labels@[slot(wind, wave)]@
    }

    /// The table that gives every pair the same label.
    pub fn uniform(label: &str) -> (table: StatusTable)
        ensures
            table.rule() == uniform_rule(label@),
    {
        let mut labels: Vec<String> = Vec::new();
        let mut i: usize = 0;
        while i < PAIRS
            invariant
                i <= PAIRS,
                labels@.len() == i,
                forall|k: int| 0 <= k < i ==> (#[trigger] labels@[k])@ == label@,
            decreases PAIRS - i,
        {
            labels.push(String::from_str(label));
            i = i + 1;
        }
        let table = StatusTable { labels };
        assert(table.rule() =~= uniform_rule(label@)) by {
            assert forall|wind: Direction, wave: Option<Direction>|
                #[trigger] table.rule()(wind, wave) == label@ by {
                lemma_slot_in_range(wind, wave);
            }
        }
        table
    }

    /// The table of the placeholder rule.
    pub fn placeholder() -> (table: StatusTable)
        ensures
            table.rule() == placeholder_rule(),
    {
        StatusTable::uniform("status")
    }

    /// This table with the label of one pair changed.
    pub fn with(self, wind: Direction, wave: Option<Direction>, label: &str) -> (table: StatusTable)
        ensures
            table.rule() == updated_rule(self.rule(), wind, wave, label@),
    {
        proof {
            use_type_invariant(&self);
            lemma_slot_in_range(wind, wave);
        }
        let at: usize = place(wind, wave);
        let mut labels: Vec<String> = self.labels;
        labels.set(at, String::from_str(label));
        let table = StatusTable { labels };
        assert(table.rule() =~= updated_rule(self.rule(), wind, wave, label@)) by {
            assert forall|w: Direction, v: Option<Direction>|
                #[trigger] table.rule()(w, v) == updated_rule(self.rule(), wind, wave, label@)(
                    w,
                    v,
                ) by {
                lemma_slot_in_range(w, v);
                lemma_slot_is_one_to_one(w, v, wind, wave);
            }
        }
        table
    }

    /// The label for winds from `wind` over waves from `wave`.
    pub fn classify(&self, wind: Direction, wave: Option<Direction>) -> (label: String)
        ensures
            label@ == self.rule()(wind, wave),
    {
        proof {
            use_type_invariant(self);
            lemma_slot_in_range(wind, wave);
        }
        self.labels[place(wind, wave)].clone()
    }
}

impl Clone for StatusTable {
    fn clone(&self) -> (table: StatusTable)
        ensures
            table.rule() == self.rule(),
    {
        proof {
            use_type_invariant(self);
        }
        let mut labels: Vec<String> = Vec::new();
        let mut i: usize = 0;
        while i < PAIRS
            invariant
                i <= PAIRS,
                self.labels@.len() == PAIRS,
                labels@.len() == i,
                forall|k: int| 0 <= k < i ==> (#[trigger] labels@[k])@ == self.labels@[k]@,
            decreases PAIRS - i,
        {
            labels.push(self.labels[i].clone());
            i = i + 1;
        }
        let table = StatusTable { labels };
        assert(table.rule() =~= self.rule()) by {
            assert forall|wind: Direction, wave: Option<Direction>|
                #[trigger] table.rule()(wind, wave) == self.rule()(wind, wave) by {
                lemma_slot_in_range(wind, wave);
            }
        }
        table
    }
}

/// Every pair has a place in the table.
pub proof fn lemma_slot_in_range(wind: Direction, wave: Option<Direction>)
    ensures
        0 <= slot(wind, wave) < PAIRS,
{
}

/// Two pairs with one place are one pair.
pub proof fn lemma_slot_is_one_to_one(
    wind: Direction,
    wave: Option<Direction>,
    other_wind: Direction,
    other_wave: Option<Direction>,
)
    ensures
        slot(wind, wave) == slot(other_wind, other_wave) <==> wind == other_wind && wave
            == other_wave,
{
    assert(Direction::at(wind.sector()) == wind);
    assert(Direction::at(other_wind.sector()) == other_wind);
    if wave is Some && other_wave is Some {
        assert(Direction::at(wave->0.sector()) == wave->0);
        assert(Direction::at(other_wave->0.sector()) == other_wave->0);
    }
}

/// The place of a pair in the table.
fn place(wind: Direction, wave: Option<Direction>) -> (at: usize)
    ensures
        at == slot(wind, wave),
        at < PAIRS,
{
    let column: usize = match wave {
        Some(from) => from.to_sector() as usize + 1,
        None => 0,
    };
    wind.to_sector() as usize * 17 + column
}

} // verus!
