//! The units of temperature.

use vstd::prelude::*;
use crate::family::{lemma_find_is, Family, FamilyView};
use crate::text::lowercase;
use crate::unit::{Fraction, Unit, UnitView};

verus! {

/// The family of temperatures. Its base unit is the kelvin.
pub open spec fn temperatures() -> FamilyView {
    FamilyView {
        id: "Temperature"@,
        units: seq![
            UnitView::made(
                seq!["kelvin"@, "kelvins"@],
                "K"@,
                Fraction { numerator: 1, denominator: 1 },
                Fraction { numerator: 0, denominator: 1 },
            ),
            UnitView::made(
                seq!["celsius"@],
                "C"@,
                Fraction { numerator: 1, denominator: 1 },
                Fraction { numerator: 27315, denominator: 100 },
            ),
            UnitView::made(
                seq!["fahrenheit"@],
                "F"@,
                Fraction { numerator: 5, denominator: 9 },
                Fraction { numerator: 45967, denominator: 100 },
            ),
            UnitView::made(
                seq!["rankine"@],
                "R"@,
                Fraction { numerator: 5, denominator: 9 },
                Fraction { numerator: 0, denominator: 1 },
            ),
        ],
        base_unit: "K"@,
    }
}

/// A unit of temperature with one name.
fn scale_of(name: &str, sym: &str, ratio: Fraction, difference: Fraction) -> (r: Unit)
    ensures
        r@ == UnitView::made(seq![name@], sym@, ratio, difference),
{
    let mut names: Vec<&str> = Vec::new();
    names.push(name);
    assert(names@.map_values(|n: &str| n@) =~= seq![name@]);
    Unit::new(names, sym, ratio, difference)
}

/// The family that converts between units of temperature.
pub fn family() -> (r: Family)
    ensures
        r@ == temperatures(),
        r@.well_formed(),
{
    let mut kelvin: Vec<&str> = Vec::new();
    kelvin.push("kelvin");
    kelvin.push("kelvins");
    assert(kelvin@.map_values(|n: &str| n@) =~= seq!["kelvin"@, "kelvins"@]);
    let mut units: Vec<Unit> = Vec::new();
    units.push(Unit::new(kelvin, "K", Fraction::new(1, 1), Fraction::new(0, 1)));
    units.push(scale_of("celsius", "C", Fraction::new(1, 1), Fraction::new(27315, 100)));
    units.push(scale_of("fahrenheit", "F", Fraction::new(5, 9), Fraction::new(45967, 100)));
    units.push(scale_of("rankine", "R", Fraction::new(5, 9), Fraction::new(0, 1)));
    let r = Family {
        id: "Temperature".to_owned(),
        units,
        base_unit: "K".to_owned(),
    };
    proof {
        assert(r@.units =~= temperatures().units);
        lemma_temperatures_well_formed();
    }
    r
}

/// The family of temperatures is well formed: the kelvin is its base unit.
pub proof fn lemma_temperatures_well_formed()
    ensures
        temperatures().well_formed(),
        temperatures().find(temperatures().base_unit) == Some(0int),
{
    let f = temperatures();
    assert(f.units[0].symbol == lowercase("K"@));
    lemma_find_is(f, "K"@, 0);
}

} // verus!
