//! The units of length.

use vstd::prelude::*;
use crate::family::{lemma_find_is, Family, FamilyView};
use crate::unit::{Fraction, Unit, UnitView};

verus! {

/// The family of lengths. Its base unit is the meter.
pub open spec fn lengths() -> FamilyView {
    FamilyView {
        id: "Lengths"@,
        units: seq![
            UnitView::made(
                seq!["meter"@, "meters"@],
                "m"@,
                Fraction { numerator: 1, denominator: 1 },
                Fraction { numerator: 0, denominator: 1 },
            ),
            UnitView::made(
                seq!["centimeter"@, "centimeters"@],
                "cm"@,
                Fraction { numerator: 1, denominator: 100 },
                Fraction { numerator: 0, denominator: 1 },
            ),
            UnitView::made(
                seq!["millimeter"@, "millimeters"@],
                "mm"@,
                Fraction { numerator: 1, denominator: 1000 },
                Fraction { numerator: 0, denominator: 1 },
            ),
            UnitView::made(
                seq!["kilometer"@, "kilometers"@],
                "km"@,
                Fraction { numerator: 1000, denominator: 1 },
                Fraction { numerator: 0, denominator: 1 },
            ),
            UnitView::made(
                seq!["foot"@, "feet"@],
                "ft"@,
                Fraction { numerator: 3048, denominator: 10000 },
                Fraction { numerator: 0, denominator: 1 },
            ),
            UnitView::made(
                seq!["inch"@, "inches"@],
                "in"@,
                Fraction { numerator: 254, denominator: 10000 },
                Fraction { numerator: 0, denominator: 1 },
            ),
            UnitView::made(
                seq!["yard"@, "yards"@],
                "yd"@,
                Fraction { numerator: 9144, denominator: 10000 },
                Fraction { numerator: 0, denominator: 1 },
            ),
            UnitView::made(
                seq!["mile"@, "miles"@],
                "mi"@,
                Fraction { numerator: 1609344, denominator: 1000 },
                Fraction { numerator: 0, denominator: 1 },
            ),
            UnitView::made(
                seq!["nautical mile"@, "nautical miles"@],
                "nmi"@,
                Fraction { numerator: 1852, denominator: 1 },
                Fraction { numerator: 0, denominator: 1 },
            ),
        ],
        base_unit: "m"@,
    }
}

/// A unit of length that has a singular and a plural name and measures from
/// the same zero as the meter.
fn length(singular: &str, plural: &str, sym: &str, numerator: i64, denominator: u64) -> (r: Unit)
    ensures
        r@ == UnitView::made(
            seq![singular@, plural@],
            sym@,
            Fraction { numerator, denominator },
            Fraction { numerator: 0, denominator: 1 },
        ),
{
    let mut names: Vec<&str> = Vec::new();
    names.push(singular);
    names.push(plural);
    assert(names@.map_values(|n: &str| n@) =~= seq![singular@, plural@]);
    Unit::new(names, sym, Fraction::new(numerator, denominator), Fraction::new(0, 1))
}

/// The family that converts between units of length: metric ones, and
/// imperial ones by their exact metric definitions.
pub fn family() -> (r: Family)
    ensures
        r@ == lengths(),
        r@.well_formed(),
{
    let mut units: Vec<Unit> = Vec::new();
    units.push(length("meter", "meters", "m", 1, 1));
    units.push(length("centimeter", "centimeters", "cm", 1, 100));
    units.push(length("millimeter", "millimeters", "mm", 1, 1000));
    units.push(length("kilometer", "kilometers", "km", 1000, 1));
    units.push(length("foot", "feet", "ft", 3048, 10000));
    units.push(length("inch", "inches", "in", 254, 10000));
    units.push(length("yard", "yards", "yd", 9144, 10000));
    units.push(length("mile", "miles", "mi", 1609344, 1000));
    units.push(length("nautical mile", "nautical miles", "nmi", 1852, 1));
    let r = Family {
        id: "Lengths".to_owned(),
        units,
        base_unit: "m".to_owned(),
    };
    proof {
        assert(r@.units =~= lengths().units);
        lemma_lengths_well_formed();
    }
    r
}

/// The family of lengths is well formed: the meter is its base unit.
pub proof fn lemma_lengths_well_formed()
    ensures
        lengths().well_formed(),
        lengths().find(lengths().base_unit) == Some(0int),
{
    let f = lengths();
    assert(f.units[0].symbol == crate::text::lowercase("m"@));
    lemma_find_is(f, "m"@, 0);
}

} // verus!
