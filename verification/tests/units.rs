use conv::{Family, Fraction, Registry, Scale, Unit};

/// The fraction that is exactly the given double.
fn fraction_of(x: f64) -> Fraction {
    let mut numerator = x;
    let mut denominator: u64 = 1;
    while numerator.fract() != 0.0 {
        numerator *= 2.0;
        denominator *= 2;
    }
    Fraction::new(numerator as i64, denominator)
}

fn number(f: Fraction) -> f64 {
    f.numerator as f64 / f.denominator as f64
}

#[test]
fn unit() {
    let unit = Unit::new(
        vec!["one", "TWO", "tHrEe"],
        "u",
        fraction_of(1.0 / 3.9),
        fraction_of(43.5),
    );
    assert_eq!(vec!["one", "two", "three"], unit.names);
    assert_eq!("u", unit.symbol);
    assert_eq!(1.0 / 3.9, number(unit.ratio));
    assert_eq!(43.5, number(unit.difference));
    assert_eq!(Fraction::new(87, 2), unit.difference);
}

#[test]
fn unit_lowers_its_symbol() {
    let unit = Unit::new(vec!["Kelvin"], "K", Fraction::new(1, 1), Fraction::new(0, 1));
    assert_eq!(vec!["kelvin"], unit.names);
    assert_eq!("k", unit.symbol);
}

#[test]
fn unit_answers_to_names_and_symbol() {
    let unit = Unit::new(
        vec!["foot", "feet"],
        "ft",
        Fraction::new(3048, 10000),
        Fraction::new(0, 1),
    );
    assert!(unit.answers_to(&"foot".to_string()));
    assert!(unit.answers_to(&"feet".to_string()));
    assert!(unit.answers_to(&"ft".to_string()));
    assert!(!unit.answers_to(&"FT".to_string()));
    assert!(!unit.answers_to(&"f".to_string()));
    assert!(!unit.answers_to(&"".to_string()));
}

#[test]
fn unit_scale_is_ratio_and_difference() {
    let unit = Unit::new(vec!["celsius"], "C", Fraction::new(1, 1), Fraction::new(27315, 100));
    assert_eq!(
        Scale { ratio: Fraction::new(1, 1), difference: Fraction::new(27315, 100) },
        unit.scale()
    );
}

#[test]
fn fraction_keeps_both_parts() {
    let f = Fraction::new(-5, 9);
    assert_eq!(-5, f.numerator);
    assert_eq!(9, f.denominator);
}

fn symbols(family: &Family) -> Vec<String> {
    family.units.iter().map(|u| u.symbol.clone()).collect()
}

fn first_names(family: &Family) -> Vec<String> {
    family.units.iter().map(|u| u.names[0].clone()).collect()
}

#[test]
fn lengths_are_as_defined() {
    let family = conv::length::family();
    assert_eq!("Lengths", family.id);
    assert_eq!("m", family.base_unit);
    assert_eq!(vec!["m", "cm", "mm", "km", "ft", "in", "yd", "mi", "nmi"], symbols(&family));
    assert_eq!(
        vec![
            "meter",
            "centimeter",
            "millimeter",
            "kilometer",
            "foot",
            "inch",
            "yard",
            "mile",
            "nautical mile"
        ],
        first_names(&family)
    );
    let ratios: Vec<f64> = family.units.iter().map(|u| number(u.ratio)).collect();
    assert_eq!(
        vec![1.0, 0.01, 0.001, 1000.0, 0.3048, 0.0254, 0.9144, 1609.344, 1852.0],
        ratios
    );
    for unit in &family.units {
        assert_eq!(0.0, number(unit.difference));
        assert_eq!(2, unit.names.len());
    }
    assert_eq!(vec!["nautical mile", "nautical miles"], family.units[8].names);
}

#[test]
fn temperatures_are_as_defined() {
    let family = conv::temperature::family();
    assert_eq!("Temperature", family.id);
    assert_eq!("K", family.base_unit);
    assert_eq!(vec!["k", "c", "f", "r"], symbols(&family));
    assert_eq!(vec!["kelvin", "celsius", "fahrenheit", "rankine"], first_names(&family));
    assert_eq!(vec!["kelvin", "kelvins"], family.units[0].names);
    let ratios: Vec<f64> = family.units.iter().map(|u| number(u.ratio)).collect();
    assert_eq!(vec![1.0, 1.0, 5.0 / 9.0, 5.0 / 9.0], ratios);
    let differences: Vec<f64> = family.units.iter().map(|u| number(u.difference)).collect();
    assert_eq!(vec![0.0, 273.15, 459.67, 0.0], differences);
}

#[test]
fn units_are_listed_by_family() {
    let listed = conv::units();
    assert_eq!(2, listed.len());
    assert_eq!("Lengths", listed[0].0);
    assert_eq!(conv::length::family().units, listed[0].1);
    assert_eq!("Temperature", listed[1].0);
    assert_eq!(conv::temperature::family().units, listed[1].1);
}

#[test]
fn registry_lists_its_own_families() {
    let only = Family {
        id: "test".to_string(),
        base_unit: "k".to_string(),
        units: vec![Unit::new(vec!["kelvin"], "K", Fraction::new(1, 1), Fraction::new(0, 1))],
    };
    let registry = Registry::new(vec![only.clone()]);
    let listed = registry.units();
    assert_eq!(1, listed.len());
    assert_eq!("test", listed[0].0);
    assert_eq!(&only.units, listed[0].1);

    let builtin = Registry::builtin();
    let listed = builtin.units();
    assert_eq!(vec!["Lengths", "Temperature"], listed.iter().map(|l| l.0).collect::<Vec<_>>());
    assert_eq!(9, listed[0].1.len());
    assert_eq!(4, listed[1].1.len());
}

#[test]
fn registry_finds_the_first_family_that_owns_a_unit() {
    let registry = Registry::builtin();
    assert_eq!("Lengths", registry.family_of("m").unwrap().id);
    assert_eq!("Lengths", registry.family_of("Nautical Miles").unwrap().id);
    assert_eq!("Temperature", registry.family_of("c").unwrap().id);
    assert_eq!("Temperature", registry.family_of("KELVINS").unwrap().id);
    assert_eq!(None, registry.family_of("zorp"));
    assert_eq!(None, Registry::new(vec![]).family_of("m"));

    let shadow = Family {
        id: "shadow".to_string(),
        base_unit: "m".to_string(),
        units: vec![Unit::new(vec!["minute"], "m", Fraction::new(60, 1), Fraction::new(0, 1))],
    };
    let registry = Registry::new(vec![shadow, conv::length::family()]);
    assert_eq!("shadow", registry.family_of("m").unwrap().id);
    assert_eq!("Lengths", registry.family_of("cm").unwrap().id);
}
