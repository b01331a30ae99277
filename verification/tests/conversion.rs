use conv::{Conversion, ConvertError, Family, Fraction, Registry, Scale, Unit, Value};

const EPSILON: f64 = 0.001;

fn number(f: Fraction) -> f64 {
    f.numerator as f64 / f.denominator as f64
}

/// The fraction that is exactly the given double.
fn fraction_of(x: f64) -> Fraction {
    let mut numerator = x;
    let mut denominator: u64 = 1;
    while numerator.fract() != 0.0 {
        numerator *= 2.0;
        denominator *= 2;
    }
    Fraction::new(numerator as i64, denominator)
}

fn apply(conversion: Conversion, quantity: f64) -> f64 {
    match conversion {
        Conversion::Unchanged => quantity,
        Conversion::Through { source, target } => {
            let base = match source {
                Some(s) => (quantity + number(s.difference)) * number(s.ratio),
                None => quantity,
            };
            base * (1.0 / number(target.ratio)) - number(target.difference)
        }
    }
}

fn read(text: &str) -> (f64, String) {
    let value = Value::from_str(text).unwrap();
    (value.quantity.parse::<f64>().unwrap(), value.unit)
}

fn assert_in_delta(exp: f64, got: f64) {
    assert_eq!(
        true,
        exp - got < EPSILON && got - exp < EPSILON,
        "expected: {}, got: {}",
        exp,
        got,
    );
}

fn assert_converts(fam: &Family, given: &str, want: &str) {
    let (quantity, from) = read(given);
    let (expected, to) = read(want);
    let conversion = fam.convert(&from, &to).unwrap();
    assert_in_delta(expected, apply(conversion, quantity));
}

fn assert_identities(fam: &Family, cases: &Vec<(&str, &str)>) {
    for (given, _) in cases {
        let (_, unit) = read(given);
        assert_eq!(Ok(Conversion::Unchanged), fam.convert(&unit, &unit));
        assert_converts(fam, given, given);
    }
}

fn assert_to_base_unit(fam: &Family, cases: &Vec<(&str, &str)>) {
    for (given, want) in cases {
        assert_converts(fam, given, want);
    }
}

fn assert_from_base_unit(fam: &Family, cases: &Vec<(&str, &str)>) {
    for (want, given) in cases {
        assert_converts(fam, given, want);
    }
}

#[test]
fn length_convert() {
    let fam = conv::length::family();
    let cases = vec![
        ("100m", "100m"),
        ("100cm", "1m"),
        ("100mm", "0.1m"),
        ("10km", "10000m"),
        ("100ft", "30.48m"),
        ("100in", "2.54m"),
        ("100yd", "91.44m"),
        ("10mi", "16093.44m"),
        ("10nmi", "18520m"),
    ];

    assert_identities(&fam, &cases);
    assert_to_base_unit(&fam, &cases);
    assert_from_base_unit(&fam, &cases);
}

#[test]
fn temperature_convert() {
    let fam = conv::temperature::family();
    let cases = vec![
        ("100k", "100k"),
        ("100c", "373.15k"),
        ("212f", "373.15k"),
        ("671.67r", "373.15k"),
    ];

    assert_identities(&fam, &cases);
    assert_to_base_unit(&fam, &cases);
    assert_from_base_unit(&fam, &cases);
}

#[test]
fn family_convert() {
    let fam = Family {
        id: "test".into(),
        base_unit: "k".into(),
        units: vec![
            Unit::new(vec!["kelvin", "kelvins"], "K", fraction_of(1.0), fraction_of(0.0)),
            Unit::new(vec!["celsius"], "C", fraction_of(1.0), fraction_of(273.15)),
            Unit::new(vec!["fahrenheit"], "F", fraction_of(5.0 / 9.0), fraction_of(459.67)),
        ],
    };
    assert_eq!(5.0 / 9.0, number(fam.units[2].ratio));
    assert_eq!(459.67, number(fam.units[2].difference));

    assert_eq!(true, fam.can_convert("k"));
    assert_eq!(true, fam.can_convert("c"));
    assert_eq!(true, fam.can_convert("f"));
    assert_eq!(false, fam.can_convert("r"));

    let cases = [
        ("100k", "100k"),
        ("100c", "100c"),
        ("100f", "100f"),
        ("100c", "373.15k"),
        ("212f", "373.15k"),
        ("373.15k", "212f"),
        ("373.15k", "100c"),
    ];

    for (given, want) in cases {
        assert_converts(&fam, given, want);
    }
}

#[test]
fn conversion_between_two_units_goes_through_the_base_unit() {
    let celsius = Scale { ratio: Fraction::new(1, 1), difference: Fraction::new(27315, 100) };
    let fahrenheit = Scale { ratio: Fraction::new(5, 9), difference: Fraction::new(45967, 100) };
    let kelvin = Scale { ratio: Fraction::new(1, 1), difference: Fraction::new(0, 1) };
    let fam = conv::temperature::family();

    assert_eq!(
        Ok(Conversion::Through { source: Some(celsius), target: fahrenheit }),
        fam.convert("c", "f")
    );
    assert_eq!(
        Ok(Conversion::Through { source: Some(fahrenheit), target: celsius }),
        fam.convert("f", "c")
    );
    assert_eq!(
        Ok(Conversion::Through { source: Some(kelvin), target: celsius }),
        fam.convert("k", "celsius")
    );
    assert_eq!(Ok(Conversion::Through { source: None, target: celsius }), fam.convert("K", "c"));
    assert_in_delta(212.0, apply(conv::convert("c", "f").unwrap(), 100.0));
    assert_in_delta(0.01, apply(conv::convert("m", "km").unwrap(), 10.0));
    assert_in_delta(-40.0, apply(conv::convert("f", "c").unwrap(), -40.0));
}

#[test]
fn scales_of_a_family_are_handed_out() {
    let fam = conv::length::family();
    let foot = Scale { ratio: Fraction::new(3048, 10000), difference: Fraction::new(0, 1) };
    assert_eq!(Ok(foot), fam.to_base_unit("FEET"));
    assert_eq!(Ok(foot), fam.to_dest_unit("ft"));
    assert_eq!(Err(ConvertError::UnknownUnit { unit: "c".to_string() }), fam.to_base_unit("c"));
    assert_eq!(
        Err(ConvertError::ConversionTarget { base_unit: "m".to_string(), target: "c".to_string() }),
        fam.to_dest_unit("c")
    );
    assert_eq!("foot", fam.find_unit("Foot").unwrap().names[0]);
    assert_eq!(None, fam.find_unit("zorp"));
}

#[test]
fn same_token_leaves_the_value_unchanged() {
    let registry = Registry::builtin();
    for family in &registry.families {
        for unit in &family.units {
            let (quantity, token) = read(&format!("100{}", unit.symbol));
            let conversion = conv::convert(&token, &unit.symbol);
            assert_eq!(Ok(Conversion::Unchanged), conversion);
            assert_in_delta(100.0, apply(conversion.unwrap(), quantity));
        }
    }
    assert_eq!(Ok(Conversion::Unchanged), conv::convert("meter", "meter"));
}

#[test]
fn same_unit_in_another_case_is_computed() {
    let meter = Scale { ratio: Fraction::new(1, 1), difference: Fraction::new(0, 1) };
    let conversion = conv::convert("meter", "Meter").unwrap();
    assert_eq!(Conversion::Through { source: Some(meter), target: meter }, conversion);
    assert_in_delta(1.0, apply(conversion, 1.0));
    let fahrenheit = Scale { ratio: Fraction::new(5, 9), difference: Fraction::new(45967, 100) };
    let conversion = conv::convert("f", "F").unwrap();
    assert_eq!(Conversion::Through { source: Some(fahrenheit), target: fahrenheit }, conversion);
    assert_in_delta(212.0, apply(conversion, 212.0));
}

#[test]
fn unknown_source_unit_is_reported() {
    for target in ["m", "c", "zorp", ""] {
        let error = conv::convert("zorp", target).unwrap_err();
        assert_eq!(ConvertError::UnknownUnit { unit: "zorp".to_string() }, error);
        assert_eq!("unknown unit: zorp", error.to_string());
    }
    let error = Registry::new(vec![]).convert("m", "m").unwrap_err();
    assert_eq!(ConvertError::UnknownUnit { unit: "m".to_string() }, error);
}

#[test]
fn unknown_target_unit_is_reported() {
    let (_, from) = read("100m");
    let error = conv::convert(&from, "zorp").unwrap_err();
    assert_eq!(
        ConvertError::ConversionTarget { base_unit: "m".to_string(), target: "zorp".to_string() },
        error
    );
    assert_eq!("failed to convert from m to zorp", error.to_string());
}

#[test]
fn target_of_another_family_is_refused() {
    let (_, from) = read("100c");
    let error = conv::convert(&from, "m").unwrap_err();
    assert_eq!(
        ConvertError::ConversionTarget { base_unit: "K".to_string(), target: "m".to_string() },
        error
    );
    assert_eq!("failed to convert from K to m", error.to_string());
}

#[test]
fn family_of_unknown_source_reports_the_source_first() {
    let fam = conv::length::family();
    assert_eq!(
        Err(ConvertError::UnknownUnit { unit: "zorp".to_string() }),
        fam.convert("zorp", "also unknown")
    );
    assert_eq!(Ok(Conversion::Unchanged), fam.convert("zorp", "zorp"));
}

#[test]
fn lookup_ignores_the_case_of_letters() {
    let upper = Value::from_str("1M").unwrap();
    let lower = Value::from_str("1m").unwrap();
    assert_eq!(upper, lower);
    let fam = conv::length::family();
    assert_eq!(fam.find_unit(&lower.unit), fam.find_unit("M"));
    assert_eq!("meter", fam.find_unit(&upper.unit).unwrap().names[0]);
    assert_eq!(conv::convert("CM", "KM"), conv::convert("cm", "km"));
    assert_in_delta(
        apply(conv::convert("m", "km").unwrap(), 1500.0),
        apply(conv::convert("M", "KM").unwrap(), 1500.0),
    );
    assert_eq!(conv::convert("MeTeRs", "Feet"), conv::convert("meters", "feet"));
    assert!(conv::convert("Kelvin", "RANKINE").is_ok());
}

#[test]
fn there_and_back_gives_the_quantity_again() {
    let registry = Registry::builtin();
    for family in &registry.families {
        for from in &family.units {
            for to in &family.units {
                for quantity in [-40.0, 0.0, 1.0, 100.0, 373.15] {
                    let there = family.convert(&from.symbol, &to.names[0]).unwrap();
                    let back = family.convert(&to.names[0], &from.symbol).unwrap();
                    assert_in_delta(quantity, apply(back, apply(there, quantity)));
                }
            }
        }
    }
}

#[test]
fn way_back_swaps_the_two_scales() {
    let family = conv::length::family();
    for from in &family.units {
        for to in &family.units {
            if from.symbol == to.symbol || from.symbol == "m" || to.symbol == "m" {
                continue;
            }
            assert_eq!(
                Ok(Conversion::Through { source: Some(from.scale()), target: to.scale() }),
                family.convert(&from.symbol, &to.symbol)
            );
            assert_eq!(
                Ok(Conversion::Through { source: Some(to.scale()), target: from.scale() }),
                family.convert(&to.symbol, &from.symbol)
            );
        }
    }
}

#[test]
fn registry_converts_within_the_first_family_that_owns_the_source() {
    let minutes = Family {
        id: "Time".to_string(),
        base_unit: "s".to_string(),
        units: vec![
            Unit::new(vec!["second"], "s", Fraction::new(1, 1), Fraction::new(0, 1)),
            Unit::new(vec!["minute"], "m", Fraction::new(60, 1), Fraction::new(0, 1)),
        ],
    };
    let registry = Registry::new(vec![minutes, conv::length::family()]);
    assert_in_delta(120.0, apply(registry.convert("m", "second").unwrap(), 2.0));
    assert_eq!(
        Err(ConvertError::ConversionTarget { base_unit: "s".to_string(), target: "km".to_string() }),
        registry.convert("m", "km")
    );
    assert_in_delta(0.002, apply(registry.convert("meter", "km").unwrap(), 2.0));
}
