use aspeak::{is_float, parse_pitch, parse_rate, parse_style_degree, ArgsError, Prosody};

fn literal(text: &str) -> Result<Prosody, ArgsError> {
    Ok(Prosody::Literal(text.to_owned()))
}

fn fraction(text: &str) -> Result<Prosody, ArgsError> {
    Ok(Prosody::Fraction(text.to_owned()))
}

/// The percentage that a fraction is sent as.
fn percent(fraction: &Prosody) -> String {
    match fraction {
        Prosody::Fraction(text) => format!("{:.2}", text.parse::<f32>().unwrap() * 100f32),
        Prosody::Literal(text) => panic!("{text} is no fraction"),
    }
}

const SAMPLES: [&str; 90] = [
    "", " ", "0", "1", "-1", "+1", "1.", ".5", ".", "-.", "+.5", "1.5", "01.50", "1e5", "1E5",
    "1e", "1e+", "1e+5", "1e-5", "1.e5", ".e5", ".5e5", "e5", "1e5.0", "1ee5", "--1", "+-1", "1 ",
    " 1", "1_000", "0x10", "inf", "INF", "Inf", "-inf", "+inf", "infinity", "INFINITY", "-Infinity",
    "infinit", "infinityy", "in", "nan", "NaN", "-nan", "+NAN", "na", "nano", "1f", "2.5f", "50%",
    "-10%", "300Hz", "+2st", "2st", "x-low", "medium", "1,5", "١", "1e١", "é", "1.5.2", "1..5",
    "1e5e5", "+", "-", "1e-", "0.", "00", "1e0005", "12345678901234567890123456789012345678901234",
    "1e99999999999999999999", "1.e", "1.e+", ".5e", "5.e-1", "1.5E-10", "+1.", "-.e1", "1e+-5",
    "iNf", "nAn", "InFiNiTy", "+ inf", "inf ", "1.0e", "0e0", "١.٥", "1\u{0}", "1\n",
];

#[test]
fn is_float_agrees_with_the_standard_parser() {
    for sample in SAMPLES {
        assert_eq!(is_float(sample), sample.parse::<f32>().is_ok(), "{sample:?}");
    }
}

#[test]
fn pitch_with_unit_stands() {
    assert_eq!(parse_pitch("300Hz"), literal("300Hz"));
    assert_eq!(parse_pitch("-20Hz"), literal("-20Hz"));
    assert_eq!(parse_pitch("20%"), literal("20%"));
    assert_eq!(parse_pitch("-10%"), literal("-10%"));
    assert_eq!(parse_pitch("1.5e1%"), literal("1.5e1%"));
}

#[test]
fn pitch_in_semitones_needs_a_sign() {
    assert_eq!(parse_pitch("+2st"), literal("+2st"));
    assert_eq!(parse_pitch("-0.5st"), literal("-0.5st"));
    assert_eq!(parse_pitch("2st"), Err(ArgsError::Pitch("2st".to_owned())));
    assert_eq!(parse_pitch("2.5e1st"), Err(ArgsError::Pitch("2.5e1st".to_owned())));
    assert_eq!(parse_pitch(" +2st"), Err(ArgsError::Pitch(" +2st".to_owned())));
    assert_eq!(parse_pitch("+st"), Err(ArgsError::Pitch("+st".to_owned())));
    assert_eq!(parse_pitch("st"), Err(ArgsError::Pitch("st".to_owned())));
}

#[test]
fn semitones_are_a_sign_a_literal_and_the_unit() {
    assert_eq!(parse_pitch("+1e1st"), literal("+1e1st"));
    assert_eq!(parse_pitch("-.5st"), literal("-.5st"));
    assert_eq!(parse_pitch("+-2st"), literal("+-2st"));
    assert_eq!(parse_pitch("-infst"), literal("-infst"));
    assert_eq!(parse_pitch("+2 st"), Err(ArgsError::Pitch("+2 st".to_owned())));
    assert_eq!(parse_pitch("+2St"), Err(ArgsError::Pitch("+2St".to_owned())));
    assert_eq!(parse_pitch("+xst"), Err(ArgsError::Pitch("+xst".to_owned())));
}

#[test]
fn pitch_words_stand() {
    for word in ["default", "x-low", "low", "medium", "high", "x-high"] {
        assert_eq!(parse_pitch(word), literal(word));
    }
    for word in ["x-slow", "slow", "fast", "x-fast", "Default", "lowest", ""] {
        assert_eq!(parse_pitch(word), Err(ArgsError::Pitch(word.to_owned())));
    }
}

#[test]
fn bare_number_is_a_fraction() {
    for text in ["0.5", "1", "-0.25", "1e-1", "+.5", "inf", "nan"] {
        assert_eq!(parse_pitch(text), fraction(text));
        assert_eq!(parse_rate(text), fraction(text));
    }
}

#[test]
fn fraction_goes_as_percentage_with_two_decimals() {
    assert_eq!(percent(&parse_pitch("0.5").unwrap()), "50.00");
    assert_eq!(percent(&parse_rate("0.5").unwrap()), "50.00");
    assert_eq!(percent(&parse_pitch("-0.1").unwrap()), "-10.00");
    assert_eq!(percent(&parse_rate("2").unwrap()), "200.00");
    assert_eq!(percent(&parse_rate("1.234").unwrap()), "123.40");
}

#[test]
fn every_literal_among_the_samples_is_a_fraction() {
    for sample in SAMPLES {
        if is_float(sample) {
            assert_eq!(parse_pitch(sample), fraction(sample), "{sample:?}");
            assert_eq!(parse_rate(sample), fraction(sample), "{sample:?}");
        }
    }
}

#[test]
fn rate_factor_loses_its_suffix() {
    assert_eq!(parse_rate("2f"), literal("2"));
    assert_eq!(parse_rate("2.5f"), literal("2.5"));
    assert_eq!(parse_rate("-1e2f"), literal("-1e2"));
    assert_eq!(parse_rate("f"), Err(ArgsError::Rate("f".to_owned())));
    assert_eq!(parse_rate("2ff"), Err(ArgsError::Rate("2ff".to_owned())));
}

#[test]
fn rate_percentage_and_words_stand() {
    assert_eq!(parse_rate("-20%"), literal("-20%"));
    for word in ["default", "x-slow", "slow", "medium", "fast", "x-fast"] {
        assert_eq!(parse_rate(word), literal(word));
    }
    for word in ["x-low", "low", "high", "x-high", "300Hz", "+2st", "é%"] {
        assert_eq!(parse_rate(word), Err(ArgsError::Rate(word.to_owned())));
    }
}

#[test]
fn pitch_with_characters_beyond_ascii() {
    assert_eq!(parse_pitch("é"), Err(ArgsError::Pitch("é".to_owned())));
    assert_eq!(parse_pitch("１Hz"), Err(ArgsError::Pitch("１Hz".to_owned())));
    assert_eq!(parse_rate("２f"), Err(ArgsError::Rate("２f".to_owned())));
}

#[test]
fn style_degree_bounds() {
    assert_eq!(
        parse_style_degree("0.005").map(|d| d.as_str().to_owned()),
        Err(ArgsError::StyleDegreeRange("0.005".to_owned()))
    );
    assert_eq!(parse_style_degree("2.0").map(|d| d.as_str().to_owned()), Ok("2.0".to_owned()));
    assert_eq!(
        parse_style_degree("2.01").map(|d| d.as_str().to_owned()),
        Err(ArgsError::StyleDegreeRange("2.01".to_owned()))
    );
}

fn degree_ok(text: &str) -> bool {
    match parse_style_degree(text) {
        Ok(degree) => {
            assert_eq!(degree.as_str(), text);
            true
        }
        Err(error) => {
            assert_eq!(error, ArgsError::StyleDegreeRange(text.to_owned()));
            false
        }
    }
}

#[test]
fn style_degree_at_and_around_the_bounds() {
    for text in [
        "0.01", "0.010", "1e-2", "+0.01", "10e-3", "0.1e-1", ".01", "00.01", "0.0100000", "0.02",
        "0.099", "0.1", "0.5", "1", "1.", "1.999999999999999999999999", "2", "2.", "2.000", "+2",
        "2e0", "20e-1", "0.2e1", "0.002e3", "200e-2", "2e-0", "2E+0", "02", "1e0", "0.0001e4",
    ] {
        assert!(degree_ok(text), "{text}");
    }
    for text in [
        "0", "0.0", "-0", "0e5", "0.009", "0.0099999999999999999999", "9e-3", "1e-3", "2.0000001",
        "2.00000000000000000000000001", "3", "9", "10", "1e1", "20", "21e-1", "0.3e1", "-1", "-0.5",
        "-2", "1e10", "1e-10", "1e99999999999999999999999999999999999999", "1e40",
        "1e-99999999999999999999999999999999999999", "inf", "-inf", "nan", "infinity",
        "0.000000000000000000000000000000000000000000001e47",
    ] {
        assert!(!degree_ok(text), "{text}");
    }
}

#[test]
fn style_degree_with_long_exponents() {
    assert!(degree_ok("1e0000000000000000000000000000000000000000"));
    assert!(degree_ok("100000000000000000000000000000000000000000e-41"));
    assert!(degree_ok("0.00000000000000000000000000000000000000001e41"));
    assert!(!degree_ok("100000000000000000000000000000000000000000e-40"));
}

#[test]
fn style_degree_agrees_with_floating_point_away_from_the_bounds() {
    let mut thousandths = 0;
    while thousandths <= 3000 {
        let text = format!("{}.{:03}", thousandths / 1000, thousandths % 1000);
        let value: f32 = text.parse().unwrap();
        if thousandths != 10 && thousandths != 2000 {
            assert_eq!(degree_ok(&text), 0.01f32 <= value && value <= 2.0f32, "{text}");
        }
        thousandths += 1;
    }
}

#[test]
fn style_degree_that_is_no_number() {
    for text in ["", "abc", "1,5", "2f", "50%", " 1", "1 ", "--1", "é"] {
        assert_eq!(
            parse_style_degree(text).map(|d| d.as_str().to_owned()),
            Err(ArgsError::NotANumber(text.to_owned()))
        );
    }
}
