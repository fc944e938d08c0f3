use jp_plateau_tool::number::{parse_unsigned, Decimal};

fn float_samples() -> Vec<&'static str> {
    vec![
        "", " ", "0", "1", "12.5", "-12.5", "+12.5", ".5", "5.", ".", "+", "-", "+.", "-.5", "1e5",
        "1E5", "1e+5", "1e-5", "1e", "1e+", "e5", ".e5", "1.e5", ".5e5", "1.5e5", "1.5e5.0",
        "1.5.5", "1..5", "--1", "+-1", "1-", "inf", "INF", "Inf", "infinity", "INFINITY",
        "InFiNiTy", "infinit", "infinityy", "+inf", "-infinity", "nan", "NaN", "NAN", "-nan",
        "+NaN", "nana", "N/A", "n/a", "12,5", "1_000", "0x10", "1f", "1.0f64", " 1", "1 ", "1\n",
        "１２", "١٢", "1e5e5", "1ee5", "1e5.", "00012", "0.0000000000000000000000001",
        "123456789012345678901234567890", "1e999", "-1e-999", "1e٣", "i", "in", "na", "１.５",
        "1.5E-10", "E", "e", "+e1", "1E", "1.e", "1.5e+", "++1", ".+1", "abc", "1a", "a1",
        "infx", "xinf", "1.0 2.0",
    ]
}

#[test]
fn float_grammar_agrees_with_std() {
    for s in float_samples() {
        assert_eq!(Decimal::parse(s).is_some(), s.parse::<f64>().is_ok(), "{:?}", s);
    }
}

#[test]
fn decimal_keeps_the_text() {
    let d = Decimal::parse("12.50").unwrap();
    assert_eq!(d.as_str(), "12.50");
    assert_eq!(d.as_str().parse::<f64>().unwrap(), 12.5);
}

#[test]
fn decimal_rejects_words() {
    assert!(Decimal::parse("N/A").is_none());
    assert!(Decimal::parse("").is_none());
    assert!(Decimal::parse(" 1").is_none());
}

#[test]
fn unsigned_agrees_with_std() {
    let samples = [
        "", "0", "7", "+7", "-7", "-0", "+", "-", "++7", "007", "13", "2020", "18446744073709551615",
        "18446744073709551616", "18446744073709551614", "99999999999999999999",
        "000000000000000000000000000001", "1.0", "1e3", " 1", "1 ", "１２", "0x1f", "1_000", "a",
        "12a", "+0", "+18446744073709551615", "+18446744073709551616", "184467440737095516150",
    ];
    for s in samples {
        assert_eq!(parse_unsigned(s), s.parse::<u64>().ok(), "{:?}", s);
    }
}

#[test]
fn unsigned_exact_values() {
    assert_eq!(parse_unsigned("13"), Some(13));
    assert_eq!(parse_unsigned("18446744073709551615"), Some(u64::MAX));
    assert_eq!(parse_unsigned("18446744073709551616"), None);
    assert_eq!(parse_unsigned("N/A"), None);
}
