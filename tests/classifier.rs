use table_editor::cell_type::CellType;

#[test]
fn classify_known_labels() {
    assert_eq!(CellType::from("Text"), CellType::Text);
    assert_eq!(CellType::from("Integer"), CellType::Integer);
    assert_eq!(CellType::from("Real"), CellType::Real);
}

#[test]
fn classify_is_case_sensitive_and_falls_back_to_empty() {
    assert_eq!(CellType::from(""), CellType::Empty);
    assert_eq!(CellType::from("text"), CellType::Empty);
    assert_eq!(CellType::from("INTEGER"), CellType::Empty);
    assert_eq!(CellType::from("Text "), CellType::Empty);
    assert_eq!(CellType::from("Bogus"), CellType::Empty);
}

#[test]
fn classify_is_deterministic() {
    for label in ["Text", "Integer", "Real", "", "x"] {
        assert_eq!(CellType::from(label), CellType::from(label));
    }
}

#[test]
fn integer_conformance() {
    let t = CellType::Integer;
    assert!(t.content_is_good("42"));
    assert!(!t.content_is_good("42.0"));
    assert!(!t.content_is_good("12abc"));
    assert!(!t.content_is_good("abc"));
    assert!(t.content_is_good("-7"));
    assert!(t.content_is_good("+7"));
    assert!(!t.content_is_good("+"));
    assert!(!t.content_is_good("-"));
    assert!(!t.content_is_good(""));
    assert!(!t.content_is_good(" 1"));
    assert!(!t.content_is_good("99999999999999999999999"));
}

#[test]
fn integer_conformance_at_the_isize_bounds() {
    let t = CellType::Integer;
    assert!(t.content_is_good(&isize::MAX.to_string()));
    assert!(t.content_is_good(&isize::MIN.to_string()));
    assert!(!t.content_is_good(&(isize::MAX as i128 + 1).to_string()));
    assert!(!t.content_is_good(&(isize::MIN as i128 - 1).to_string()));
}

#[test]
fn real_conformance() {
    let t = CellType::Real;
    assert!(t.content_is_good("3.14"));
    assert!(t.content_is_good("42"));
    assert!(t.content_is_good("-0.5"));
    assert!(t.content_is_good(".5"));
    assert!(t.content_is_good("5."));
    assert!(t.content_is_good("1e10"));
    assert!(t.content_is_good("1.5E-3"));
    assert!(t.content_is_good("+2e+2"));
    assert!(t.content_is_good("inf"));
    assert!(t.content_is_good("-Infinity"));
    assert!(t.content_is_good("NaN"));
    assert!(!t.content_is_good(""));
    assert!(!t.content_is_good("."));
    assert!(!t.content_is_good("e5"));
    assert!(!t.content_is_good("1e"));
    assert!(!t.content_is_good("1.2.3"));
    assert!(!t.content_is_good("3.14abc"));
    assert!(!t.content_is_good("infinit"));
    assert!(!t.content_is_good("+-1"));
}

#[test]
fn real_conformance_agrees_with_the_float_parser() {
    let t = CellType::Real;
    for s in [
        "0", "1.", ".1", "1e5", "1E5", "1e+5", "1e-5", "-inf", "+nan", "INF", "infinity", "iNfInItY",
        "1..", "..1", "1e5e5", "1e+", "e", "E1", "-", "+", " 1", "1 ", "0x10", "1_0", "nan1", "١",
    ] {
        assert_eq!(t.content_is_good(s), s.parse::<f64>().is_ok(), "{}", s);
    }
}

#[test]
fn text_and_empty_conformance() {
    assert!(CellType::Text.content_is_good("x"));
    assert!(!CellType::Text.content_is_good(""));
    for s in ["", "x", "42", "3.14", "Text"] {
        assert!(!CellType::Empty.content_is_good(s));
    }
}
