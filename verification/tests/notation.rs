use colornorm::color::{Canonical, RGBA};
use colornorm::formats::{parse_color, ColorFormat, ColorFormats, RGBFloatFormat, RGBu8Format};

#[test]
fn test_color_format_matches() {
    let ok_candidates = vec![
        "rgb(0.0, 0.0, 0.0)",         // - rgb variations
        "rgb(0.0, 0.0, 0.0, 0.0)",    // |
        "rgba(0.0, 0.0, 0.0)",        // |
        "rgba(0.0, 0.0, 0.0, 0.0)",   // |
        "RGBA(0.0, 0.0, 0.0)",        // - casing
        "RgBa(0.0, 0.0, 0.0)",        // |
        "rGb(0.0, 0.0, 0.0)",         // |
        " rgb( 0.5  ,  1.0 ,0.25 ) ", // - strange spacings
        "rgb(0.111111111111111111, 0.2, 0.12345, 0.696969)",
        "rgba(0.00, 0.0000, 0.00000, 0.0)",
        // invalid but matches
        "rgb(1.5, 0.91, 1.99999)", // - starts with `1` (but > 1)
    ];

    for cand in ok_candidates {
        assert!(RGBFloatFormat::matches(cand))
    }

    let ko_candidates = vec![
        "rgb(0, 0, 0)",
        "rgba(0, 0, 0)",
        "rgb(-1.0, 1.0, 0.0)",
        "rgba(1.0.0, 1.0, 0.1001)",
    ];

    for cand in ko_candidates {
        assert!(!RGBFloatFormat::matches(cand))
    }
}

#[test]
fn test_color_format_parse() {
    // an omitted alpha parses as fully opaque
    assert_eq!(
        RGBFloatFormat::parse("rgb(0.0, 0.0, 0.0)").unwrap(),
        Canonical::new(0, 0, 0, 255)
    );

    // 0.5 -> 128, 0.123 -> 31, 0.1010 -> 26, 0.90 -> 230 (255 times the
    // component, rounded half up)
    assert_eq!(
        RGBFloatFormat::parse("rgba(0.5, 0.123, 0.1010, 0.90)").unwrap(),
        Canonical::new(128, 31, 26, 230)
    );
}

#[test]
fn test_float_parse_scaling() {
    assert_eq!(
        RGBFloatFormat::parse("rgb(0.5, 1.0, 0.25)").unwrap(),
        Canonical::new(128, 255, 64, 255)
    );
    assert_eq!(
        RGBFloatFormat::parse("rgb(0.999, 0.001, 0.0)").unwrap(),
        Canonical::new(255, 0, 0, 255)
    );
    // digits beyond the ninth cannot move the channel value
    assert_eq!(
        RGBFloatFormat::parse("rgb(0.111111111111111111, 0.2, 0.12345)").unwrap(),
        Canonical::new(28, 51, 31, 255)
    );
}

#[test]
fn test_float_parse_range_rejection() {
    // matches the grammar, yet fails numeric validation
    assert!(RGBFloatFormat::matches("rgb(1.5, 0.91, 1.99999)"));
    let err = RGBFloatFormat::parse("rgb(1.5, 0.91, 1.99999)").unwrap_err();
    assert!(matches!(err.0, ColorFormats::RGBf));
    assert_eq!(err.1, "parsed float is not within valid range (0, 1)");
}

#[test]
fn test_float_parse_mismatch() {
    // no closing parenthesis: the grammar does not match
    let err = RGBFloatFormat::parse("rgb(0.0, 0.0, 0.0").unwrap_err();
    assert!(matches!(err.0, ColorFormats::RGBf));
    assert_eq!(err.1, "rgb(0.0, 0.0, 0.0");
}

#[test]
fn test_float_parse_exact_one() {
    // 1.000 is in range, anything above is not
    assert_eq!(
        RGBFloatFormat::parse("rgba(1.000, 0.0, 1.0, 1.00)").unwrap(),
        Canonical::new(255, 0, 255, 255)
    );
    assert!(RGBFloatFormat::parse("rgba(1.001, 0.0, 1.0, 1.00)").is_err());
}

#[test]
fn test_u8_format_matches() {
    assert!(RGBu8Format::matches("rgb(0, 0, 0)"));
    assert!(RGBu8Format::matches("rgba(10, 20, 30, 40)"));
    assert!(RGBu8Format::matches(" RGBA( 10 , 20 ,30 ) "));
    assert!(RGBu8Format::matches("rgb(999, 0, 0)")); // matches, out of range

    assert!(!RGBu8Format::matches("rgb(0.0, 0.0, 0.0)"));
    assert!(!RGBu8Format::matches("rgb(1000, 0, 0)")); // four digits
    assert!(!RGBu8Format::matches("rgb(-1, 0, 0)"));
    assert!(!RGBu8Format::matches("rgb(1, 2)"));
}

#[test]
fn test_u8_format_parse() {
    assert_eq!(
        RGBu8Format::parse("rgb(12, 34, 56)").unwrap(),
        Canonical::new(12, 34, 56, 255)
    );
    assert_eq!(
        RGBu8Format::parse("rgba(1, 2, 3, 4)").unwrap(),
        Canonical::new(1, 2, 3, 4)
    );
    assert_eq!(
        RGBu8Format::parse("rgb(007, 000, 255)").unwrap(),
        Canonical::new(7, 0, 255, 255)
    );
}

#[test]
fn test_u8_format_range_rejection() {
    assert!(RGBu8Format::matches("rgb(256, 0, 0)"));
    let err = RGBu8Format::parse("rgb(256, 0, 0)").unwrap_err();
    assert!(matches!(err.0, ColorFormats::RGBu8));
    assert_eq!(err.1, "parsed int is not within valid range (0, 255)");
}

#[test]
fn test_u8_format_mismatch() {
    let err = RGBu8Format::parse("rgb(1000, 0, 0)").unwrap_err();
    assert!(matches!(err.0, ColorFormats::RGBu8));
    assert_eq!(err.1, "rgb(1000, 0, 0)");
}

#[test]
fn test_parse_color_dispatch() {
    // floating form first, then the integer form
    assert_eq!(
        parse_color("rgb(0.5, 1.0, 0.25)").unwrap(),
        Canonical::new(128, 255, 64, 255)
    );
    assert_eq!(
        parse_color("rgba(10, 20, 30, 40)").unwrap(),
        Canonical::new(10, 20, 30, 40)
    );

    let err = parse_color("#00aa11").unwrap_err();
    assert!(matches!(err.0, ColorFormats::RGBf));
    assert_eq!(err.1, "#00aa11");
}

#[test]
fn test_parse_color_keeps_validation() {
    let err = parse_color("rgb(1.5, 0.91, 1.99999)").unwrap_err();
    assert_eq!(err.1, "parsed float is not within valid range (0, 1)");

    let err = parse_color("rgb(300, 0, 0)").unwrap_err();
    assert_eq!(err.1, "parsed int is not within valid range (0, 255)");
}

#[test]
fn test_rgba_keyword_without_alpha() {
    // either keyword is accepted whether or not alpha is present
    let c = RGBA::new(0u8, 0, 0, 255);
    assert_eq!(RGBFloatFormat::parse("rgba(0.0, 0.0, 0.0)").unwrap(), c);
    assert_eq!(
        RGBFloatFormat::parse("rgb(0.0, 0.0, 0.0, 0.0)").unwrap(),
        RGBA::new(0u8, 0, 0, 0)
    );
}
