use colornorm::color::{Canonical, Scheme, RGB, RGBA};
use colornorm::errors::ColorError;

fn assert_roughly_equal(a: f32, b: f32) {
    let diff = f32::abs(a - b);
    assert!(diff < 0.001, "Diff {} was not smaller than 0.001", diff)
}

#[test]
fn test_rgb_into_rgba() {
    let rgb = RGB::new(255u8, 0, 0);

    assert_eq!(rgb.into_rgba(128), RGBA::new(255u8, 0, 0, 128))
}

#[test]
fn test_rgb_map() {
    let rgb = RGB::new(255u8, 12, 0);

    let mapped_rgb = rgb.map(|val| val as f32 / 255.0 * 100.0);
    assert_roughly_equal(mapped_rgb.r, 100.0);
    assert_roughly_equal(mapped_rgb.g, 12.0 / 255.0 * 100.0);
    assert_roughly_equal(mapped_rgb.b, 0.0);
}

#[test]
fn test_rgba_into_rgb() {
    let rgba = RGBA::new(128u8, 0, 10, 128);

    assert_eq!(RGB::from(rgba), RGB { r: 128u8, g: 0, b: 10 });
}

#[test]
fn test_rgba_map() {
    let rgba = RGBA::new(255u8, 12, 0, 128);

    let mapped_rgba = rgba.map(|val| val as f32 / 255.0 * 100.0);
    assert_roughly_equal(mapped_rgba.r, 100.0);
    assert_roughly_equal(mapped_rgba.g, 12.0 / 255.0 * 100.0);
    assert_roughly_equal(mapped_rgba.b, 0.0);
    assert_roughly_equal(mapped_rgba.a, 128.0 / 255.0 * 100.0);
}

#[test]
fn test_canonical_parse_from_hex() {
    let ok = Canonical::parse_from_hex("#00aa11").unwrap();
    let ok_with_alpha = Canonical::parse_from_hex("#ffffff00").unwrap();
    let too_short = Canonical::parse_from_hex("#12345").unwrap_err();
    let wrong_format = Canonical::parse_from_hex("#xz00??_k").unwrap_err();

    assert_eq!(ok, RGBA { r: 0, g: 170, b: 17, a: 255 });
    assert_eq!(ok_with_alpha, RGBA { r: 255, g: 255, b: 255, a: 0 });
    assert!(matches!(too_short, ColorError::ParseHexError(_)));
    assert!(matches!(wrong_format, ColorError::ParseToIntError(_, _)));
}

#[test]
fn test_canonical_pack() {
    // 80 80 00 FF = 2_155_872_511
    let canonical = Canonical::new(128, 128, 0, 255);
    let packed = canonical.pack();

    assert_eq!(2_155_872_511u32, packed);
}

#[test]
fn test_canonical_unpack() {
    // AC AB AC AB = 2_896_932_011
    let packed = 2_896_932_011u32;
    let unpacked = Canonical::unpack(packed);

    assert_eq!(unpacked, Canonical::new(172, 171, 172, 171));
}

#[test]
fn test_canonical_pack_unpack() {
    let canonical = Canonical::new(123, 234, 213, 132);
    let packed = canonical.pack();
    let unpacked = Canonical::unpack(packed);
    let packed_again = unpacked.pack();

    assert_eq!(canonical, unpacked);
    assert_eq!(packed, packed_again);
}

#[test]
fn test_unpack_pack_round_trip() {
    // pack after unpack restores any 32-bit value
    for &p in &[0u32, 1, 255, 0xdead_beef, 0xffff_ffff, 2_896_932_011] {
        assert_eq!(Canonical::unpack(p).pack(), p);
    }
}

#[test]
fn test_pack_unpack_extremes() {
    let black = Canonical::new(0, 0, 0, 0);
    assert_eq!(black.pack(), 0);
    assert_eq!(Canonical::unpack(0), black);

    let white = Canonical::new(255, 255, 255, 255);
    assert_eq!(white.pack(), 0xffff_ffff);
    assert_eq!(Canonical::unpack(0xffff_ffff), white);
}

#[test]
fn test_rgba_replace_alpha() {
    let rgba = RGBA::new(1u8, 2, 3, 4);
    assert_eq!(rgba.into_rgba(77), RGBA::new(1u8, 2, 3, 77));
}

#[test]
fn test_rgba_from_rgb_opaque() {
    assert_eq!(RGBA::from(RGB::new(9u8, 8, 7)), RGBA::new(9u8, 8, 7, 255));
}

#[test]
fn test_parse_from_hex_without_hash() {
    let ok = Canonical::parse_from_hex("00aa11").unwrap();
    assert_eq!(ok, RGBA { r: 0, g: 170, b: 17, a: 255 });
}

#[test]
fn test_parse_from_hex_upper_case() {
    let ok = Canonical::parse_from_hex("#FFA00C").unwrap();
    assert_eq!(ok, RGBA { r: 255, g: 160, b: 12, a: 255 });
}

#[test]
fn test_parse_from_hex_bad_pair_payload() {
    // the first non-hexadecimal two-digit group is reported, with the input
    let err = Canonical::parse_from_hex("#00aazz").unwrap_err();
    match err {
        ColorError::ParseToIntError(part, ctx) => {
            assert_eq!(part, "zz");
            assert_eq!(ctx, "#00aazz");
        }
        other => panic!("expected a digit error, got {:?}", other),
    }
}

#[test]
fn test_scheme_holds_colors() {
    let scheme = Scheme {
        name: String::from("dusk"),
        colors: vec![Canonical::new(1, 2, 3, 4), Canonical::new(5, 6, 7, 8)],
    };
    assert_eq!(scheme.name, "dusk");
    assert_eq!(scheme.colors.len(), 2);
    assert_eq!(scheme.colors[0], Canonical::new(1, 2, 3, 4));
}

#[test]
fn test_parse_from_hex_empty() {
    assert!(matches!(
        Canonical::parse_from_hex(""),
        Err(ColorError::ParseHexError(_))
    ));
    assert!(matches!(
        Canonical::parse_from_hex("#"),
        Err(ColorError::ParseHexError(_))
    ));
}
