use colornorm::color::Canonical;
use colornorm::errors::{ColorError, ParseFormatError, SchemeReaderError};
use colornorm::formats::{ColorFormat, RGBFloatFormat};

#[test]
fn test_color_error_messages() {
    let too_short = Canonical::parse_from_hex("#12345").unwrap_err();
    assert_eq!(too_short.message(), "Failed to parse hex #12345");

    let bad_digits = Canonical::parse_from_hex("#xz00??_k").unwrap_err();
    assert_eq!(
        bad_digits.message(),
        "Failed to parse string xz into Int in #xz00??_k"
    );
}

#[test]
fn test_scheme_reader_error_messages() {
    let io = SchemeReaderError::IOError(String::from("gone"), String::from("while opening"));
    assert_eq!(io.message(), "io::Error occurred: gone. while opening");

    assert_eq!(
        SchemeReaderError::NoLinesError.message(),
        "The file read appears to be empty"
    );
}

#[test]
fn test_parse_format_error_message() {
    let err: ParseFormatError = RGBFloatFormat::parse("nonsense").unwrap_err();
    assert_eq!(err.message(), "failed to parse color format: nonsense");
}
