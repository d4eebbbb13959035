use block_compression::Error;

#[test]
fn debug_and_display_trait() {
    let err = Error::FormatError("Uh-oh, something's wrong!".to_string());

    let debug = err.debug_string();
    let display = err.message();

    assert_eq!(debug, "FormatError(\"Uh-oh, something\\\'s wrong!\")");
    assert_eq!(display, "Uh-oh, something's wrong!");
}

#[test]
fn from_io_error() {
    let err = std::io::Error::new(std::io::ErrorKind::NotFound, "something not found");

    let _ = Error::from(err);
}

#[test]
fn escaping_covers_backslash_and_quotes() {
    let err = Error::FormatError("a\\b\"c'd".to_string());

    assert_eq!(err.debug_string(), "FormatError(\"a\\\\b\\\"c\\'d\")");
    assert_eq!(err.message(), "a\\b\"c'd");
}

#[test]
fn message_of_io_error_is_the_underlying_text() {
    let err = Error::from(std::io::Error::new(
        std::io::ErrorKind::UnexpectedEof,
        "failed to fill whole buffer",
    ));

    assert!(matches!(err, Error::IoError(_)));
    assert_eq!(err.message(), "failed to fill whole buffer");
}
