use vinox::data_uri::DataUri;

#[test]
fn parses_base64_uris() {
    let uri = DataUri::parse("data:application/octet-stream;base64,aGVsbG8").unwrap();
    assert_eq!(uri.mime_type, "application/octet-stream");
    assert!(uri.base64);
    assert_eq!(uri.data, "aGVsbG8");
    // The payload really is decoded, not handed back as text.
    assert_eq!(uri.decode().unwrap(), b"hello".to_vec());
}

#[test]
fn parses_plain_uris() {
    let uri = DataUri::parse("data:text/plain,raw bytes").unwrap();
    assert_eq!(uri.mime_type, "text/plain");
    assert!(!uri.base64);
    assert_eq!(uri.decode().unwrap(), b"raw bytes".to_vec());
}

#[test]
fn splits_at_the_first_comma() {
    let uri = DataUri::parse("data:text/plain,one,two").unwrap();
    assert_eq!(uri.data, "one,two");
}

#[test]
fn rejects_uris_without_scheme_or_comma() {
    assert!(DataUri::parse("file:text/plain,x").is_err());
    assert!(DataUri::parse("data:text/plain").is_err());
    assert!(DataUri::parse("").is_err());
    assert!(DataUri::parse("data").is_err());
}

#[test]
fn invalid_base64_is_an_error() {
    let uri = DataUri::parse("data:app/bin;base64,!!!").unwrap();
    let err = uri.decode().unwrap_err();
    assert_eq!(err, "Failed to decode base64");
}
