use bridger::result::{Bridger, BridgerError};

#[test]
fn bridger_displays_its_message() {
    let b = Bridger::new("relay failed".to_string());
    assert_eq!(b.to_display_string(), "relay failed");
}

#[test]
fn bridger_converts_into_bridger_variant() {
    let e: BridgerError = BridgerError::from(Bridger::new("boom".to_string()));
    assert!(matches!(e, BridgerError::Bridger(ref m) if m == "boom"));
    assert_eq!(e.to_display_string(), "boom");
}

#[test]
fn io_error_keeps_its_display() {
    let io = std::io::Error::new(std::io::ErrorKind::Other, "disk gone");
    let text = io.to_string();
    let e = BridgerError::from_io(io);
    assert!(matches!(e, BridgerError::Io(ref m) if *m == text));
    assert_eq!(e.to_display_string(), "disk gone");
}

#[test]
fn toml_decoding_error_keeps_its_display() {
    let err = toml::from_str::<toml::Table>("a = ").unwrap_err();
    let text = err.to_string();
    let e = BridgerError::from_de_toml(err);
    assert!(matches!(e, BridgerError::DeToml(ref m) if *m == text));
    assert!(!text.is_empty());
}

#[test]
fn toml_encoding_error_keeps_its_display() {
    let err = toml::to_string(&5u32).unwrap_err();
    let text = err.to_string();
    let e = BridgerError::from_ser_toml(err);
    assert!(matches!(e, BridgerError::SerToml(ref m) if *m == text));
}

#[test]
fn etc_error_keeps_its_display() {
    let e = BridgerError::from_etc(etc::Error::Custom("no such dir".to_string()));
    assert!(matches!(e, BridgerError::Etc(ref m) if m == "no such dir"));
}

#[test]
fn web3_error_keeps_its_display() {
    let e = BridgerError::from_web3(web3::Error::Unreachable);
    assert!(matches!(e, BridgerError::Web3(ref m) if m == "Server is unreachable"));
    assert_eq!(e.to_display_string(), "Server is unreachable");
}
