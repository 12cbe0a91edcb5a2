use fungi_transport::addr::{OnionAddr, ParseOnionAddrError};

#[test]
fn display_parse_roundtrip() {
    let addr = OnionAddr::new("abcdefghij234567.onion", 9735);
    let parsed: OnionAddr = addr.to_string().parse().unwrap();
    assert_eq!(parsed, addr);
}

#[test]
fn host_may_be_borrowed_or_owned() {
    let owned = OnionAddr::new(String::from("peer.onion"), 7);
    assert_eq!(owned, OnionAddr::new("peer.onion", 7));
    assert_eq!(owned.host(), "peer.onion");
}

#[test]
fn malformed_input_is_rejected() {
    // No colon at all.
    assert_eq!("noport".parse::<OnionAddr>(), Err(ParseOnionAddrError));
    // Empty host.
    assert_eq!(":9735".parse::<OnionAddr>(), Err(ParseOnionAddrError));
    // Non-numeric port.
    assert_eq!(
        "host:notaport".parse::<OnionAddr>(),
        Err(ParseOnionAddrError)
    );
    // Port out of u16 range.
    assert_eq!("host:70000".parse::<OnionAddr>(), Err(ParseOnionAddrError));
}

#[test]
fn text_form_is_host_colon_port() {
    let addr = OnionAddr::new(String::from("peer.onion"), 80);
    assert_eq!(addr.to_string(), "peer.onion:80");
    assert_eq!(addr.host(), "peer.onion");
    assert_eq!(addr.port(), 80);
    assert_eq!(OnionAddr::new("", 0).to_string(), ":0");
    assert_eq!(OnionAddr::new("x", 65535).to_string(), "x:65535");
}

#[test]
fn split_takes_the_last_colon() {
    let addr: OnionAddr = "a:b::7".parse().unwrap();
    assert_eq!(addr.host(), "a:b:");
    assert_eq!(addr.port(), 7);
    assert_eq!("a:b:".parse::<OnionAddr>(), Err(ParseOnionAddrError));
}

#[test]
fn other_forms_of_a_port_denote_the_same_address() {
    let addr: OnionAddr = "h:+0080".parse().unwrap();
    assert_eq!(addr, OnionAddr::new("h", 80));
    assert_eq!(addr.to_string(), "h:80");
    assert_eq!(addr.to_string().parse::<OnionAddr>(), Ok(addr));
}

#[test]
fn host_may_hold_any_characters() {
    let addr: OnionAddr = "zw\u{f6}lf\u{1f344}:12".parse().unwrap();
    assert_eq!(addr.host(), "zw\u{f6}lf\u{1f344}");
    assert_eq!(addr.port(), 12);
}

#[test]
fn parse_error_says_what_was_expected() {
    assert_eq!(
        ParseOnionAddrError.to_string(),
        "expected an onion address of the form host:port"
    );
}
