use fungi_transport::net::PrivateNet;
use fungi_transport::settings::assemble;

const SAMPLE: &str = "\
# test net
authority test-da1 27102BC123E7AF1D4741AE047E160C91ADC76B21
authority test-da2 5B5A54A6C2778775E11B7E00A0C7DF562AF9AFE9

fallback 27102BC123E7AF1D4741AE047E160C91ADC76B21 xGYRXQ2b1SDpLoNjKilDNzrqAX2XCEBEyYlVmIGSjTo 192.168.1.11:9001
";

#[test]
fn parses_authorities_and_fallbacks() {
    let net = PrivateNet::parse(SAMPLE).unwrap();
    assert_eq!(net.authorities.len(), 2);
    assert_eq!(net.fallbacks.len(), 1);
}

#[test]
fn rejects_malformed_lines() {
    assert!(PrivateNet::parse("authority only-two-fields\n").is_err());
    assert!(PrivateNet::parse("unknown x y z\n").is_err());
    assert!(PrivateNet::parse("authority da NOT-HEX\n").is_err());
}

/// The parsed net gives the settings of a client without error.
#[test]
fn applies_to_builder() {
    let net = PrivateNet::parse(SAMPLE).unwrap();
    net.apply(&vec![None]).unwrap();
}

#[test]
fn fields_are_kept_as_they_stand() {
    let net = PrivateNet::parse(SAMPLE).unwrap();
    assert_eq!(net.authorities[1].name, "test-da2");
    assert_eq!(
        net.authorities[1].v3ident,
        "5B5A54A6C2778775E11B7E00A0C7DF562AF9AFE9"
    );
    assert_eq!(
        net.fallbacks[0].rsa,
        "27102BC123E7AF1D4741AE047E160C91ADC76B21"
    );
    assert_eq!(
        net.fallbacks[0].ed,
        "xGYRXQ2b1SDpLoNjKilDNzrqAX2XCEBEyYlVmIGSjTo"
    );
    assert_eq!(net.fallbacks[0].orport, "192.168.1.11:9001");
}

fn complaint(text: &str) -> String {
    PrivateNet::parse(text).unwrap_err()
}

#[test]
fn complaints_name_the_line() {
    assert_eq!(
        complaint("# net\n\nauthority da NOT-HEX\n"),
        "line 3: v3ident is not hex"
    );
    assert_eq!(complaint("x"), "line 1: unrecognized directive");
    assert_eq!(
        complaint("authority a 0f\nauthority a 0f extra"),
        "line 2: unrecognized directive"
    );
    assert_eq!(
        complaint("fallback a b\n"),
        "line 1: unrecognized directive"
    );
    assert_eq!(
        complaint("\n\n\n\n\n\n\n\n\n\n\n Authority a 0f"),
        "line 12: unrecognized directive"
    );
}

#[test]
fn both_kinds_are_needed() {
    assert_eq!(complaint(""), "no authorities in private-net file");
    assert_eq!(
        complaint("fallback a b c\n"),
        "no authorities in private-net file"
    );
    assert_eq!(
        complaint("authority da 0f\n"),
        "no fallback caches in private-net file"
    );
}

#[test]
fn blank_lines_comments_and_space_are_ignored() {
    let plain = PrivateNet::parse("authority da 0F\nfallback a b c").unwrap();
    let spaced = PrivateNet::parse(
        "  # first\r\n\r\n\tauthority\u{a0}da   0F \r\n#authority x y\n \u{3000}\nfallback a b\tc\n\n",
    )
    .unwrap();
    assert_eq!(plain, spaced);
    // A hash sign inside a line starts no comment.
    assert_eq!(
        complaint("authority da 0F # note\n"),
        "line 1: unrecognized directive"
    );
}

#[test]
fn identities_are_decoded() {
    let net = PrivateNet::parse(SAMPLE).unwrap();
    let settings = net.apply(&vec![None]).unwrap();
    let first = [
        0x27, 0x10, 0x2b, 0xc1, 0x23, 0xe7, 0xaf, 0x1d, 0x47, 0x41, 0xae, 0x04, 0x7e, 0x16, 0x0c,
        0x91, 0xad, 0xc7, 0x6b, 0x21,
    ];
    assert_eq!(settings.v3idents.len(), 2);
    assert_eq!(settings.v3idents[0], first);
    assert_eq!(settings.v3idents[1][0], 0x5b);
    assert_eq!(settings.fallbacks.len(), 1);
    assert_eq!(settings.fallbacks[0].rsa, first);
    assert_eq!(settings.fallbacks[0].ed.len(), 32);
    assert_eq!(settings.fallbacks[0].ed[..3], [0xc4, 0x66, 0x11]);
    assert_eq!(settings.fallbacks[0].orport, "192.168.1.11:9001");
    assert_eq!(settings.pre_valid_tolerance_secs, 300);
    assert_eq!(settings.post_valid_tolerance_secs, 300);
}

#[test]
fn lower_case_identities_are_decoded_alike() {
    let net = PrivateNet::parse(&SAMPLE.replace("27102BC1", "27102bc1")).unwrap();
    let same = PrivateNet::parse(SAMPLE).unwrap();
    assert_eq!(net.apply(&vec![None]), same.apply(&vec![None]));
}

#[test]
fn undecodable_identities_are_refused() {
    let apply = |text: &str, refused: Option<&str>| {
        PrivateNet::parse(text)
            .unwrap()
            .apply(&vec![refused.map(String::from)])
            .unwrap_err()
    };
    let id = "27102BC123E7AF1D4741AE047E160C91ADC76B21";
    let ed = "xGYRXQ2b1SDpLoNjKilDNzrqAX2XCEBEyYlVmIGSjTo";
    assert_eq!(
        apply(&format!("authority short 0f\nfallback {id} {ed} x"), None),
        "failed to parse v3ident short: invalid hex or length"
    );
    assert_eq!(
        apply(&format!("authority da {id}\nfallback {id}00 {ed} x"), None),
        "fallback rsa: invalid hex or length"
    );
    assert_eq!(
        apply(&format!("authority da {id}\nfallback {id} {ed}= x"), Some("bad")),
        "fallback ed: invalid base64 or length"
    );
    assert_eq!(
        apply(&format!("authority da {id}\nfallback {id} {ed} x"), Some("bad")),
        "fallback orport: bad"
    );
}

#[test]
fn faults_of_a_fallback_are_found_in_order() {
    let some = || Some(vec![1]);
    let bad = Some(String::from("bad"));
    assert_eq!(
        assemble(None, None, "x", &bad).unwrap_err(),
        "fallback rsa: invalid hex or length"
    );
    assert_eq!(
        assemble(some(), None, "x", &bad).unwrap_err(),
        "fallback ed: invalid base64 or length"
    );
    assert_eq!(
        assemble(some(), some(), "x", &bad).unwrap_err(),
        "fallback orport: bad"
    );
    let cache = assemble(some(), Some(vec![2]), "x", &None).unwrap();
    assert_eq!(cache.rsa, [1]);
    assert_eq!(cache.ed, [2]);
    assert_eq!(cache.orport, "x");
}
