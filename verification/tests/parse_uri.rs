use wifi_qr::error::WifiUriError;
use wifi_qr::key::WifiUriParamKey;
use wifi_qr::uri::parse_wifi_uri;

fn fault(uri: &str) -> WifiUriError {
    parse_wifi_uri(uri.to_string()).unwrap_err()
}

#[test]
fn home_network_with_password() {
    let connection = parse_wifi_uri("WIFI:S:MyHome;T:WPA;P:secret123;H:false;;".to_string()).unwrap();
    assert_eq!(connection.ssid(), "MyHome");
    assert_eq!(connection.password(), Some("secret123"));
    assert!(!connection.hidden());
    assert!(connection.is_quotable());
    assert_eq!(
        connection.render_to_nmcli(),
        "nmcli device wifi connect MyHome password secret123"
    );
}

#[test]
fn hidden_network_with_escaped_name() {
    let connection = parse_wifi_uri("WIFI:S:Caf%C3%A9;T:WPA;H:true;;".to_string()).unwrap();
    assert_eq!(connection.ssid(), "Caf\u{e9}");
    assert_eq!(connection.password(), None);
    assert!(connection.hidden());
    assert_eq!(
        connection.render_to_nmcli(),
        "nmcli device wifi connect 'Caf\u{e9}' hidden yes"
    );
}

#[test]
fn second_ssid_is_a_duplicate() {
    assert_eq!(
        fault("WIFI:S:Open;T:WPA;S:Dup;;"),
        WifiUriError::DuplicateKey { tag: "S".to_string() }
    );
}

#[test]
fn wep_is_not_supported() {
    assert_eq!(
        fault("WIFI:T:WEP;S:X;;"),
        WifiUriError::UnsupportedSecurityType { value: "WEP".to_string() }
    );
}

#[test]
fn prefix_is_required_and_case_sensitive() {
    assert_eq!(fault("S:MyHome;;"), WifiUriError::MissingPrefix);
    assert_eq!(fault("wifi:S:MyHome;;"), WifiUriError::MissingPrefix);
    assert_eq!(fault(""), WifiUriError::MissingPrefix);
    assert_eq!(fault("WIFI"), WifiUriError::MissingPrefix);
}

#[test]
fn text_that_ends_early_is_unterminated() {
    assert_eq!(fault("WIFI:"), WifiUriError::Unterminated);
    assert_eq!(fault("WIFI:S:MyHome;"), WifiUriError::Unterminated);
}

#[test]
fn text_after_the_fields_needs_a_colon() {
    assert_eq!(fault("WIFI:S:MyHome;;x"), WifiUriError::MissingColon);
    assert_eq!(fault("WIFI:S"), WifiUriError::MissingColon);
}

#[test]
fn value_without_semicolon_is_unterminated() {
    assert_eq!(
        fault("WIFI:S:MyHome"),
        WifiUriError::UnterminatedField { tag: "S".to_string() }
    );
}

#[test]
fn value_that_is_not_utf8_is_refused() {
    assert_eq!(
        fault("WIFI:S:%FF;;"),
        WifiUriError::InvalidUtf8 { tag: "S".to_string() }
    );
    assert_eq!(
        fault("WIFI:P:%C3;S:x;;"),
        WifiUriError::InvalidUtf8 { tag: "P".to_string() }
    );
}

#[test]
fn unknown_tag_is_refused() {
    assert_eq!(
        fault("WIFI:X:1;S:x;;"),
        WifiUriError::UnknownParam { tag: "X".to_string() }
    );
    assert_eq!(
        fault("WIFI:s:x;;"),
        WifiUriError::UnknownParam { tag: "s".to_string() }
    );
    assert_eq!(
        fault("WIFI:SS:x;;"),
        WifiUriError::UnknownParam { tag: "SS".to_string() }
    );
    assert_eq!(
        fault("WIFI::x;;"),
        WifiUriError::UnknownParam { tag: "".to_string() }
    );
}

#[test]
fn every_tag_is_refused_the_second_time() {
    for tag in ["T", "R", "S", "H", "I", "P", "K"] {
        let uri = format!("WIFI:{tag}:a;{tag}:b;;");
        assert_eq!(fault(&uri), WifiUriError::DuplicateKey { tag: tag.to_string() });
    }
}

#[test]
fn ssid_is_required() {
    assert_eq!(fault("WIFI:;"), WifiUriError::MissingSsid);
    assert_eq!(fault("WIFI:T:WPA;P:secret;;"), WifiUriError::MissingSsid);
    assert_eq!(fault("WIFI:S:;;"), WifiUriError::MissingSsid);
}

#[test]
fn unsupported_fields_are_named() {
    assert_eq!(
        fault("WIFI:S:x;I:id;;"),
        WifiUriError::UnsupportedFlags { keys: vec![WifiUriParamKey::SaePasswordIdentifier] }
    );
    assert_eq!(
        fault("WIFI:K:key;S:x;;"),
        WifiUriError::UnsupportedFlags { keys: vec![WifiUriParamKey::PublicKey] }
    );
    assert_eq!(
        fault("WIFI:K:;S:x;I:;;"),
        WifiUriError::UnsupportedFlags {
            keys: vec![WifiUriParamKey::SaePasswordIdentifier, WifiUriParamKey::PublicKey]
        }
    );
}

#[test]
fn hidden_flag_is_true_false_or_absent() {
    assert!(parse_wifi_uri("WIFI:S:x;H:true;;".to_string()).unwrap().hidden());
    assert!(!parse_wifi_uri("WIFI:S:x;H:false;;".to_string()).unwrap().hidden());
    assert!(!parse_wifi_uri("WIFI:S:x;;".to_string()).unwrap().hidden());
    assert_eq!(
        fault("WIFI:S:x;H:True;;"),
        WifiUriError::InvalidHidden { value: "True".to_string() }
    );
    assert_eq!(
        fault("WIFI:S:x;H:;;"),
        WifiUriError::InvalidHidden { value: "".to_string() }
    );
    assert_eq!(
        fault("WIFI:S:x;H:1;;"),
        WifiUriError::InvalidHidden { value: "1".to_string() }
    );
}

#[test]
fn security_type_must_be_wpa() {
    assert!(parse_wifi_uri("WIFI:S:x;T:WPA;;".to_string()).is_ok());
    assert!(parse_wifi_uri("WIFI:S:x;T:%57PA;;".to_string()).is_ok());
    for other in ["SAE", "WEP", "nopass", "wpa", "WPA2", ""] {
        let uri = format!("WIFI:S:x;T:{other};;");
        assert_eq!(
            fault(&uri),
            WifiUriError::UnsupportedSecurityType { value: other.to_string() }
        );
    }
}

#[test]
fn transition_disable_must_be_zero() {
    for zero in ["0", "00", "+0", "-0", "-000"] {
        let uri = format!("WIFI:S:x;R:{zero};;");
        assert!(parse_wifi_uri(uri).is_ok());
        assert_eq!(zero.parse::<i32>(), Ok(0));
    }
    for other in ["1", "", "+", "-", "zero", " 0", "0 ", "0x0", "10", "0.0", "++0"] {
        let uri = format!("WIFI:S:x;R:{other};;");
        assert_eq!(
            fault(&uri),
            WifiUriError::UnsupportedTransitionDisable { value: other.to_string() }
        );
        assert_ne!(other.parse::<i32>(), Ok(0));
    }
}

#[test]
fn transition_disable_is_held_before_security_type() {
    assert_eq!(
        fault("WIFI:T:WEP;R:1;;"),
        WifiUriError::UnsupportedTransitionDisable { value: "1".to_string() }
    );
    assert_eq!(
        fault("WIFI:T:WEP;H:maybe;;"),
        WifiUriError::UnsupportedSecurityType { value: "WEP".to_string() }
    );
    assert_eq!(fault("WIFI:H:maybe;I:x;;"), WifiUriError::MissingSsid);
    assert_eq!(
        fault("WIFI:H:maybe;I:x;S:y;;"),
        WifiUriError::InvalidHidden { value: "maybe".to_string() }
    );
}

#[test]
fn values_are_percent_decoded() {
    let connection = parse_wifi_uri("WIFI:S:a%3Bb%3a%25;P:100%;;".to_string()).unwrap();
    assert_eq!(connection.ssid(), "a;b:%");
    assert_eq!(connection.password(), Some("100%"));
    let connection = parse_wifi_uri("WIFI:S:%zz%4;P:%%41;;".to_string()).unwrap();
    assert_eq!(connection.ssid(), "%zz%4");
    assert_eq!(connection.password(), Some("%A"));
    let connection = parse_wifi_uri("WIFI:S:a:b;;".to_string()).unwrap();
    assert_eq!(connection.ssid(), "a:b");
}

#[test]
fn names_beyond_ascii_are_kept() {
    let connection = parse_wifi_uri("WIFI:S:Caf\u{e9} \u{1f4f6};;".to_string()).unwrap();
    assert_eq!(connection.ssid(), "Caf\u{e9} \u{1f4f6}");
    assert_eq!(
        fault("WIFI:\u{e9}:x;;"),
        WifiUriError::UnknownParam { tag: "\u{e9}".to_string() }
    );
}

#[test]
fn words_are_quoted_for_the_shell() {
    let connection = parse_wifi_uri("WIFI:S:My Home;P:it's $5;H:true;;".to_string()).unwrap();
    assert_eq!(
        connection.render_to_nmcli(),
        "nmcli device wifi connect 'My Home' password \"it's \"'$5' hidden yes"
    );
}

#[test]
fn nul_cannot_be_quoted() {
    let connection = parse_wifi_uri("WIFI:S:a%00b;;".to_string()).unwrap();
    assert_eq!(connection.ssid(), "a\0b");
    assert!(!connection.is_quotable());
    let connection = parse_wifi_uri("WIFI:S:ab;P:%00;;".to_string()).unwrap();
    assert!(!connection.is_quotable());
}

#[test]
fn plain_words_stand_unquoted() {
    let connection =
        parse_wifi_uri("WIFI:S:az09AZ+-./%3A@]_;P:Net_1.5/b@c;;".to_string()).unwrap();
    assert_eq!(connection.ssid(), "az09AZ+-./:@]_");
    assert_eq!(
        connection.render_to_nmcli(),
        "nmcli device wifi connect az09AZ+-./:@]_ password Net_1.5/b@c"
    );
}

#[test]
fn empty_password_is_two_quotes() {
    let connection = parse_wifi_uri("WIFI:S:net;P:;;".to_string()).unwrap();
    assert_eq!(connection.password(), Some(""));
    assert_eq!(
        connection.render_to_nmcli(),
        "nmcli device wifi connect net password ''"
    );
}
