use kfk::cli::args::{log_level, parse_key_val, KafkaConnectionArgs, OffsetValue};
use kfk::config::{SaslMechanism, SecurityProtocolType};
use kfk::number::{i64_text, parse_i64_text, usize_text};
use kfk::text::{join_strings, split_at_any, str_lt, trim};

#[test]
fn decimal_text_of_integers() {
    assert_eq!(i64_text(0), "0");
    assert_eq!(i64_text(-42), "-42");
    assert_eq!(i64_text(i64::MIN), "-9223372036854775808");
    assert_eq!(i64_text(i64::MAX), "9223372036854775807");
    assert_eq!(usize_text(1234567), "1234567");
}

#[test]
fn parse_i64_follows_std() {
    for s in ["0", "+5", "-17", "9223372036854775807", "-9223372036854775808", "", "-", "+", " 1", "1 ", "1_000", "9223372036854775808", "-9223372036854775809", "12a", "00012"] {
        assert_eq!(parse_i64_text(s), s.parse::<i64>().ok(), "text {:?}", s);
    }
}

#[test]
fn decimal_text_reads_back() {
    for n in [0i64, 7, -7, 10, 99, -100, 123456789, i64::MIN, i64::MAX] {
        assert_eq!(parse_i64_text(&i64_text(n)), Some(n));
    }
}

#[test]
fn trim_follows_std() {
    for s in ["", "  ", " a ", "\t\n a b \u{3000}", "\u{85}x\u{a0}", "x"] {
        assert_eq!(trim(s), s.trim());
    }
}

#[test]
fn split_follows_std() {
    let seps = vec![','];
    for s in ["", ",", "a,b", "a,,b,", ",x"] {
        let expected: Vec<String> = s.split(',').map(|p| p.to_string()).collect();
        assert_eq!(split_at_any(s, &seps), expected);
    }
    let seps2 = vec![',', ' '];
    assert_eq!(split_at_any("a b,c", &seps2), vec!["a", "b", "c"]);
}

#[test]
fn join_with_separator() {
    let parts = vec!["a".to_string(), "b".to_string(), "c".to_string()];
    assert_eq!(join_strings(&parts, ", "), "a, b, c");
    assert_eq!(join_strings(&Vec::new(), ", "), "");
}

#[test]
fn code_point_order_matches_string_order() {
    for (a, b) in [("a", "b"), ("b", "a"), ("ab", "abc"), ("abc", "ab"), ("", "a"), ("é", "z"), ("z", "é"), ("same", "same")] {
        assert_eq!(str_lt(a, b), a < b, "{:?} {:?}", a, b);
    }
}

#[test]
fn parse_key_val_splits_at_first_colon() {
    assert_eq!(parse_key_val("event:critical").unwrap(), ("event".to_string(), "critical".to_string()));
    assert_eq!(parse_key_val("a:b:c").unwrap(), ("a".to_string(), "b:c".to_string()));
    assert_eq!(parse_key_val(":v").unwrap(), (String::new(), "v".to_string()));
    assert_eq!(parse_key_val("novalue").unwrap_err(), "Invalid KEY:VALUE format: novalue");
}

#[test]
fn names_of_enums() {
    assert_eq!(OffsetValue::Earliest.name(), "earliest");
    assert_eq!(OffsetValue::Latest.name(), "latest");
    assert_eq!(SecurityProtocolType::SaslSsl.name(), "SASL_SSL");
    assert_eq!(SecurityProtocolType::Plaintext.name(), "PLAINTEXT");
    assert_eq!(SaslMechanism::ScramSha256.name(), "SCRAM-SHA-256");
    assert_eq!(SaslMechanism::Gssapi.name(), "GSSAPI");
}

#[test]
fn verbosity_levels() {
    assert_eq!(log_level(0), "");
    assert_eq!(log_level(1), "warn");
    assert_eq!(log_level(2), "info");
    assert_eq!(log_level(3), "debug");
    assert_eq!(log_level(4), "trace");
    assert_eq!(log_level(200), "trace");
}

fn args() -> KafkaConnectionArgs {
    KafkaConnectionArgs {
        sasl_mechanism: None,
        sasl_username: None,
        sasl_password: None,
        sasl_keytab: None,
        kdc_host: None,
        kdc_port: 88,
        broker_hostname: None,
        sasl_service_name: None,
        sasl_realm: None,
        tls: false,
        tls_ca: None,
        tls_cert: None,
        tls_key: None,
        tls_insecure: false,
    }
}

#[test]
fn sasl_config_needs_credentials() {
    let mut a = args();
    assert!(a.build_sasl_config().is_none());
    a.sasl_username = Some("u".to_string());
    assert!(a.build_sasl_config().is_none());
    a.sasl_password = Some("p".to_string());
    let s = a.build_sasl_config().unwrap();
    assert_eq!(s.mechanism, SaslMechanism::Plain);
    assert_eq!(s.kdc_port, Some(88));
    a.sasl_mechanism = Some(SaslMechanism::ScramSha512);
    assert_eq!(a.build_sasl_config().unwrap().mechanism, SaslMechanism::ScramSha512);
}

#[test]
fn gssapi_password_defaults_to_empty() {
    let mut a = args();
    a.sasl_mechanism = Some(SaslMechanism::Gssapi);
    a.sasl_username = Some("kafka/host@REALM".to_string());
    a.sasl_keytab = Some("/etc/k.keytab".to_string());
    let s = a.build_sasl_config().unwrap();
    assert_eq!(s.password, "");
    assert_eq!(s.keytab.as_deref(), Some("/etc/k.keytab"));
    a.sasl_mechanism = Some(SaslMechanism::Plain);
    assert!(a.build_sasl_config().is_none());
}

#[test]
fn tls_config_only_when_enabled() {
    let mut a = args();
    a.tls_ca = Some("ca".to_string());
    assert!(a.build_tls_config().is_none());
    a.tls = true;
    a.tls_insecure = true;
    let t = a.build_tls_config().unwrap();
    assert!(t.insecure);
    assert_eq!(t.ca_file.as_deref(), Some("ca"));
    assert!(t.cert_file.is_none());
}
