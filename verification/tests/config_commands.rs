use kfk::cli::args::{ConfigAction, KafkaConnectionArgs};
use kfk::commands::config::{
    add_cluster, handle_config, list_clusters, remove_cluster, select_cluster, ConfigOutcome,
};
use kfk::config::{get_cluster, AppConfig, ClusterMap, SaslMechanism, SecurityProtocolType};
use kfk::config::resolve_cluster;

fn no_auth() -> KafkaConnectionArgs {
    KafkaConnectionArgs {
        sasl_mechanism: None,
        sasl_username: None,
        sasl_password: None,
        sasl_keytab: None,
        kdc_host: None,
        kdc_port: 88,
        broker_hostname: None,
        sasl_service_name: None,
        sasl_realm: None,
        tls: false,
        tls_ca: None,
        tls_cert: None,
        tls_key: None,
        tls_insecure: false,
    }
}

fn empty_config() -> AppConfig {
    AppConfig { current_cluster: None, clusters: ClusterMap::new() }
}

fn changed(o: ConfigOutcome) -> String {
    match o {
        ConfigOutcome::Changed(m) => m,
        other => panic!("expected a change, got {:?}", other),
    }
}

fn refused(o: ConfigOutcome) -> String {
    match o {
        ConfigOutcome::Refused(m) => m,
        other => panic!("expected a refusal, got {:?}", other),
    }
}

#[test]
fn default_config_has_local_selected() {
    let cfg = AppConfig::default();
    assert_eq!(cfg.current_cluster.as_deref(), Some("local"));
    let (name, c) = get_cluster(&cfg, "").unwrap();
    assert_eq!(name, "local");
    assert_eq!(c.brokers, vec!["127.0.0.1:9092".to_string()]);
    assert_eq!(c.security_protocol, SecurityProtocolType::Plaintext);
    assert!(c.sasl.is_none());
    assert!(c.tls.is_none());
}

#[test]
fn add_then_get_reads_back_the_cluster() {
    let mut cfg = empty_config();
    let msg = changed(add_cluster(
        &mut cfg,
        "prod",
        "broker1:9092, broker2:9092",
        SecurityProtocolType::Plaintext,
        &no_auth(),
    ));
    assert_eq!(msg, "Cluster 'prod' added");
    // the first cluster added is selected
    assert_eq!(cfg.current_cluster.as_deref(), Some("prod"));
    let (name, c) = get_cluster(&cfg, "prod").unwrap();
    assert_eq!(name, "prod");
    assert_eq!(c.brokers, vec!["broker1:9092".to_string(), "broker2:9092".to_string()]);
}

#[test]
fn add_splits_on_commas_and_spaces_and_trims() {
    let mut cfg = empty_config();
    changed(add_cluster(&mut cfg, "a", "x:1,,y:2 z:3,\tw:4", SecurityProtocolType::Plaintext, &no_auth()));
    let (_, c) = get_cluster(&cfg, "a").unwrap();
    assert_eq!(c.brokers, vec!["x:1".to_string(), "y:2".to_string(), "z:3".to_string(), "w:4".to_string()]);
}

#[test]
fn add_without_brokers_is_refused_and_changes_nothing() {
    let mut cfg = empty_config();
    let msg = refused(add_cluster(&mut cfg, "a", " , ,", SecurityProtocolType::Plaintext, &no_auth()));
    assert_eq!(msg, "At least one broker address is required");
    assert!(cfg.current_cluster.is_none());
    assert!(cfg.clusters.is_empty());
}

#[test]
fn add_keeps_selection_and_saves_secure_tls() {
    let mut cfg = AppConfig::default();
    let mut auth = no_auth();
    auth.sasl_username = Some("admin".to_string());
    auth.sasl_password = Some("secret".to_string());
    auth.tls_ca = Some("/ca.pem".to_string());
    auth.tls_insecure = true;
    changed(add_cluster(&mut cfg, "sec", "b:9093", SecurityProtocolType::SaslSsl, &auth));
    assert_eq!(cfg.current_cluster.as_deref(), Some("local"));
    let (_, c) = get_cluster(&cfg, "sec").unwrap();
    let sasl = c.sasl.unwrap();
    assert_eq!(sasl.mechanism, SaslMechanism::Plain);
    assert_eq!(sasl.username, "admin");
    assert_eq!(sasl.password, "secret");
    let tls = c.tls.unwrap();
    assert!(!tls.insecure);
    assert_eq!(tls.ca_file.as_deref(), Some("/ca.pem"));
}

#[test]
fn add_replaces_existing_cluster() {
    let mut cfg = AppConfig::default();
    changed(add_cluster(&mut cfg, "local", "other:1", SecurityProtocolType::Ssl, &no_auth()));
    let (_, c) = get_cluster(&cfg, "local").unwrap();
    assert_eq!(c.brokers, vec!["other:1".to_string()]);
    assert_eq!(c.security_protocol, SecurityProtocolType::Ssl);
    assert!(c.tls.is_some());
}

#[test]
fn select_then_active_cluster_is_selected() {
    let mut cfg = AppConfig::default();
    changed(add_cluster(&mut cfg, "prod", "p:1", SecurityProtocolType::Plaintext, &no_auth()));
    assert_eq!(changed(select_cluster(&mut cfg, "prod")), "Switched to cluster 'prod'");
    let (name, _) = get_cluster(&cfg, "").unwrap();
    assert_eq!(name, "prod");
    assert_eq!(refused(select_cluster(&mut cfg, "nope")), "Cluster 'nope' not found");
    assert_eq!(cfg.current_cluster.as_deref(), Some("prod"));
}

#[test]
fn remove_then_get_fails() {
    let mut cfg = AppConfig::default();
    changed(add_cluster(&mut cfg, "b", "b:1", SecurityProtocolType::Plaintext, &no_auth()));
    changed(add_cluster(&mut cfg, "a", "a:1", SecurityProtocolType::Plaintext, &no_auth()));
    assert_eq!(changed(remove_cluster(&mut cfg, "local")), "Cluster 'local' removed");
    assert_eq!(get_cluster(&cfg, "local").unwrap_err(), "Cluster 'local' not found");
    // the removed cluster was selected: the first remaining name is selected
    assert_eq!(cfg.current_cluster.as_deref(), Some("a"));
    assert_eq!(refused(remove_cluster(&mut cfg, "local")), "Cluster 'local' not found");
}

#[test]
fn removing_the_last_cluster_clears_the_selection() {
    let mut cfg = AppConfig::default();
    changed(remove_cluster(&mut cfg, "local"));
    assert!(cfg.current_cluster.is_none());
    assert_eq!(get_cluster(&cfg, "").unwrap_err(), "Cluster 'local' not found");
}

#[test]
fn list_clusters_in_name_order() {
    let mut cfg = AppConfig::default();
    let mut auth = no_auth();
    auth.sasl_username = Some("u".to_string());
    auth.sasl_password = Some("p".to_string());
    changed(add_cluster(&mut cfg, "zeta", "z:1,z:2", SecurityProtocolType::SaslPlaintext, &auth));
    changed(add_cluster(&mut cfg, "alpha", "a:1", SecurityProtocolType::Plaintext, &no_auth()));
    let lines = list_clusters(&cfg);
    assert_eq!(
        lines,
        vec![
            "CLUSTERS".to_string(),
            "───────".to_string(),
            "  alpha ─ a:1".to_string(),
            "  local ─ 127.0.0.1:9092 ◄".to_string(),
            "  zeta ─ z:1, z:2 (SASL) (TLS)".to_string(),
        ]
    );
}

#[test]
fn list_without_clusters() {
    let cfg = empty_config();
    assert_eq!(list_clusters(&cfg), vec!["No clusters configured.".to_string()]);
}

#[test]
fn handle_config_dispatches() {
    let mut cfg = empty_config();
    let out = handle_config(
        &mut cfg,
        ConfigAction::AddCluster {
            name: "x".to_string(),
            brokers: "h:1".to_string(),
            security_protocol: SecurityProtocolType::Plaintext,
            auth_args: Box::new(no_auth()),
        },
    );
    assert_eq!(changed(out), "Cluster 'x' added");
    match handle_config(&mut cfg, ConfigAction::List) {
        ConfigOutcome::Listing(lines) => assert_eq!(lines[2], "  x ─ h:1 ◄"),
        other => panic!("unexpected {:?}", other),
    }
}

#[test]
fn get_cluster_unknown_name() {
    let cfg = AppConfig::default();
    assert_eq!(get_cluster(&cfg, "missing").unwrap_err(), "Cluster 'missing' not found");
}

#[test]
fn resolve_with_brokers_builds_adhoc_cluster() {
    let cfg = AppConfig::default();
    let (name, c) = resolve_cluster(None, Some(" b1:9092 ,, b2:9092 "), None, &no_auth(), &SecurityProtocolType::Plaintext, &cfg).unwrap();
    assert_eq!(name, "adhoc");
    assert_eq!(c.brokers, vec!["b1:9092".to_string(), "b2:9092".to_string()]);
    assert_eq!(c.security_protocol, SecurityProtocolType::Plaintext);
}

#[test]
fn resolve_with_empty_brokers_uses_default_address() {
    let cfg = AppConfig::default();
    let (_, c) = resolve_cluster(None, Some(" , "), None, &no_auth(), &SecurityProtocolType::Plaintext, &cfg).unwrap();
    assert_eq!(c.brokers, vec!["127.0.0.1:9092".to_string()]);
}

#[test]
fn resolve_upgrades_protocol_for_sasl_and_tls() {
    let cfg = AppConfig::default();
    let mut auth = no_auth();
    auth.sasl_username = Some("u".to_string());
    auth.sasl_password = Some("p".to_string());
    let (_, c) = resolve_cluster(None, Some("b:1"), None, &auth, &SecurityProtocolType::Plaintext, &cfg).unwrap();
    assert_eq!(c.security_protocol, SecurityProtocolType::SaslPlaintext);
    auth.tls = true;
    let (_, c) = resolve_cluster(None, Some("b:1"), None, &auth, &SecurityProtocolType::Plaintext, &cfg).unwrap();
    assert_eq!(c.security_protocol, SecurityProtocolType::SaslSsl);
    assert!(c.tls.is_some());
    let mut tls_only = no_auth();
    tls_only.tls = true;
    let (_, c) = resolve_cluster(None, Some("b:1"), None, &tls_only, &SecurityProtocolType::Plaintext, &cfg).unwrap();
    assert_eq!(c.security_protocol, SecurityProtocolType::Ssl);
    // an explicit protocol stays
    let (_, c) = resolve_cluster(None, Some("b:1"), None, &auth, &SecurityProtocolType::Ssl, &cfg).unwrap();
    assert_eq!(c.security_protocol, SecurityProtocolType::Ssl);
}

#[test]
fn resolve_without_brokers_looks_up_the_config() {
    let cfg = AppConfig::default();
    let (name, _) = resolve_cluster(None, None, None, &no_auth(), &SecurityProtocolType::Plaintext, &cfg).unwrap();
    assert_eq!(name, "local");
    // the selected cluster comes before KFK_BROKERS
    let (name, c) =
        resolve_cluster(None, None, Some("k1:9092"), &no_auth(), &SecurityProtocolType::Plaintext, &cfg).unwrap();
    assert_eq!(name, "local");
    assert_eq!(c.brokers, vec!["127.0.0.1:9092".to_string()]);
    let err = resolve_cluster(Some("nope"), None, None, &no_auth(), &SecurityProtocolType::Plaintext, &cfg).unwrap_err();
    assert_eq!(err, "Cluster 'nope' not found");
}

#[test]
fn cluster_names_come_in_order() {
    let mut cfg = empty_config();
    for name in ["prod", "dev", "stage", "dev"] {
        changed(add_cluster(&mut cfg, name, "h:1", SecurityProtocolType::Plaintext, &no_auth()));
    }
    assert_eq!(cfg.clusters.names(), vec!["dev".to_string(), "prod".to_string(), "stage".to_string()]);
    assert_eq!(cfg.clusters.least(), Some("dev".to_string()));
    assert!(cfg.clusters.contains_key("stage"));
    assert!(!cfg.clusters.contains_key("qa"));
}

#[test]
fn resolve_falls_back_to_env_brokers_then_default() {
    let cfg = empty_config();
    let (_, c) =
        resolve_cluster(None, None, Some(" k1:9092 , k2:9092"), &no_auth(), &SecurityProtocolType::Plaintext, &cfg)
            .unwrap();
    assert_eq!(c.brokers, vec!["k1:9092".to_string(), "k2:9092".to_string()]);
    let (_, c) = resolve_cluster(None, None, None, &no_auth(), &SecurityProtocolType::Plaintext, &cfg).unwrap();
    assert_eq!(c.brokers, vec!["127.0.0.1:9092".to_string()]);
    // --brokers comes first
    let (_, c) =
        resolve_cluster(None, Some("b:1"), Some("k1:9092"), &no_auth(), &SecurityProtocolType::Plaintext, &cfg)
            .unwrap();
    assert_eq!(c.brokers, vec!["b:1".to_string()]);
    // a cluster named on the command line must exist
    let err = resolve_cluster(Some("prod"), None, Some("k1:9092"), &no_auth(), &SecurityProtocolType::Plaintext, &cfg)
        .unwrap_err();
    assert_eq!(err, "Cluster 'prod' not found");
}
