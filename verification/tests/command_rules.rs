use kfk::cli::args::{InputFormat, OffsetValue, ProduceArgs};
use kfk::cli::output::TableRow;
use kfk::client::admin::{PartitionMetadata, TopicMetadata};
use kfk::client::factory::{
    apply_security, build_kafka_tls_config, create_client, create_consumer, create_producer,
    require_sasl_creds, OffsetReset, SecurityPlan,
};
use kfk::client::types::{BrokerInfo, GroupDetail, GroupMember, GroupOffsetInfo, PartitionInfo, TopicDetail};
use kfk::commands::consume::{
    consumer_group_plan, consuming_message, matches_header_filters, partitions_to_assign, ConsumeSession,
};
use kfk::commands::group::{
    commit_scope, commit_specs, committed_message, describe_group_output, group_deleted_message,
    no_offsets_message, offsets_for_topic, parse_commit_offset, show_offsets_output, CommitScope,
};
use kfk::commands::produce::{record_for_line, sent_record_message, ProduceSession, ProduceSummary};
use kfk::commands::topic::{
    broker_address_map, describe_topic_output, topic_created_message, topic_deleted_message, PartitionRow,
};
use kfk::config::{ClusterConfig, SaslConfig, SaslMechanism, SecurityProtocolType, TlsConfig};

fn broker(id: i32, host: &str, port: i32) -> BrokerInfo {
    BrokerInfo { id, host: host.to_string(), port, rack: None, is_controller: false }
}

#[test]
fn partition_rows_show_addresses() {
    let map = broker_address_map(&vec![broker(1, "a", 9092), broker(2, "b", 9093), broker(1, "c", 1)]);
    assert_eq!(map.get(&1).map(|s| s.as_str()), Some("c:1"));
    let row = PartitionRow {
        info: PartitionInfo { id: 0, leader: 2, replicas: vec![1, 2, 5], isr: vec![2] },
        broker_map: map,
    };
    assert_eq!(row.headers(), vec!["ID", "LEADER", "REPLICAS", "ISR"]);
    assert_eq!(row.row(), vec!["0", "2(b:9093)", "1(c:1), 2(b:9093)*, 5(?)", "2(b:9093)"]);
}

#[test]
fn describe_topic_lines() {
    let detail = TopicDetail {
        name: "orders".to_string(),
        partitions: vec![PartitionInfo { id: 0, leader: 1, replicas: vec![1], isr: vec![1] }],
        configs: vec![],
    };
    let lines = describe_topic_output(&detail, &vec![broker(1, "h", 9092)]);
    assert_eq!(lines[0], "Topic: orders");
    assert_eq!(lines[1], "");
    assert!(lines[2].contains("1(h:9092)*"));
}

#[test]
fn topic_messages() {
    assert_eq!(topic_created_message("t", 3, 1), "Topic 't' created (partitions=3, rf=1)");
    assert_eq!(topic_deleted_message("t"), "Topic 't' deleted");
}

#[test]
fn commit_offsets_by_name_or_number() {
    assert_eq!(parse_commit_offset("earliest").unwrap(), -2);
    assert_eq!(parse_commit_offset("EARLIEST").unwrap(), -2);
    assert_eq!(parse_commit_offset("Latest").unwrap(), -1);
    assert_eq!(parse_commit_offset("42").unwrap(), 42);
    assert_eq!(parse_commit_offset("-7").unwrap(), -7);
    assert_eq!(parse_commit_offset("ABC").unwrap_err(), "Invalid offset: abc");
    assert_eq!(parse_commit_offset("").unwrap_err(), "Invalid offset: ");
}

#[test]
fn commit_scope_rules() {
    assert!(matches!(commit_scope(Some(1), true).unwrap(), CommitScope::AllPartitions));
    assert!(matches!(commit_scope(Some(4), false).unwrap(), CommitScope::Partition(4)));
    assert_eq!(commit_scope(None, false).unwrap_err(), "Must specify --partition or --all-partitions");
    let specs = commit_specs("t", &vec![0, 1, 2], -1);
    assert_eq!(specs.len(), 3);
    assert!(specs.iter().enumerate().all(|(i, s)| s.topic == "t" && s.partition == i as i32 && s.offset == -1 && s.metadata.is_none()));
    assert_eq!(
        committed_message("latest", "g", "t", &CommitScope::AllPartitions),
        "Committed offset 'latest' for group 'g' on topic 't' (all partitions)"
    );
    assert_eq!(
        committed_message("5", "g", "t", &CommitScope::Partition(2)),
        "Committed offset '5' for group 'g' on topic 't' partition 2"
    );
    assert_eq!(group_deleted_message("g"), "Group 'g' deleted");
}

fn offset(topic: &str, partition: i32) -> GroupOffsetInfo {
    GroupOffsetInfo {
        group: "g".to_string(),
        topic: topic.to_string(),
        partition,
        committed_offset: 1,
        log_end_offset: 2,
        lag: 1,
        metadata: String::new(),
    }
}

#[test]
fn offsets_filtered_by_topic() {
    let all = vec![offset("a", 0), offset("b", 0), offset("a", 1)];
    let only_a = offsets_for_topic(all, &Some("a".to_string()));
    assert_eq!(only_a.iter().map(|o| o.partition).collect::<Vec<_>>(), vec![0, 1]);
    assert!(only_a.iter().all(|o| o.topic == "a"));
    let kept = offsets_for_topic(vec![offset("x", 0)], &None);
    assert_eq!(kept.len(), 1);
}

#[test]
fn offsets_notes() {
    assert_eq!(no_offsets_message(&None, &None), "No committed offsets found for any group");
    assert_eq!(
        no_offsets_message(&Some("g".to_string()), &Some("t".to_string())),
        "No committed offsets found for group 'g' on topic 't'"
    );
    assert_eq!(
        show_offsets_output(vec![offset("a", 0)], &Some("g".to_string()), &Some("b".to_string())),
        "No committed offsets found for group 'g' on topic 'b'"
    );
    assert!(show_offsets_output(vec![offset("a", 0)], &None, &None).contains("LOG-END"));
}

#[test]
fn describe_group_lines() {
    let mut detail = GroupDetail { group_id: "g".to_string(), state: "Empty".to_string(), coordinator: None, members: vec![] };
    assert_eq!(describe_group_output(&detail), vec!["Group: g", "", "  No active members."]);
    detail.members.push(GroupMember { member_id: "m1".to_string(), client_id: "c1".to_string(), client_host: "h1".to_string(), assignment: vec![] });
    let lines = describe_group_output(&detail);
    assert!(lines[2].contains("MEMBER ID") && lines[2].contains("m1"));
}

#[test]
fn consumer_group_modes() {
    let p = consumer_group_plan("NoNe");
    assert!(p.direct);
    assert_eq!(p.group_id, "");
    assert!(p.note.is_none());
    let p = consumer_group_plan("my-group");
    assert!(!p.direct);
    assert_eq!(p.group_id, "my-group");
    let p = consumer_group_plan("Random");
    assert!(!p.direct);
    assert!(p.group_id.starts_with("kfk-"));
    assert_eq!(p.group_id.len(), 40);
    let id: Vec<char> = p.group_id.chars().skip(4).collect();
    assert_eq!(id[14], '4');
    assert!(['8', '9', 'a', 'b'].contains(&id[19]));
    assert!(id.iter().enumerate().all(|(i, c)| if [8, 13, 18, 23].contains(&i) {
        *c == '-'
    } else {
        c.is_ascii_digit() || ('a'..='f').contains(c)
    }));
    assert_eq!(p.note.unwrap(), format!("Using random group: {}", p.group_id));
    let q = consumer_group_plan("random");
    assert_ne!(q.group_id, p.group_id);
}

#[test]
fn consuming_messages() {
    let direct = consumer_group_plan("none");
    assert_eq!(consuming_message("t", &direct, OffsetValue::Earliest), "Consuming from 't' (direct assign, offset: earliest)");
    let group = consumer_group_plan("g");
    assert_eq!(consuming_message("t", &group, OffsetValue::Latest), "Consuming from 't' (group: g, offset: latest)");
}

#[test]
fn direct_assignment_partitions() {
    assert_eq!(partitions_to_assign("t", Some(3), None).unwrap(), vec![3]);
    let md = TopicMetadata {
        name: Some("t".to_string()),
        partitions: vec![
            PartitionMetadata { partition_index: 0, leader_id: 1, replica_nodes: vec![], isr_nodes: vec![] },
            PartitionMetadata { partition_index: 1, leader_id: 1, replica_nodes: vec![], isr_nodes: vec![] },
        ],
    };
    assert_eq!(partitions_to_assign("t", None, Some(md)).unwrap(), vec![0, 1]);
    assert_eq!(partitions_to_assign("t", None, None).unwrap_err(), "Topic 't' not found");
}

#[test]
fn tail_limits_records_shown() {
    let mut s = ConsumeSession::new(Some(2));
    assert!(!s.on_empty_poll());
    assert!(s.admit_record());
    assert!(s.admit_record());
    assert!(!s.admit_record());
}

#[test]
fn tail_stops_after_fifteen_empty_polls() {
    let mut s = ConsumeSession::new(Some(100));
    for _ in 0..20 {
        assert!(!s.on_empty_poll());
    }
    assert!(s.admit_record());
    for _ in 0..14 {
        assert!(!s.on_empty_poll());
    }
    assert!(s.on_empty_poll());
}

#[test]
fn tail_waits_for_fifteen_empty_polls_in_a_row() {
    let mut s = ConsumeSession::new(Some(100));
    s.on_records();
    assert!(s.admit_record());
    for _ in 0..50 {
        assert!(!s.on_empty_poll());
        s.on_records();
        assert!(s.admit_record());
    }
    for _ in 0..14 {
        assert!(!s.on_empty_poll());
    }
    assert!(s.on_empty_poll());
}

#[test]
fn without_tail_consumption_never_stops() {
    let mut s = ConsumeSession::new(None);
    for _ in 0..1000 {
        assert!(s.admit_record());
        assert!(!s.on_empty_poll());
    }
}

fn produce_args(headers: Vec<(String, String)>) -> ProduceArgs {
    ProduceArgs { topic: "t".to_string(), key: Some("k".to_string()), partition: Some(1), headers, input: InputFormat::Text }
}

#[test]
fn produce_lines_become_records() {
    let args = produce_args(vec![]);
    assert!(record_for_line(&args, "\n").unwrap().is_none());
    assert!(record_for_line(&args, "\r\n").unwrap().is_none());
    assert!(record_for_line(&args, "").unwrap().is_none());
    let r = record_for_line(&args, "hello world\r\n").unwrap().unwrap();
    assert_eq!(r.value, "hello world");
    assert_eq!(r.topic, "t");
    assert_eq!(r.key.as_deref(), Some("k"));
    assert_eq!(r.partition, Some(1));
    assert!(r.headers.is_none());
    assert_eq!(record_for_line(&args, "a\n\n").unwrap().unwrap().value, "a");
    assert_eq!(record_for_line(&args, "  spaced  ").unwrap().unwrap().value, "  spaced  ");
    let with_headers = produce_args(vec![("event".to_string(), "critical".to_string())]);
    let r = record_for_line(&with_headers, "x").unwrap().unwrap();
    assert_eq!(r.headers.unwrap(), vec![("event".to_string(), "critical".to_string())]);
}

#[test]
fn json_input_lines_give_key_and_message() {
    let args = ProduceArgs { topic: "t".to_string(), key: None, partition: None, headers: vec![], input: InputFormat::Json };
    let r = record_for_line(&args, "{\"key\":\"user1\",\"message\":\"login event\"}\n").unwrap().unwrap();
    assert_eq!(r.key.as_deref(), Some("user1"));
    assert_eq!(r.value, "login event");
    assert_eq!(r.topic, "t");
    // the payload field, as consumed records show it, also gives the value
    let r = record_for_line(&args, "{\"payload\":\"p\"}").unwrap().unwrap();
    assert_eq!(r.value, "p");
    assert!(r.key.is_none());
    // without a key in the line, --key is used
    let keyed = ProduceArgs { key: Some("k".to_string()), ..args };
    let r = record_for_line(&keyed, "{\"message\":\"m\",\"key\":7}").unwrap().unwrap();
    assert_eq!(r.key.as_deref(), Some("k"));
    assert_eq!(r.value, "m");
    // lines that give no record
    assert_eq!(record_for_line(&keyed, "not json").unwrap_err(), "Invalid JSON input: not json");
    assert_eq!(record_for_line(&keyed, "{\"other\":1}\n").unwrap_err(), "Invalid JSON input: {\"other\":1}");
    assert_eq!(record_for_line(&keyed, "[\"message\"]").unwrap_err(), "Invalid JSON input: [\"message\"]");
    assert!(record_for_line(&keyed, "\n").unwrap().is_none());
}

#[test]
fn produce_reports() {
    assert_eq!(sent_record_message(2, 42), "Sent record to partition 2 at offset 42.");
    let mut s = ProduceSession::new();
    match s.summary("t") {
        ProduceSummary::Nothing(m) => assert_eq!(m, "No records sent (empty input)."),
        other => panic!("{:?}", other),
    }
    s.on_sent();
    s.on_sent();
    match s.summary("t") {
        ProduceSummary::Sent(m) => assert_eq!(m, "Sent 2 record(s) to 't'"),
        other => panic!("{:?}", other),
    }
}

fn cluster(proto: SecurityProtocolType, sasl: Option<SaslConfig>, tls: Option<TlsConfig>) -> ClusterConfig {
    ClusterConfig { brokers: vec!["h:1".to_string()], security_protocol: proto, sasl, tls }
}

fn creds() -> SaslConfig {
    SaslConfig {
        mechanism: SaslMechanism::ScramSha256,
        username: "u".to_string(),
        password: "p".to_string(),
        keytab: None,
        kdc_host: None,
        kdc_port: None,
        broker_hostname: None,
        service_name: None,
        realm: None,
    }
}

#[test]
fn tls_settings_for_the_client() {
    let none = build_kafka_tls_config(&None);
    assert_eq!(none.domain, "localhost");
    assert!(none.verify_certificate);
    let t = build_kafka_tls_config(&Some(TlsConfig { insecure: true, ca_file: Some("ca".to_string()), cert_file: Some("cert".to_string()), key_file: None }));
    assert!(!t.verify_certificate);
    assert_eq!(t.domain, "cert");
    assert_eq!(t.ca_cert_path.as_deref(), Some("ca"));
    assert_eq!(t.client_cert_path.as_deref(), Some("cert"));
}

#[test]
fn security_follows_the_protocol() {
    assert!(matches!(apply_security(&cluster(SecurityProtocolType::Plaintext, None, None)).unwrap(), SecurityPlan::Plaintext));
    assert!(matches!(apply_security(&cluster(SecurityProtocolType::Ssl, None, None)).unwrap(), SecurityPlan::Tls(_)));
    match apply_security(&cluster(SecurityProtocolType::SaslPlaintext, Some(creds()), None)).unwrap() {
        SecurityPlan::Sasl(c) => assert_eq!((c.mechanism, c.username.as_str(), c.password.as_str()), (SaslMechanism::ScramSha256, "u", "p")),
        other => panic!("{:?}", other),
    }
    assert!(matches!(apply_security(&cluster(SecurityProtocolType::SaslSsl, Some(creds()), None)).unwrap(), SecurityPlan::SaslTls(_, _)));
    let missing = "SASL credentials required but not provided (--sasl-username / --sasl-password)";
    assert_eq!(apply_security(&cluster(SecurityProtocolType::SaslSsl, None, None)).unwrap_err(), missing);
    assert_eq!(require_sasl_creds(&None).unwrap_err(), missing);
    let plan = create_client(&cluster(SecurityProtocolType::Plaintext, None, None)).unwrap();
    assert_eq!(plan.brokers, vec!["h:1".to_string()]);
    assert_eq!(plan.client_id, "kfk-cli");
    assert_eq!(plan.metadata_ttl_secs, 30);
    assert_eq!(create_client(&cluster(SecurityProtocolType::SaslPlaintext, None, None)).unwrap_err(), missing);
}

#[test]
fn consumer_and_producer_settings() {
    let c = create_consumer("g", OffsetValue::Earliest);
    assert_eq!(c.group_id, "g");
    assert_eq!(c.auto_offset_reset, OffsetReset::Earliest);
    assert_eq!(c.max_bytes, 10 * 1024 * 1024);
    assert_eq!(c.session_timeout_ms, 45000);
    let p = create_producer();
    assert_eq!((p.acks, p.timeout_ms, p.retries, p.batch_size, p.linger_ms), (1, 5000, 3, 16384, 50));
}

fn pairs(v: &[(&str, &str)]) -> Vec<(String, String)> {
    v.iter().map(|(k, x)| (k.to_string(), x.to_string())).collect()
}

#[test]
fn header_filters_select_records() {
    let headers = pairs(&[("event", "critical"), ("env", "prod")]);
    assert!(matches_header_filters(&headers, &vec![]));
    assert!(matches_header_filters(&headers, &pairs(&[("env", "prod")])));
    assert!(matches_header_filters(&headers, &pairs(&[("env", "prod"), ("event", "critical")])));
    assert!(!matches_header_filters(&headers, &pairs(&[("env", "dev")])));
    assert!(!matches_header_filters(&headers, &pairs(&[("env", "prod"), ("region", "eu")])));
    assert!(!matches_header_filters(&vec![], &pairs(&[("env", "prod")])));
}

#[test]
fn a_failed_poll_ends_consumption() {
    let s = ConsumeSession::new(Some(3));
    assert!(s.on_poll_error());
    assert!(ConsumeSession::new(None).on_poll_error());
}
