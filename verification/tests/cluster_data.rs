use kfk::cli::output::{item_lines, items_table, TableRow};
use kfk::client::admin::{
    check_create_outcomes, check_delete_outcomes, coordinator_from, coordinator_request_plan,
    create_topic_plan, delete_topic_plan, describe_groups_plan,
    describe_topic_from, group_detail_from, list_brokers_from, list_groups_from,
    list_topics_from, BrokerMetadata, CoordinatorEntry, CoordinatorLookup, CoordinatorReply,
    DescribedGroup, DescribedMember, ListedGroup, PartitionMetadata, TopicMetadata, TopicOutcome,
};
use kfk::client::types::{BrokerInfo, GroupOffsetInfo, TopicInfo};

fn part(id: i32, leader: i32, replicas: Vec<i32>) -> PartitionMetadata {
    PartitionMetadata { partition_index: id, leader_id: leader, isr_nodes: replicas.clone(), replica_nodes: replicas }
}

#[test]
fn topics_are_listed_by_name() {
    let topics = vec![
        TopicMetadata { name: Some("zeta".to_string()), partitions: vec![part(0, 1, vec![1, 2])] },
        TopicMetadata { name: None, partitions: vec![] },
        TopicMetadata { name: Some("alpha".to_string()), partitions: vec![part(0, 1, vec![1]), part(1, 2, vec![2])] },
        TopicMetadata { name: Some("empty".to_string()), partitions: vec![] },
    ];
    let r = list_topics_from(topics);
    let names: Vec<&str> = r.iter().map(|t| t.name.as_str()).collect();
    assert_eq!(names, vec!["alpha", "empty", "zeta"]);
    assert_eq!((r[0].partitions, r[0].replication_factor), (2, 1));
    assert_eq!((r[1].partitions, r[1].replication_factor), (0, 0));
    assert_eq!((r[2].partitions, r[2].replication_factor), (1, 2));
}

#[test]
fn describe_known_and_unknown_topic() {
    let d = describe_topic_from("t", Some(TopicMetadata { name: Some("t".to_string()), partitions: vec![part(3, 2, vec![2, 1])] })).unwrap();
    assert_eq!(d.name, "t");
    assert_eq!(d.partitions.len(), 1);
    assert_eq!((d.partitions[0].id, d.partitions[0].leader), (3, 2));
    assert_eq!(d.partitions[0].replicas, vec![2, 1]);
    assert!(d.configs.is_empty());
    assert_eq!(describe_topic_from("t", None).unwrap_err(), "Topic 't' not found");
}

#[test]
fn brokers_sorted_by_id_controller_marked() {
    let bs = vec![
        BrokerMetadata { node_id: 3, host: "c".to_string(), port: 9092 },
        BrokerMetadata { node_id: 1, host: "a".to_string(), port: 9093 },
        BrokerMetadata { node_id: 2, host: "b".to_string(), port: 9094 },
    ];
    let r = list_brokers_from(bs, Some(2));
    let ids: Vec<i32> = r.iter().map(|b| b.id).collect();
    assert_eq!(ids, vec![1, 2, 3]);
    let controllers: Vec<i32> = r.iter().filter(|b| b.is_controller).map(|b| b.id).collect();
    assert_eq!(controllers, vec![2]);
    assert!(r.iter().all(|b| b.rack.is_none()));
    let bs = vec![BrokerMetadata { node_id: 3, host: "c".to_string(), port: 9092 }];
    assert!(list_brokers_from(bs, None).iter().all(|b| !b.is_controller));
}

#[test]
fn groups_sorted_by_id_with_no_member_count() {
    let gs = vec![
        ListedGroup { group_id: "g2".to_string(), protocol_type: "consumer".to_string(), group_state: "Stable".to_string() },
        ListedGroup { group_id: "g1".to_string(), protocol_type: "consumer".to_string(), group_state: "Empty".to_string() },
    ];
    let r = list_groups_from(gs);
    assert_eq!(r[0].group_id, "g1");
    assert_eq!(r[0].state, "Empty");
    assert_eq!(r[1].group_id, "g2");
    assert!(r.iter().all(|g| g.members == 0));
}

#[test]
fn sorting_is_stable_for_equal_keys() {
    let gs = vec![
        ListedGroup { group_id: "b".to_string(), protocol_type: "1".to_string(), group_state: String::new() },
        ListedGroup { group_id: "a".to_string(), protocol_type: "2".to_string(), group_state: String::new() },
        ListedGroup { group_id: "b".to_string(), protocol_type: "3".to_string(), group_state: String::new() },
        ListedGroup { group_id: "a".to_string(), protocol_type: "4".to_string(), group_state: String::new() },
    ];
    let r = list_groups_from(gs);
    let order: Vec<&str> = r.iter().map(|g| g.protocol.as_str()).collect();
    assert_eq!(order, vec!["2", "4", "1", "3"]);
}

#[test]
fn create_outcomes_accept_zero_and_already_exists() {
    let ok = vec![
        TopicOutcome { name: Some("a".to_string()), error_code: 0 },
        TopicOutcome { name: Some("b".to_string()), error_code: 36 },
    ];
    assert!(check_create_outcomes(&ok).is_ok());
    let bad = vec![
        TopicOutcome { name: Some("a".to_string()), error_code: 36 },
        TopicOutcome { name: Some("b".to_string()), error_code: 37 },
        TopicOutcome { name: Some("c".to_string()), error_code: 41 },
    ];
    assert_eq!(check_create_outcomes(&bad).unwrap_err(), "Failed to create topic 'b': error code 37");
}

#[test]
fn delete_outcomes_accept_only_zero() {
    assert!(check_delete_outcomes(&vec![TopicOutcome { name: None, error_code: 0 }]).is_ok());
    let bad = vec![TopicOutcome { name: None, error_code: 3 }];
    assert_eq!(check_delete_outcomes(&bad).unwrap_err(), "Failed to delete topic 'unknown': error code 3");
    let bad2 = vec![TopicOutcome { name: Some("t".to_string()), error_code: 36 }];
    assert_eq!(check_delete_outcomes(&bad2).unwrap_err(), "Failed to delete topic 't': error code 36");
}

#[test]
fn create_plan_values() {
    let p = create_topic_plan("t", 3, 2);
    assert_eq!((p.name.as_str(), p.num_partitions, p.replication_factor, p.timeout_ms, p.validate_only), ("t", 3, 2, 10000, false));
}

fn reply(code: i16, host: &str, coords: Vec<CoordinatorEntry>) -> CoordinatorReply {
    CoordinatorReply { error_code: code, node_id: 7, host: host.to_string(), port: 9092, coordinators: coords }
}

#[test]
fn coordinator_lookup_gives_up_after_thirty_attempts() {
    let mut lookup = CoordinatorLookup::new();
    let mut sent = 0;
    while lookup.begin_attempt() {
        sent += 1;
        assert!(CoordinatorLookup::must_retry(&reply(15, "", vec![])));
    }
    assert_eq!(sent, 30);
    assert!(!lookup.begin_attempt());
    assert_eq!(CoordinatorLookup::give_up_message(), "Group coordinator not available after retries");
    assert_eq!(CoordinatorLookup::retry_delay_ms(), 500);
}

#[test]
fn coordinator_retry_rules() {
    let entry = |code: i16| CoordinatorEntry { node_id: 1, host: "h".to_string(), port: 1, error_code: code };
    assert!(CoordinatorLookup::must_retry(&reply(0, "", vec![entry(15)])));
    assert!(!CoordinatorLookup::must_retry(&reply(0, "", vec![entry(0), entry(15)])));
    assert!(!CoordinatorLookup::must_retry(&reply(0, "h", vec![])));
}

#[test]
fn coordinator_choice() {
    let c = coordinator_from(&reply(0, "direct", vec![])).unwrap();
    assert_eq!((c.id, c.host.as_str(), c.port), (7, "direct", 9092));
    let entry = CoordinatorEntry { node_id: 4, host: "listed".to_string(), port: 19092, error_code: 0 };
    let c = coordinator_from(&reply(0, "", vec![entry])).unwrap();
    assert_eq!((c.id, c.host.as_str(), c.port), (4, "listed", 19092));
    assert_eq!(coordinator_from(&reply(0, "", vec![])).unwrap_err(), "Failed to find group coordinator");
}

#[test]
fn group_detail() {
    let coord = BrokerInfo { id: 1, host: "h".to_string(), port: 1, rack: None, is_controller: false };
    let g = DescribedGroup {
        group_state: "Stable".to_string(),
        members: vec![DescribedMember { member_id: "m".to_string(), client_id: "c".to_string(), client_host: "/1.2.3.4".to_string() }],
    };
    let d = group_detail_from("grp", coord, Some(g)).unwrap();
    assert_eq!(d.group_id, "grp");
    assert_eq!(d.state, "Stable");
    assert_eq!(d.members[0].client_host, "/1.2.3.4");
    assert!(d.members[0].assignment.is_empty());
    let coord2 = BrokerInfo { id: 1, host: "h".to_string(), port: 1, rack: None, is_controller: false };
    assert_eq!(group_detail_from("grp", coord2, None).unwrap_err(), "Group 'grp' not found");
}

#[test]
fn table_rows_of_items() {
    let t = TopicInfo { name: "t".to_string(), partitions: 3, replication_factor: 2 };
    assert_eq!(t.headers(), vec!["NAME", "PARTITIONS", "REPLICATION"]);
    assert_eq!(t.row(), vec!["t", "3", "2"]);
    let b = BrokerInfo { id: 1, host: "h".to_string(), port: 9092, rack: None, is_controller: true };
    assert_eq!(b.row(), vec!["1", "h", "9092", "true"]);
    let o = GroupOffsetInfo { group: "g".to_string(), topic: "t".to_string(), partition: 0, committed_offset: 5, log_end_offset: -1, lag: -1, metadata: String::new() };
    assert_eq!(o.row(), vec!["g", "t", "0", "5", "-", "-", ""]);
}

#[test]
fn tables_and_item_lines() {
    let empty: Vec<TopicInfo> = Vec::new();
    assert_eq!(items_table(&empty), "No items found.");
    let items = vec![TopicInfo { name: "orders".to_string(), partitions: 12, replication_factor: 3 }];
    let table = items_table(&items);
    assert!(table.contains("NAME"));
    assert!(table.contains("orders"));
    assert!(table.contains("12"));
    assert!(table.lines().count() >= 3);
    assert_eq!(item_lines(&items[0]), vec!["  NAME: orders", "  PARTITIONS: 12", "  REPLICATION: 3"]);
}

#[test]
fn request_plans_for_topics_and_groups() {
    let d = delete_topic_plan("orders");
    assert_eq!(d.name, "orders");
    assert_eq!(d.timeout_ms, 10000);
    let c = coordinator_request_plan("g1");
    assert_eq!(c.key, "g1");
    assert_eq!(c.key_type, 0);
    assert_eq!(c.coordinator_keys, vec!["g1".to_string()]);
    let g = describe_groups_plan("g1");
    assert_eq!(g.groups, vec!["g1".to_string()]);
    assert!(!g.include_authorized_operations);
}
