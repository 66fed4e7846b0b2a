//! `topic`: how topics, their partitions and the outcome of topic requests
//! are shown.

use vstd::prelude::*;
use std::collections::HashMap;
use crate::cli::output::{items_table, items_text, TableRow};
use crate::client::types::{BrokerInfo, PartitionInfo, TopicDetail, TopicInfo};
use crate::number::{i16_text, i32_text, int_text, usize_text};
use crate::text::{join, views};

verus! {

broadcast use vstd::std_specs::hash::group_hash_axioms;

impl TableRow for TopicInfo {
    open spec fn header_cells(&self) -> Seq<Seq<char>> {
        seq!["NAME"@, "PARTITIONS"@, "REPLICATION"@]
    }

    open spec fn row_cells(&self) -> Seq<Seq<char>> {
        seq![self.name@, int_text(self.partitions as int), int_text(self.replication_factor as int)]
    }

    fn headers(&self) -> (r: Vec<String>) {
        let mut r: Vec<String> = Vec::new();
        r.push(String::from_str("NAME"));
        r.push(String::from_str("PARTITIONS"));
        r.push(String::from_str("REPLICATION"));
        assert(views(r@) =~= self.header_cells());
        r
    }

    fn row(&self) -> (r: Vec<String>) {
        let mut r: Vec<String> = Vec::new();
        r.push(self.name.clone());
        r.push(usize_text(self.partitions));
        r.push(i32_text(self.replication_factor));
        assert(views(r@) =~= self.row_cells());
        r
    }
}

/// The address shown for a broker id: `host:port` when the map knows the
/// broker, `?` otherwise.
pub open spec fn broker_address(m: Map<i32, String>, id: i32) -> Seq<char> {
    if m.dom().contains(id) {
        m[id]@
    } else {
        "?"@
    }
}

/// A broker shown with its address: `id(address)`.
pub open spec fn node_label(m: Map<i32, String>, id: i32) -> Seq<char> {
    int_text(id as int) + "("@ + broker_address(m, id) + ")"@
}

/// A replica shown with its address, marked `*` when it is the leader.
pub open spec fn replica_label(m: Map<i32, String>, id: i32, leader: i32) -> Seq<char> {
    node_label(m, id) + if id == leader {
        "*"@
    } else {
        Seq::empty()
    }
}

/// A partition of a topic, shown with the addresses of its brokers.
pub struct PartitionRow {
    pub info: PartitionInfo,
    pub broker_map: HashMap<i32, String>,
}

fn address_of(m: &HashMap<i32, String>, id: i32) -> (r: String)
    ensures
        r@ == broker_address(m@, id),
{
    match m.get(&id) {
        Some(a) => a.clone(),
        None => String::from_str("?"),
    }
}

fn label_of(m: &HashMap<i32, String>, id: i32) -> (r: String)
    ensures
        r@ == node_label(m@, id),
{
    let mut s = i32_text(id);
    s.append("(");
    let a = address_of(m, id);
    s.append(a.as_str());
    s.append(")");
    s
}

impl TableRow for PartitionRow {
    open spec fn header_cells(&self) -> Seq<Seq<char>> {
        seq!["ID"@, "LEADER"@, "REPLICAS"@, "ISR"@]
    }

    open spec fn row_cells(&self) -> Seq<Seq<char>> {
        let m = self.broker_map@;
        let leader = self.info.leader;
        seq![
            int_text(self.info.id as int),
            node_label(m, leader),
            join(self.info.replicas@.map_values(|b: i32| replica_label(m, b, leader)), ", "@),
            join(self.info.isr@.map_values(|b: i32| node_label(m, b)), ", "@),
        ]
    }

    fn headers(&self) -> (r: Vec<String>) {
        let mut r: Vec<String> = Vec::new();
        r.push(String::from_str("ID"));
        r.push(String::from_str("LEADER"));
        r.push(String::from_str("REPLICAS"));
        r.push(String::from_str("ISR"));
        assert(views(r@) =~= self.header_cells());
        r
    }

    fn row(&self) -> (r: Vec<String>) {
        let m = &self.broker_map;
        let leader = self.info.leader;
        let mut replicas: Vec<String> = Vec::new();
        let n = self.info.replicas.len();
        for i in 0..n
            invariant
                n == self.info.replicas@.len(),
                leader == self.info.leader,
                m@ == self.broker_map@,
                views(replicas@) == self.info.replicas@.take(i as int).map_values(
                    |b: i32| replica_label(m@, b, leader),
                ),
        {
            let b = self.info.replicas[i];
            let mut label = label_of(m, b);
            if b == leader {
                label.append("*");
            }
            proof {
                reveal_strlit("");
            }
            let ghost before = replicas@;
            replicas.push(label);
            assert(views(replicas@) =~= views(before).push(replica_label(m@, b, leader)));
            assert(self.info.replicas@.take(i + 1) =~= self.info.replicas@.take(i as int).push(b));
        }
        assert(self.info.replicas@.take(n as int) =~= self.info.replicas@);
        let mut isr: Vec<String> = Vec::new();
        let k = self.info.isr.len();
        for i in 0..k
            invariant
                k == self.info.isr@.len(),
                m@ == self.broker_map@,
                views(isr@) == self.info.isr@.take(i as int).map_values(|b: i32| node_label(m@, b)),
        {
            let b = self.info.isr[i];
            let label = label_of(m, b);
            let ghost before = isr@;
            isr.push(label);
            assert(views(isr@) =~= views(before).push(node_label(m@, b)));
            assert(self.info.isr@.take(i + 1) =~= self.info.isr@.take(i as int).push(b));
        }
        assert(self.info.isr@.take(k as int) =~= self.info.isr@);
        let mut r: Vec<String> = Vec::new();
        r.push(i32_text(self.info.id));
        r.push(label_of(m, leader));
        r.push(crate::text::join_strings(&replicas, ", "));
        r.push(crate::text::join_strings(&isr, ", "));
        assert(views(r@) =~= self.row_cells());
        r
    }
}

/// The address of a broker: `host:port`.
pub open spec fn host_port(b: BrokerInfo) -> Seq<char> {
    b.host@ + ":"@ + int_text(b.port as int)
}

/// The addresses of the brokers by id; when an id repeats, the later broker
/// wins.
pub open spec fn address_map(bs: Seq<BrokerInfo>) -> Map<i32, Seq<char>>
    decreases bs.len(),
{
    if bs.len() == 0 {
        Map::empty()
    } else {
        address_map(bs.drop_last()).insert(bs.last().id, host_port(bs.last()))
    }
}

/// Builds the broker id → `host:port` lookup.
pub fn broker_address_map(brokers: &Vec<BrokerInfo>) -> (r: HashMap<i32, String>)
    ensures
        r@.map_values(|s: String| s@) == address_map(brokers@),
{
    let mut m: HashMap<i32, String> = HashMap::new();
    let n = brokers.len();
    assert(m@.map_values(|s: String| s@) =~= address_map(brokers@.take(0)));
    for i in 0..n
        invariant
            n == brokers@.len(),
            m@.map_values(|s: String| s@) == address_map(brokers@.take(i as int)),
    {
        let b = &brokers[i];
        let mut a = crate::text::concat2(b.host.as_str(), ":");
        let p = i32_text(b.port);
        a.append(p.as_str());
        let ghost before = m@;
        m.insert(b.id, a);
        assert(brokers@.take(i + 1).drop_last() =~= brokers@.take(i as int));
        assert(m@.map_values(|s: String| s@) =~= before.map_values(|s: String| s@).insert(b.id, host_port(*b)));
    }
    assert(brokers@.take(n as int) =~= brokers@);
    m
}


/// One row per partition of the topic, each with the broker addresses.
pub fn partition_rows(detail: &TopicDetail, broker_map: &HashMap<i32, String>) -> (r: Vec<PartitionRow>)
    ensures
        r@.len() == detail.partitions@.len(),
        forall|i: int| 0 <= i < r@.len() ==> (#[trigger] r@[i]).info@ == detail.partitions@[i]@
            && r@[i].broker_map@ == broker_map@,
{
    let mut rows: Vec<PartitionRow> = Vec::new();
    let n = detail.partitions.len();
    for i in 0..n
        invariant
            n == detail.partitions@.len(),
            rows@.len() == i,
            forall|j: int| 0 <= j < i ==> (#[trigger] rows@[j]).info@ == detail.partitions@[j]@
                && rows@[j].broker_map@ == broker_map@,
    {
        let p = &detail.partitions[i];
        let info = PartitionInfo {
            id: p.id,
            leader: p.leader,
            replicas: p.replicas.clone(),
            isr: p.isr.clone(),
        };
        rows.push(PartitionRow { info, broker_map: broker_map.clone() });
    }
    rows
}

/// The lines that describe a topic: its name, a blank line, and the table of
/// its partitions with broker addresses taken from `brokers`.
pub fn describe_topic_output(detail: &TopicDetail, brokers: &Vec<BrokerInfo>) -> (r: Vec<String>)
    ensures
        r@.len() == 3,
        r@[0]@ == "Topic: "@ + detail.name@,
        r@[1]@ == Seq::<char>::empty(),
        exists|rows: Seq<PartitionRow>|
            rows.len() == detail.partitions@.len() && (forall|i: int| 0 <= i < rows.len() ==> (#[trigger] rows[i]).info@
                == detail.partitions@[i]@ && rows[i].broker_map@.map_values(|s: String| s@) == address_map(
                brokers@,
            )) && r@[2]@ == items_text(rows),
{
    let broker_map = broker_address_map(brokers);
    let rows = partition_rows(detail, &broker_map);
    let table = items_table(&rows);
    let mut r: Vec<String> = Vec::new();
    r.push(crate::text::concat2("Topic: ", detail.name.as_str()));
    r.push(String::new());
    r.push(table);
    assert(forall|i: int| 0 <= i < rows@.len() ==> (#[trigger] rows@[i]).broker_map@.map_values(|s: String| s@)
        == address_map(brokers@));
    r
}

/// The message after creating a topic.
pub fn topic_created_message(topic: &str, partitions: i32, replication_factor: i16) -> (r: String)
    ensures
        r@ == "Topic '"@ + topic@ + "' created (partitions="@ + int_text(partitions as int) + ", rf="@
            + int_text(replication_factor as int) + ")"@,
{
    let mut m = crate::text::concat3("Topic '", topic, "' created (partitions=");
    m.append(i32_text(partitions).as_str());
    m.append(", rf=");
    m.append(i16_text(replication_factor).as_str());
    m.append(")");
    m
}

/// The message after deleting a topic.
pub fn topic_deleted_message(topic: &str) -> (r: String)
    ensures
        r@ == "Topic '"@ + topic@ + "' deleted"@,
{
    crate::text::concat3("Topic '", topic, "' deleted")
}

/// In the topics table, the cell under each column title is that field of
/// the topic: the name under NAME, the partition count under PARTITIONS,
/// the replication factor under REPLICATION.
pub proof fn law_topic_cells_under_titles(t: TopicInfo)
    ensures
        t.row_cells().len() == t.header_cells().len(),
        forall|i: int| 0 <= i < t.header_cells().len() ==> {
            let h = #[trigger] t.header_cells()[i];
            let c = t.row_cells()[i];
            &&& h == "NAME"@ ==> c == t.name@
            &&& h == "PARTITIONS"@ ==> c == int_text(t.partitions as int)
            &&& h == "REPLICATION"@ ==> c == int_text(t.replication_factor as int)
        },
{
    reveal_strlit("NAME");
    assert("NAME"@.len() == 4 && "NAME"@[0] == 'N');
    reveal_strlit("PARTITIONS");
    assert("PARTITIONS"@.len() == 10 && "PARTITIONS"@[0] == 'P');
    reveal_strlit("REPLICATION");
    assert("REPLICATION"@.len() == 11 && "REPLICATION"@[0] == 'R');
}

/// In the partitions table, the cell under each column title is that field
/// of the partition: its id under ID, its leader under LEADER, its replicas
/// (the leader marked `*`) under REPLICAS and its in-sync replicas under
/// ISR, each broker with its address.
pub proof fn law_partition_cells_under_titles(p: PartitionRow)
    ensures
        p.row_cells().len() == p.header_cells().len(),
        forall|i: int| 0 <= i < p.header_cells().len() ==> {
            let h = #[trigger] p.header_cells()[i];
            let c = p.row_cells()[i];
            let m = p.broker_map@;
            &&& h == "ID"@ ==> c == int_text(p.info.id as int)
            &&& h == "LEADER"@ ==> c == node_label(m, p.info.leader)
            &&& h == "REPLICAS"@ ==> c == join(
                p.info.replicas@.map_values(|b: i32| replica_label(m, b, p.info.leader)),
                ", "@,
            )
            &&& h == "ISR"@ ==> c == join(p.info.isr@.map_values(|b: i32| node_label(m, b)), ", "@)
        },
{
    reveal_strlit("ID");
    assert("ID"@.len() == 2 && "ID"@[0] == 'I');
    reveal_strlit("LEADER");
    assert("LEADER"@.len() == 6 && "LEADER"@[0] == 'L');
    reveal_strlit("REPLICAS");
    assert("REPLICAS"@.len() == 8 && "REPLICAS"@[0] == 'R');
    reveal_strlit("ISR");
    assert("ISR"@.len() == 3 && "ISR"@[0] == 'I');
}

} // verus!
