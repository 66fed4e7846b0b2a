//! CLI-friendly data types, mapped from the cluster's protocol replies.

use vstd::prelude::*;
use crate::sorting::SortKey;
use crate::text::{codes, str_lt};

verus! {

/// A topic, as listed.
#[derive(Debug)]
pub struct TopicInfo {
    pub name: String,
    pub partitions: usize,
    pub replication_factor: i32,
}

/// A topic with its partitions.
#[derive(Debug)]
pub struct TopicDetail {
    pub name: String,
    pub partitions: Vec<PartitionInfo>,
    pub configs: Vec<(String, String)>,
}

/// One partition of a topic: its leader, replicas and in-sync replicas.
#[derive(Debug)]
pub struct PartitionInfo {
    pub id: i32,
    pub leader: i32,
    pub replicas: Vec<i32>,
    pub isr: Vec<i32>,
}

/// A broker of the cluster.
#[derive(Debug)]
pub struct BrokerInfo {
    pub id: i32,
    pub host: String,
    pub port: i32,
    pub rack: Option<String>,
    pub is_controller: bool,
}

/// A consumer group, as listed.
#[derive(Debug)]
pub struct GroupInfo {
    pub group_id: String,
    pub protocol: String,
    pub state: String,
    pub members: i32,
}

/// A consumer group with its coordinator and members.
#[derive(Debug)]
pub struct GroupDetail {
    pub group_id: String,
    pub state: String,
    pub coordinator: Option<BrokerInfo>,
    pub members: Vec<GroupMember>,
}

/// A member of a consumer group.
#[derive(Debug)]
pub struct GroupMember {
    pub member_id: String,
    pub client_id: String,
    pub client_host: String,
    pub assignment: Vec<TopicPartition>,
}

/// Committed offset (and lag) for a single topic-partition of a group.
#[derive(Debug)]
pub struct GroupOffsetInfo {
    pub group: String,
    pub topic: String,
    pub partition: i32,
    pub committed_offset: i64,
    pub log_end_offset: i64,
    pub lag: i64,
    pub metadata: String,
}

/// Partitions of one topic.
#[derive(Debug)]
pub struct TopicPartition {
    pub topic: String,
    pub partitions: Vec<i32>,
}

impl SortKey for TopicInfo {
    /// Topics are ordered by name.
    open spec fn sort_key(&self) -> Seq<int> {
        codes(self.name@)
    }

    fn key_lt(&self, other: &Self) -> (r: bool) {
        str_lt(self.name.as_str(), other.name.as_str())
    }
}

impl SortKey for GroupInfo {
    /// Groups are ordered by id.
    open spec fn sort_key(&self) -> Seq<int> {
        codes(self.group_id@)
    }

    fn key_lt(&self, other: &Self) -> (r: bool) {
        str_lt(self.group_id.as_str(), other.group_id.as_str())
    }
}

impl SortKey for BrokerInfo {
    /// Brokers are ordered by id.
    open spec fn sort_key(&self) -> Seq<int> {
        seq![self.id as int]
    }

    fn key_lt(&self, other: &Self) -> (r: bool) {
        let r = self.id < other.id;
        proof {
            let a = seq![self.id as int];
            let b = seq![other.id as int];
            if r {
                assert(crate::text::lex_lt_at(a, b, 0));
            } else if crate::text::lex_lt(a, b) {
                let k = choose|k: int| crate::text::lex_lt_at(a, b, k);
                assert(k == 0);
            }
        }
        r
    }
}


/// The content of a `TopicInfo`.
pub struct TopicInfoView {
    pub name: Seq<char>,
    pub partitions: usize,
    pub replication_factor: i32,
}

impl View for TopicInfo {
    type V = TopicInfoView;

    open spec fn view(&self) -> TopicInfoView {
        TopicInfoView {
            name: self.name@,
            partitions: self.partitions,
            replication_factor: self.replication_factor,
        }
    }
}

/// The content of a `PartitionInfo`.
pub struct PartitionInfoView {
    pub id: i32,
    pub leader: i32,
    pub replicas: Seq<i32>,
    pub isr: Seq<i32>,
}

impl View for PartitionInfo {
    type V = PartitionInfoView;

    open spec fn view(&self) -> PartitionInfoView {
        PartitionInfoView {
            id: self.id,
            leader: self.leader,
            replicas: self.replicas@,
            isr: self.isr@,
        }
    }
}

/// The content of a `BrokerInfo`.
pub struct BrokerInfoView {
    pub id: i32,
    pub host: Seq<char>,
    pub port: i32,
    pub rack: Option<Seq<char>>,
    pub is_controller: bool,
}

impl View for BrokerInfo {
    type V = BrokerInfoView;

    open spec fn view(&self) -> BrokerInfoView {
        BrokerInfoView {
            id: self.id,
            host: self.host@,
            port: self.port,
            rack: self.rack.deep_view(),
            is_controller: self.is_controller,
        }
    }
}

/// The content of a `GroupInfo`.
pub struct GroupInfoView {
    pub group_id: Seq<char>,
    pub protocol: Seq<char>,
    pub state: Seq<char>,
    pub members: i32,
}

impl View for GroupInfo {
    type V = GroupInfoView;

    open spec fn view(&self) -> GroupInfoView {
        GroupInfoView {
            group_id: self.group_id@,
            protocol: self.protocol@,
            state: self.state@,
            members: self.members,
        }
    }
}

/// The content of a `GroupMember` (its assignment is given by count).
pub struct GroupMemberView {
    pub member_id: Seq<char>,
    pub client_id: Seq<char>,
    pub client_host: Seq<char>,
    pub assignment_len: nat,
}

impl View for GroupMember {
    type V = GroupMemberView;

    open spec fn view(&self) -> GroupMemberView {
        GroupMemberView {
            member_id: self.member_id@,
            client_id: self.client_id@,
            client_host: self.client_host@,
            assignment_len: self.assignment@.len(),
        }
    }
}

/// The content of a `GroupOffsetInfo`.
pub struct GroupOffsetInfoView {
    pub group: Seq<char>,
    pub topic: Seq<char>,
    pub partition: i32,
    pub committed_offset: i64,
    pub log_end_offset: i64,
    pub lag: i64,
    pub metadata: Seq<char>,
}

impl View for GroupOffsetInfo {
    type V = GroupOffsetInfoView;

    open spec fn view(&self) -> GroupOffsetInfoView {
        GroupOffsetInfoView {
            group: self.group@,
            topic: self.topic@,
            partition: self.partition,
            committed_offset: self.committed_offset,
            log_end_offset: self.log_end_offset,
            lag: self.lag,
            metadata: self.metadata@,
        }
    }
}

/// The contents of a sequence of items.
pub open spec fn seq_view<T: View>(s: Seq<T>) -> Seq<T::V> {
    s.map_values(|x: T| x@)
}

} // verus!
