//! Reading the cluster's replies: topics, brokers, groups and the outcome of
//! administrative requests.

use vstd::prelude::*;
use crate::client::types::{
    BrokerInfo, BrokerInfoView, GroupDetail, GroupInfo, GroupInfoView, GroupMember,
    GroupMemberView, PartitionInfo, PartitionInfoView, TopicDetail, TopicInfo, TopicInfoView,
};
use crate::sorting::{contents, lemma_sorted_contents, sort_by_key, sorted_contents};
use crate::text::{codes, views};

verus! {

/// A partition as the cluster's metadata describes it.
#[derive(Debug)]
pub struct PartitionMetadata {
    pub partition_index: i32,
    pub leader_id: i32,
    pub replica_nodes: Vec<i32>,
    pub isr_nodes: Vec<i32>,
}

/// A topic as the cluster's metadata describes it.
#[derive(Debug)]
pub struct TopicMetadata {
    pub name: Option<String>,
    pub partitions: Vec<PartitionMetadata>,
}

/// A broker as the cluster's metadata describes it.
#[derive(Debug)]
pub struct BrokerMetadata {
    pub node_id: i32,
    pub host: String,
    pub port: i32,
}

/// A group as the group listing describes it.
#[derive(Debug)]
pub struct ListedGroup {
    pub group_id: String,
    pub protocol_type: String,
    pub group_state: String,
}

/// The replication factor shown for a topic: the number of replicas of its
/// first partition, or 0 for a topic without partitions.
pub open spec fn replication_of(t: TopicMetadata) -> i32 {
    if t.partitions@.len() > 0 {
        t.partitions@[0].replica_nodes@.len() as i32
    } else {
        0
    }
}

/// The listing entry of a named topic.
pub open spec fn topic_entry(t: TopicMetadata) -> TopicInfoView {
    TopicInfoView {
        name: t.name.unwrap()@,
        partitions: t.partitions@.len() as usize,
        replication_factor: replication_of(t),
    }
}

/// The topics listed, before sorting: every topic that has a name.
pub open spec fn listed_topics(ts: Seq<TopicMetadata>) -> Seq<TopicInfoView> {
    ts.filter(|t: TopicMetadata| t.name is Some).map_values(|t: TopicMetadata| topic_entry(t))
}

/// The sort key of a listed topic: its name.
pub open spec fn topic_key(v: TopicInfoView) -> Seq<int> {
    codes(v.name)
}

/// Lists the topics of the cluster's metadata: each named topic with its
/// partition count and replication factor, in order of name (topics of
/// equal name keep their order).
pub fn list_topics_from(topics: Vec<TopicMetadata>) -> (r: Vec<TopicInfo>)
    ensures
        sorted_contents(r@, listed_topics(topics@), |v: TopicInfoView| topic_key(v)),
{
    let mut result: Vec<TopicInfo> = Vec::new();
    let n = topics.len();
    for i in 0..n
        invariant
            n == topics@.len(),
            contents(result@) == listed_topics(topics@.take(i as int)),
    {
        let t = &topics[i];
        let ghost pre = topics@.take(i as int);
        assert(topics@.take(i + 1) =~= pre.push(*t));
        proof {
            pre.lemma_filter_push(*t, |t: TopicMetadata| t.name is Some);
        }
        if let Some(name) = &t.name {
            let rf: i32 = if t.partitions.len() > 0 {
                t.partitions[0].replica_nodes.len() as i32
            } else {
                0
            };
            let info = TopicInfo {
                name: name.clone(),
                partitions: t.partitions.len(),
                replication_factor: rf,
            };
            let ghost before = result@;
            result.push(info);
            assert(contents(result@) =~= contents(before).push(topic_entry(*t)));
            assert(listed_topics(topics@.take(i + 1)) =~= listed_topics(pre).push(topic_entry(*t)));
        } else {
            assert(listed_topics(topics@.take(i + 1)) =~= listed_topics(pre));
        }
    }
    assert(topics@.take(n as int) =~= topics@);
    let sorted = sort_by_key(result);
    proof {
        lemma_sorted_contents(result@, sorted@, listed_topics(topics@), |v: TopicInfoView| topic_key(v));
    }
    sorted
}


/// The detail of a partition.
pub open spec fn partition_entry(p: PartitionMetadata) -> PartitionInfoView {
    PartitionInfoView {
        id: p.partition_index,
        leader: p.leader_id,
        replicas: p.replica_nodes@,
        isr: p.isr_nodes@,
    }
}

/// Describes a topic from the cluster's metadata: its partitions with
/// leader, replicas and in-sync replicas, in the metadata's order; an error
/// when the metadata does not know the topic.
pub fn describe_topic_from(topic_name: &str, found: Option<TopicMetadata>) -> (r: Result<
    TopicDetail,
    String,
>)
    ensures
        r is Ok <==> found is Some,
        r matches Ok(d) ==> d.name@ == topic_name@ && contents(d.partitions@) == found.unwrap().partitions@.map_values(
            |p: PartitionMetadata| partition_entry(p),
        ) && d.configs@.len() == 0,
        r matches Ok(d) ==> d.partitions@.len() == found.unwrap().partitions@.len() && forall|i: int|
            0 <= i < d.partitions@.len() ==> {
                let q = #[trigger] d.partitions@[i];
                let m = found.unwrap().partitions@[i];
                &&& q.id == m.partition_index
                &&& q.leader == m.leader_id
                &&& q.replicas@ == m.replica_nodes@
                &&& q.isr@ == m.isr_nodes@
            },
        r matches Err(e) ==> e@ == "Topic '"@ + topic_name@ + "' not found"@,
{
    match found {
        None => Err(crate::text::concat3("Topic '", topic_name, "' not found")),
        Some(tm) => {
            let mut partitions: Vec<PartitionInfo> = Vec::new();
            let n = tm.partitions.len();
            for i in 0..n
                invariant
                    n == tm.partitions@.len(),
                    contents(partitions@) == tm.partitions@.take(i as int).map_values(
                        |p: PartitionMetadata| partition_entry(p),
                    ),
            {
                let p = &tm.partitions[i];
                let info = PartitionInfo {
                    id: p.partition_index,
                    leader: p.leader_id,
                    replicas: p.replica_nodes.clone(),
                    isr: p.isr_nodes.clone(),
                };
                let ghost before = partitions@;
                partitions.push(info);
                assert(contents(partitions@) =~= contents(before).push(partition_entry(*p)));
                assert(tm.partitions@.take(i + 1) =~= tm.partitions@.take(i as int).push(*p));
            }
            assert(tm.partitions@.take(n as int) =~= tm.partitions@);
            assert forall|i: int| 0 <= i < partitions@.len() implies {
                let q = #[trigger] partitions@[i];
                let m = tm.partitions@[i];
                &&& q.id == m.partition_index
                &&& q.leader == m.leader_id
                &&& q.replicas@ == m.replica_nodes@
                &&& q.isr@ == m.isr_nodes@
            } by {
                assert(contents(partitions@)[i] == partitions@[i]@);
                assert(contents(partitions@)[i] == partition_entry(tm.partitions@[i]));
            }
            Ok(TopicDetail {
                name: crate::text::to_owned_string(topic_name),
                partitions,
                configs: Vec::new(),
            })
        },
    }
}

/// The listing entry of a broker of the metadata: it is marked as
/// controller exactly when its id is the controller's.
pub open spec fn broker_entry(b: BrokerMetadata, controller_id: Option<i32>) -> BrokerInfoView {
    BrokerInfoView {
        id: b.node_id,
        host: b.host@,
        port: b.port,
        rack: None,
        is_controller: controller_id == Some(b.node_id),
    }
}

/// The brokers listed, before sorting.
pub open spec fn listed_brokers(bs: Seq<BrokerMetadata>, controller_id: Option<i32>) -> Seq<BrokerInfoView> {
    bs.map_values(|b: BrokerMetadata| broker_entry(b, controller_id))
}

/// The sort key of a listed broker: its id.
pub open spec fn broker_key(v: BrokerInfoView) -> Seq<int> {
    seq![v.id as int]
}

/// Lists the brokers of the cluster's metadata in order of id (brokers of
/// equal id keep their order), the broker whose id is the controller id
/// (as the metadata gives it, if it does) marked as controller.
pub fn list_brokers_from(brokers: Vec<BrokerMetadata>, controller_id: Option<i32>) -> (r: Vec<BrokerInfo>)
    ensures
        sorted_contents(r@, listed_brokers(brokers@, controller_id), |v: BrokerInfoView| broker_key(v)),
{
    let mut result: Vec<BrokerInfo> = Vec::new();
    let n = brokers.len();
    for i in 0..n
        invariant
            n == brokers@.len(),
            contents(result@) == listed_brokers(brokers@.take(i as int), controller_id),
    {
        let b = &brokers[i];
        let is_controller = match controller_id {
            Some(c) => c == b.node_id,
            None => false,
        };
        let info = BrokerInfo {
            id: b.node_id,
            host: b.host.clone(),
            port: b.port,
            rack: None,
            is_controller,
        };
        let ghost before = result@;
        result.push(info);
        assert(contents(result@) =~= contents(before).push(broker_entry(*b, controller_id)));
        assert(listed_brokers(brokers@.take(i + 1), controller_id) =~= listed_brokers(
            brokers@.take(i as int),
            controller_id,
        ).push(broker_entry(*b, controller_id)));
    }
    assert(brokers@.take(n as int) =~= brokers@);
    let sorted = sort_by_key(result);
    proof {
        lemma_sorted_contents(
            result@,
            sorted@,
            listed_brokers(brokers@, controller_id),
            |v: BrokerInfoView| broker_key(v),
        );
    }
    sorted
}

/// The listing entry of a group.
pub open spec fn group_entry(g: ListedGroup) -> GroupInfoView {
    GroupInfoView {
        group_id: g.group_id@,
        protocol: g.protocol_type@,
        state: g.group_state@,
        members: 0,
    }
}

/// The sort key of a listed group: its id.
pub open spec fn group_key(v: GroupInfoView) -> Seq<int> {
    codes(v.group_id)
}

/// Lists the consumer groups in order of id (groups of equal id keep their
/// order).
pub fn list_groups_from(groups: Vec<ListedGroup>) -> (r: Vec<GroupInfo>)
    ensures
        sorted_contents(
            r@,
            groups@.map_values(|g: ListedGroup| group_entry(g)),
            |v: GroupInfoView| group_key(v),
        ),
{
    let mut result: Vec<GroupInfo> = Vec::new();
    let n = groups.len();
    for i in 0..n
        invariant
            n == groups@.len(),
            contents(result@) == groups@.take(i as int).map_values(|g: ListedGroup| group_entry(g)),
    {
        let g = &groups[i];
        let info = GroupInfo {
            group_id: g.group_id.clone(),
            protocol: g.protocol_type.clone(),
            state: g.group_state.clone(),
            members: 0,
        };
        let ghost before = result@;
        result.push(info);
        assert(contents(result@) =~= contents(before).push(group_entry(*g)));
        assert(groups@.take(i + 1) =~= groups@.take(i as int).push(*g));
    }
    assert(groups@.take(n as int) =~= groups@);
    let sorted = sort_by_key(result);
    proof {
        lemma_sorted_contents(
            result@,
            sorted@,
            groups@.map_values(|g: ListedGroup| group_entry(g)),
            |v: GroupInfoView| group_key(v),
        );
    }
    sorted
}

/// The settings of a topic-deletion request: the topic, by name, and how
/// long the cluster may take.
#[derive(Debug)]
pub struct DeleteTopicPlan {
    pub name: String,
    pub timeout_ms: i32,
}

/// The request that deletes one topic by name, with a 10 s timeout.
pub fn delete_topic_plan(name: &str) -> (r: DeleteTopicPlan)
    ensures
        r.name@ == name@,
        r.timeout_ms == 10000,
{
    DeleteTopicPlan { name: crate::text::to_owned_string(name), timeout_ms: 10000 }
}

/// The settings of a request for a group's coordinator.
#[derive(Debug)]
pub struct CoordinatorRequestPlan {
    /// The key looked up (the group id).
    pub key: String,
    /// The kind of key: 0 for a consumer group.
    pub key_type: i8,
    /// The keys of a batched lookup: the group id alone.
    pub coordinator_keys: Vec<String>,
}

/// The request for the coordinator of a consumer group: the group id as a
/// group key (type 0), both as the single key and as the batch of one.
pub fn coordinator_request_plan(group_id: &str) -> (r: CoordinatorRequestPlan)
    ensures
        r.key@ == group_id@,
        r.key_type == 0,
        views(r.coordinator_keys@) == seq![group_id@],
{
    let mut keys: Vec<String> = Vec::new();
    keys.push(crate::text::to_owned_string(group_id));
    assert(views(keys@) =~= seq![group_id@]);
    CoordinatorRequestPlan { key: crate::text::to_owned_string(group_id), key_type: 0, coordinator_keys: keys }
}

/// The settings of a request that describes consumer groups.
#[derive(Debug)]
pub struct DescribeGroupsPlan {
    pub groups: Vec<String>,
    pub include_authorized_operations: bool,
}

/// The request that describes one group, without its authorized
/// operations.
pub fn describe_groups_plan(group_id: &str) -> (r: DescribeGroupsPlan)
    ensures
        views(r.groups@) == seq![group_id@],
        !r.include_authorized_operations,
{
    let mut groups: Vec<String> = Vec::new();
    groups.push(crate::text::to_owned_string(group_id));
    assert(views(groups@) =~= seq![group_id@]);
    DescribeGroupsPlan { groups, include_authorized_operations: false }
}

/// The outcome the cluster reports for one topic of a request.
#[derive(Debug)]
pub struct TopicOutcome {
    pub name: Option<String>,
    pub error_code: i16,
}

/// The settings of a topic-creation request.
#[derive(Debug)]
pub struct CreateTopicPlan {
    pub name: String,
    pub num_partitions: i32,
    pub replication_factor: i16,
    pub timeout_ms: i32,
    pub validate_only: bool,
}

/// The request that creates one topic: the given name, partitions and
/// replication factor, a 10 second timeout, and not only a validation.
pub fn create_topic_plan(name: &str, num_partitions: i32, replication_factor: i16) -> (r: CreateTopicPlan)
    ensures
        r.name@ == name@,
        r.num_partitions == num_partitions,
        r.replication_factor == replication_factor,
        r.timeout_ms == 10000,
        !r.validate_only,
{
    CreateTopicPlan {
        name: crate::text::to_owned_string(name),
        num_partitions,
        replication_factor,
        timeout_ms: 10000,
        validate_only: false,
    }
}

/// The name of a topic outcome, `unknown` when the reply gives none.
pub open spec fn outcome_name(o: TopicOutcome) -> Seq<char> {
    match o.name {
        Some(n) => n@,
        None => "unknown"@,
    }
}

/// The message for a failed topic request.
pub open spec fn topic_failure(verb: Seq<char>, o: TopicOutcome) -> Seq<char> {
    "Failed to "@ + verb + " topic '"@ + outcome_name(o) + "': error code "@ + crate::number::int_text(
        o.error_code as int,
    )
}

/// `i` is the first outcome of the sequence that `accepted` refuses.
pub open spec fn first_refused(s: Seq<TopicOutcome>, accepted: spec_fn(i16) -> bool, i: int) -> bool {
    0 <= i < s.len() && !accepted(s[i].error_code) && forall|j: int| 0 <= j < i ==> accepted(#[trigger] s[j].error_code)
}

/// Whether creating a topic succeeded: error code 0, or 36 (the topic
/// already exists).
pub open spec fn create_accepted(code: i16) -> bool {
    code == 0 || code == 36
}

/// Whether deleting a topic succeeded: error code 0.
pub open spec fn delete_accepted(code: i16) -> bool {
    code == 0
}

fn failure_message(verb: &str, o: &TopicOutcome) -> (r: String)
    ensures
        r@ == topic_failure(verb@, *o),
{
    let mut m = crate::text::concat3("Failed to ", verb, " topic '");
    match &o.name {
        Some(n) => m.append(n.as_str()),
        None => m.append("unknown"),
    }
    m.append("': error code ");
    let code = crate::number::i16_text(o.error_code);
    m.append(code.as_str());
    m
}

/// Checks the reply to a topic-creation request: an error for the first
/// topic whose code is neither 0 nor 36 (already exists).
pub fn check_create_outcomes(outcomes: &Vec<TopicOutcome>) -> (r: Result<(), String>)
    ensures
        r is Ok <==> forall|i: int| 0 <= i < outcomes@.len() ==> create_accepted(#[trigger] outcomes@[i].error_code),
        r matches Err(e) ==> exists|i: int| first_refused(outcomes@, |c: i16| create_accepted(c), i)
            && e@ == topic_failure("create"@, outcomes@[i]),
{
    let n = outcomes.len();
    for i in 0..n
        invariant
            n == outcomes@.len(),
            forall|j: int| 0 <= j < i ==> create_accepted(#[trigger] outcomes@[j].error_code),
    {
        let o = &outcomes[i];
        if o.error_code != 0 && o.error_code != 36 {
            assert(first_refused(outcomes@, |c: i16| create_accepted(c), i as int));
            return Err(failure_message("create", o));
        }
    }
    Ok(())
}

/// Checks the reply to a topic-deletion request: an error for the first
/// topic whose code is not 0.
pub fn check_delete_outcomes(outcomes: &Vec<TopicOutcome>) -> (r: Result<(), String>)
    ensures
        r is Ok <==> forall|i: int| 0 <= i < outcomes@.len() ==> delete_accepted(#[trigger] outcomes@[i].error_code),
        r matches Err(e) ==> exists|i: int| first_refused(outcomes@, |c: i16| delete_accepted(c), i)
            && e@ == topic_failure("delete"@, outcomes@[i]),
{
    let n = outcomes.len();
    for i in 0..n
        invariant
            n == outcomes@.len(),
            forall|j: int| 0 <= j < i ==> delete_accepted(#[trigger] outcomes@[j].error_code),
    {
        let o = &outcomes[i];
        if o.error_code != 0 {
            assert(first_refused(outcomes@, |c: i16| delete_accepted(c), i as int));
            return Err(failure_message("delete", o));
        }
    }
    Ok(())
}


/// One coordinator of a find-coordinator reply.
#[derive(Debug)]
pub struct CoordinatorEntry {
    pub node_id: i32,
    pub host: String,
    pub port: i32,
    pub error_code: i16,
}

/// A find-coordinator reply: the coordinator given directly (older
/// versions) and the list of coordinators (newer versions).
#[derive(Debug)]
pub struct CoordinatorReply {
    pub error_code: i16,
    pub node_id: i32,
    pub host: String,
    pub port: i32,
    pub coordinators: Vec<CoordinatorEntry>,
}

/// The error code meaning that the group coordinator is not available yet
/// (the request is worth repeating).
pub open spec fn coordinator_not_available() -> i16 {
    15
}

/// The most find-coordinator requests sent for one group.
pub open spec fn max_coordinator_attempts() -> u32 {
    30
}

/// Whether a reply says to ask again: the coordinator is not available,
/// either in the reply itself or in its first listed coordinator.
pub open spec fn reply_is_retryable(r: CoordinatorReply) -> bool {
    r.error_code == coordinator_not_available() || (r.coordinators@.len() > 0
        && r.coordinators@[0].error_code == coordinator_not_available())
}

/// The search for a group's coordinator: how many requests were sent.
#[derive(Debug)]
pub struct CoordinatorLookup {
    attempts: u32,
}

impl CoordinatorLookup {
    #[verifier::type_invariant]
    spec fn bounded(&self) -> bool {
        self.attempts <= 30
    }

    /// The number of requests sent so far.
    pub closed spec fn sent(&self) -> nat {
        self.attempts as nat
    }

    /// A search that has sent nothing.
    pub fn new() -> (r: Self)
        ensures
            r.sent() == 0,
    {
        CoordinatorLookup { attempts: 0 }
    }

    /// Whether another request may be sent; when it may, it is counted.
    /// No more than 30 requests are ever allowed.
    pub fn begin_attempt(&mut self) -> (r: bool)
        ensures
            r == (old(self).sent() < max_coordinator_attempts()),
            r ==> final(self).sent() == old(self).sent() + 1,
            !r ==> final(self).sent() == old(self).sent(),
            final(self).sent() <= max_coordinator_attempts(),
    {
        proof {
            use_type_invariant(&*self);
        }
        if self.attempts < 30 {
            self.attempts = self.attempts + 1;
            true
        } else {
            false
        }
    }

    /// Whether a reply says to wait and ask again.
    pub fn must_retry(reply: &CoordinatorReply) -> (r: bool)
        ensures
            r == reply_is_retryable(*reply),
    {
        reply.error_code == 15 || (reply.coordinators.len() > 0 && reply.coordinators[0].error_code
            == 15)
    }

    /// How long to wait before asking again, in milliseconds.
    pub fn retry_delay_ms() -> (r: u64)
        ensures
            r == 500,
    {
        500
    }

    /// The error once every allowed request was answered "not available".
    pub fn give_up_message() -> (r: String)
        ensures
            r@ == "Group coordinator not available after retries"@,
    {
        String::from_str("Group coordinator not available after retries")
    }
}

/// The coordinator a reply names: the one given directly when its host is
/// set, otherwise the first listed one, otherwise none.
pub open spec fn spec_coordinator(r: CoordinatorReply) -> Option<BrokerInfoView> {
    if r.host@.len() > 0 {
        Some(BrokerInfoView { id: r.node_id, host: r.host@, port: r.port, rack: None, is_controller: false })
    } else if r.coordinators@.len() > 0 {
        let c = r.coordinators@[0];
        Some(BrokerInfoView { id: c.node_id, host: c.host@, port: c.port, rack: None, is_controller: false })
    } else {
        None
    }
}

/// The group coordinator named by a reply, or an error when it names none.
pub fn coordinator_from(reply: &CoordinatorReply) -> (r: Result<BrokerInfo, String>)
    ensures
        r is Ok <==> spec_coordinator(*reply) is Some,
        r matches Ok(b) ==> Some(b@) == spec_coordinator(*reply),
        r matches Err(e) ==> e@ == "Failed to find group coordinator"@,
{
    if reply.host.as_str().unicode_len() > 0 {
        Ok(BrokerInfo {
            id: reply.node_id,
            host: reply.host.clone(),
            port: reply.port,
            rack: None,
            is_controller: false,
        })
    } else if reply.coordinators.len() > 0 {
        let c = &reply.coordinators[0];
        Ok(BrokerInfo { id: c.node_id, host: c.host.clone(), port: c.port, rack: None, is_controller: false })
    } else {
        Err(String::from_str("Failed to find group coordinator"))
    }
}

/// A member as the group description gives it.
#[derive(Debug)]
pub struct DescribedMember {
    pub member_id: String,
    pub client_id: String,
    pub client_host: String,
}

/// A group as the group description gives it.
#[derive(Debug)]
pub struct DescribedGroup {
    pub group_state: String,
    pub members: Vec<DescribedMember>,
}

/// A member of the group detail (its assignment is not read).
pub open spec fn member_entry(m: DescribedMember) -> GroupMemberView {
    GroupMemberView {
        member_id: m.member_id@,
        client_id: m.client_id@,
        client_host: m.client_host@,
        assignment_len: 0,
    }
}

/// Describes a group from the first group of the description reply and its
/// coordinator; an error when the reply describes no group.
pub fn group_detail_from(group_id: &str, coordinator: BrokerInfo, described: Option<DescribedGroup>) -> (r: Result<
    GroupDetail,
    String,
>)
    ensures
        r is Ok <==> described is Some,
        r matches Ok(d) ==> d.group_id@ == group_id@ && d.state@ == described.unwrap().group_state@
            && d.coordinator == Some(coordinator) && contents(d.members@)
            == described.unwrap().members@.map_values(|m: DescribedMember| member_entry(m)),
        r matches Err(e) ==> e@ == "Group '"@ + group_id@ + "' not found"@,
{
    match described {
        None => Err(crate::text::concat3("Group '", group_id, "' not found")),
        Some(g) => {
            let mut members: Vec<GroupMember> = Vec::new();
            let n = g.members.len();
            for i in 0..n
                invariant
                    n == g.members@.len(),
                    contents(members@) == g.members@.take(i as int).map_values(
                        |m: DescribedMember| member_entry(m),
                    ),
            {
                let m = &g.members[i];
                let member = GroupMember {
                    member_id: m.member_id.clone(),
                    client_id: m.client_id.clone(),
                    client_host: m.client_host.clone(),
                    assignment: Vec::new(),
                };
                let ghost before = members@;
                members.push(member);
                assert(contents(members@) =~= contents(before).push(member_entry(*m)));
                assert(g.members@.take(i + 1) =~= g.members@.take(i as int).push(*m));
            }
            assert(g.members@.take(n as int) =~= g.members@);
            Ok(GroupDetail {
                group_id: crate::text::to_owned_string(group_id),
                state: g.group_state,
                coordinator: Some(coordinator),
                members,
            })
        },
    }
}

/// What each reply field becomes when a topic, partition, broker, group or
/// member is shown: a listed topic keeps its name, counts its partitions and
/// takes its replication factor from its first partition's replicas; a
/// described partition keeps its index, leader, replicas and in-sync
/// replicas as the metadata gives them; a listed broker keeps its id, host
/// and port, has no rack, and is the controller exactly when its id is the
/// controller id; a listed group keeps its id, protocol type and state, with
/// no member count; a described member keeps its member id, client id and
/// client host.
pub proof fn law_reply_fields_are_kept(
    t: TopicMetadata,
    p: PartitionMetadata,
    b: BrokerMetadata,
    controller_id: Option<i32>,
    g: ListedGroup,
    m: DescribedMember,
)
    requires
        t.name is Some,
    ensures
        topic_entry(t).name == t.name.unwrap()@,
        topic_entry(t).partitions == t.partitions.len(),
        t.partitions@.len() > 0 ==> topic_entry(t).replication_factor == t.partitions@[0].replica_nodes.len() as i32,
        t.partitions@.len() == 0 ==> topic_entry(t).replication_factor == 0,
        partition_entry(p).id == p.partition_index,
        partition_entry(p).leader == p.leader_id,
        partition_entry(p).replicas == p.replica_nodes@,
        partition_entry(p).isr == p.isr_nodes@,
        broker_entry(b, controller_id).id == b.node_id,
        broker_entry(b, controller_id).host == b.host@,
        broker_entry(b, controller_id).port == b.port,
        broker_entry(b, controller_id).rack is None,
        broker_entry(b, controller_id).is_controller <==> controller_id == Some(b.node_id),
        group_entry(g).group_id == g.group_id@,
        group_entry(g).protocol == g.protocol_type@,
        group_entry(g).state == g.group_state@,
        group_entry(g).members == 0,
        member_entry(m).member_id == m.member_id@,
        member_entry(m).client_id == m.client_id@,
        member_entry(m).client_host == m.client_host@,
{
}

/// The coordinator named by a reply: when the reply's own host is set, the
/// node, host and port the reply gives; otherwise the first listed
/// coordinator's; none when neither is there. It is never marked controller
/// and has no rack.
pub proof fn law_coordinator_from_reply(r: CoordinatorReply)
    ensures
        r.host@.len() > 0 ==> (spec_coordinator(r) matches Some(b) && b.id == r.node_id && b.host == r.host@
            && b.port == r.port),
        r.host@.len() == 0 && r.coordinators@.len() > 0 ==> (spec_coordinator(r) matches Some(b) && b.id
            == r.coordinators@[0].node_id && b.host == r.coordinators@[0].host@ && b.port
            == r.coordinators@[0].port),
        r.host@.len() == 0 && r.coordinators@.len() == 0 ==> spec_coordinator(r) is None,
        spec_coordinator(r) matches Some(b) ==> !b.is_controller && b.rack is None,
{
}

} // verus!
