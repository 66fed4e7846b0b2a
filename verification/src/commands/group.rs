//! `group`: how consumer groups, members and offsets are shown, and the
//! rules of committing offsets.

use vstd::prelude::*;
use crate::cli::output::{items_table, items_text, TableRow};
use crate::client::types::{GroupDetail, GroupInfo, GroupMember, GroupOffsetInfo};
use crate::number::{i32_text, i64_text, int_text, parse_i64, parse_i64_text};
use crate::text::{lowercase, to_lowercase, views};

verus! {

impl TableRow for GroupInfo {
    open spec fn header_cells(&self) -> Seq<Seq<char>> {
        seq!["GROUP ID"@, "PROTOCOL"@, "STATE"@]
    }

    open spec fn row_cells(&self) -> Seq<Seq<char>> {
        seq![self.group_id@, self.protocol@, self.state@]
    }

    fn headers(&self) -> (r: Vec<String>) {
        let mut r: Vec<String> = Vec::new();
        r.push(String::from_str("GROUP ID"));
        r.push(String::from_str("PROTOCOL"));
        r.push(String::from_str("STATE"));
        assert(views(r@) =~= self.header_cells());
        r
    }

    fn row(&self) -> (r: Vec<String>) {
        let mut r: Vec<String> = Vec::new();
        r.push(self.group_id.clone());
        r.push(self.protocol.clone());
        r.push(self.state.clone());
        assert(views(r@) =~= self.row_cells());
        r
    }
}

impl TableRow for GroupMember {
    open spec fn header_cells(&self) -> Seq<Seq<char>> {
        seq!["MEMBER ID"@, "CLIENT ID"@, "CLIENT HOST"@]
    }

    open spec fn row_cells(&self) -> Seq<Seq<char>> {
        seq![self.member_id@, self.client_id@, self.client_host@]
    }

    fn headers(&self) -> (r: Vec<String>) {
        let mut r: Vec<String> = Vec::new();
        r.push(String::from_str("MEMBER ID"));
        r.push(String::from_str("CLIENT ID"));
        r.push(String::from_str("CLIENT HOST"));
        assert(views(r@) =~= self.header_cells());
        r
    }

    fn row(&self) -> (r: Vec<String>) {
        let mut r: Vec<String> = Vec::new();
        r.push(self.member_id.clone());
        r.push(self.client_id.clone());
        r.push(self.client_host.clone());
        assert(views(r@) =~= self.row_cells());
        r
    }
}

/// An offset shown in a table: `-` when it is unknown (negative).
pub open spec fn known_offset_text(v: i64) -> Seq<char> {
    if v < 0 {
        "-"@
    } else {
        int_text(v as int)
    }
}

fn known_offset(v: i64) -> (r: String)
    ensures
        r@ == known_offset_text(v),
{
    if v < 0 {
        String::from_str("-")
    } else {
        i64_text(v)
    }
}

impl TableRow for GroupOffsetInfo {
    open spec fn header_cells(&self) -> Seq<Seq<char>> {
        seq!["GROUP"@, "TOPIC"@, "PARTITION"@, "COMMITTED"@, "LOG-END"@, "LAG"@, "METADATA"@]
    }

    open spec fn row_cells(&self) -> Seq<Seq<char>> {
        seq![
            self.group@,
            self.topic@,
            int_text(self.partition as int),
            int_text(self.committed_offset as int),
            known_offset_text(self.log_end_offset),
            known_offset_text(self.lag),
            self.metadata@,
        ]
    }

    fn headers(&self) -> (r: Vec<String>) {
        let mut r: Vec<String> = Vec::new();
        r.push(String::from_str("GROUP"));
        r.push(String::from_str("TOPIC"));
        r.push(String::from_str("PARTITION"));
        r.push(String::from_str("COMMITTED"));
        r.push(String::from_str("LOG-END"));
        r.push(String::from_str("LAG"));
        r.push(String::from_str("METADATA"));
        assert(views(r@) =~= self.header_cells());
        r
    }

    fn row(&self) -> (r: Vec<String>) {
        let mut r: Vec<String> = Vec::new();
        r.push(self.group.clone());
        r.push(self.topic.clone());
        r.push(i32_text(self.partition));
        r.push(i64_text(self.committed_offset));
        r.push(known_offset(self.log_end_offset));
        r.push(known_offset(self.lag));
        r.push(self.metadata.clone());
        assert(views(r@) =~= self.row_cells());
        r
    }
}

/// The offset that a lower-cased `--offset` value names: `earliest` is -2,
/// `latest` is -1, anything else must be a decimal `i64`.
pub open spec fn spec_offset_from_lowered(lowered: Seq<char>) -> Result<i64, Seq<char>> {
    if lowered == "earliest"@ {
        Ok(-2i64)
    } else if lowered == "latest"@ {
        Ok(-1i64)
    } else {
        match parse_i64(lowered) {
            Some(v) => Ok(v),
            None => Err("Invalid offset: "@ + lowered),
        }
    }
}

/// The content of an offset or its error message.
pub open spec fn offset_result_view(r: Result<i64, String>) -> Result<i64, Seq<char>> {
    match r {
        Ok(v) => Ok(v),
        Err(e) => Err(e@),
    }
}

/// The offset named by an already lower-cased `--offset` value.
pub fn offset_from_lowered(lowered: &str) -> (r: Result<i64, String>)
    ensures
        offset_result_view(r) == spec_offset_from_lowered(lowered@),
{
    if crate::text::str_eq(lowered, "earliest") {
        Ok(-2i64)
    } else if crate::text::str_eq(lowered, "latest") {
        Ok(-1i64)
    } else {
        match parse_i64_text(lowered) {
            Some(v) => Ok(v),
            None => Err(crate::text::concat2("Invalid offset: ", lowered)),
        }
    }
}

/// The offset a `--offset` value names, compared without regard to case
/// (the value is lower-cased first, and an error quotes the lower-cased
/// value).
pub fn parse_commit_offset(offset: &str) -> (r: Result<i64, String>)
    ensures
        offset_result_view(r) == spec_offset_from_lowered(lowercase(offset@)),
{
    let lowered = to_lowercase(offset);
    offset_from_lowered(lowered.as_str())
}

/// Which partitions an offset commit applies to.
#[derive(Debug)]
pub enum CommitScope {
    /// Every partition of the topic.
    AllPartitions,
    /// The one partition given.
    Partition(i32),
}

/// The partitions a commit applies to: all of them when asked, otherwise
/// the one given; an error when neither is given.
pub fn commit_scope(partition: Option<i32>, all_partitions: bool) -> (r: Result<CommitScope, String>)
    ensures
        all_partitions ==> r matches Ok(CommitScope::AllPartitions),
        !all_partitions && partition is Some ==> (r matches Ok(CommitScope::Partition(p)) && p
            == partition.unwrap()),
        !all_partitions && partition is None ==> (r matches Err(e) && e@
            == "Must specify --partition or --all-partitions"@),
{
    if all_partitions {
        Ok(CommitScope::AllPartitions)
    } else {
        match partition {
            Some(p) => Ok(CommitScope::Partition(p)),
            None => Err(String::from_str("Must specify --partition or --all-partitions")),
        }
    }
}

/// An offset to commit for one partition.
#[derive(Debug)]
pub struct OffsetCommitSpec {
    pub topic: String,
    pub partition: i32,
    pub offset: i64,
    pub metadata: Option<String>,
}

/// The commits of one offset for the given partitions of a topic, in order,
/// without metadata.
pub fn commit_specs(topic: &str, partitions: &Vec<i32>, offset: i64) -> (r: Vec<OffsetCommitSpec>)
    ensures
        r@.len() == partitions@.len(),
        forall|i: int| 0 <= i < r@.len() ==> (#[trigger] r@[i]).topic@ == topic@ && r@[i].partition
            == partitions@[i] && r@[i].offset == offset && r@[i].metadata is None,
{
    let mut r: Vec<OffsetCommitSpec> = Vec::new();
    let n = partitions.len();
    for i in 0..n
        invariant
            n == partitions@.len(),
            r@.len() == i,
            forall|j: int| 0 <= j < i ==> (#[trigger] r@[j]).topic@ == topic@ && r@[j].partition
                == partitions@[j] && r@[j].offset == offset && r@[j].metadata is None,
    {
        r.push(OffsetCommitSpec {
            topic: crate::text::to_owned_string(topic),
            partition: partitions[i],
            offset,
            metadata: None,
        });
    }
    r
}

/// The message after committing offsets.
pub fn committed_message(offset: &str, group: &str, topic: &str, scope: &CommitScope) -> (r: String)
    ensures
        r@ == "Committed offset '"@ + offset@ + "' for group '"@ + group@ + "' on topic '"@ + topic@
            + match scope {
            CommitScope::AllPartitions => "' (all partitions)"@,
            CommitScope::Partition(p) => "' partition "@ + int_text(*p as int),
        },
{
    let mut m = crate::text::concat3("Committed offset '", offset, "' for group '");
    m.append(group);
    m.append("' on topic '");
    m.append(topic);
    match scope {
        CommitScope::AllPartitions => m.append("' (all partitions)"),
        CommitScope::Partition(p) => {
            m.append("' partition ");
            m.append(i32_text(*p).as_str());
        },
    }
    m
}

/// The offsets of the given topic (all of them when no topic is given), in
/// order.
pub fn offsets_for_topic(offsets: Vec<GroupOffsetInfo>, topic: &Option<String>) -> (r: Vec<GroupOffsetInfo>)
    ensures
        topic is None ==> r@ == offsets@,
        topic matches Some(t) ==> r@ == offsets@.filter(|o: GroupOffsetInfo| o.topic@ == t@),
{
    match topic {
        None => offsets,
        Some(t) => {
            let mut r: Vec<GroupOffsetInfo> = Vec::new();
            let mut offsets = offsets;
            let ghost s = offsets@;
            let ghost p = |o: GroupOffsetInfo| o.topic@ == t@;
            let ghost mut rest: Seq<GroupOffsetInfo> = Seq::empty();
            while offsets.len() > 0
                invariant
                    s == offsets@ + rest,
                    r@ == rest.filter(p),
                    p == (|o: GroupOffsetInfo| o.topic@ == t@),
                decreases offsets@.len(),
            {
                let ghost before = offsets@;
                let o = offsets.pop().unwrap();
                let ghost og = o;
                assert(before == offsets@.push(o));
                let keep = crate::text::str_eq(o.topic.as_str(), t.as_str());
                let ghost old_r = r@;
                proof {
                    Seq::filter_distributes_over_add(seq![og], rest, p);
                    reveal(Seq::filter);
                    assert(seq![og].drop_last() =~= Seq::<GroupOffsetInfo>::empty());
                    assert(Seq::<GroupOffsetInfo>::empty().filter(p) =~= Seq::<GroupOffsetInfo>::empty());
                    assert(keep == p(og));
                    if keep {
                        assert(seq![og].filter(p) =~= seq![og]);
                    } else {
                        assert(seq![og].filter(p) =~= Seq::<GroupOffsetInfo>::empty());
                    }
                }
                if keep {
                    r.insert(0, o);
                    assert(r@ =~= seq![og] + old_r);
                }
                proof {
                    rest = seq![og] + rest;
                }
                assert(s =~= offsets@ + rest);
                assert(r@ =~= rest.filter(p));
            }
            assert(rest =~= s);
            r
        },
    }
}


/// The note when no offsets are found: which group (or any group) and which
/// topic (if one) was asked for.
pub open spec fn spec_no_offsets_message(group: Option<Seq<char>>, topic: Option<Seq<char>>) -> Seq<char> {
    "No committed offsets found"@ + match group {
        Some(g) => " for group '"@ + g + "'"@,
        None => " for any group"@,
    } + match topic {
        Some(t) => " on topic '"@ + t + "'"@,
        None => Seq::empty(),
    }
}

/// The note when no offsets are found.
pub fn no_offsets_message(group: &Option<String>, topic: &Option<String>) -> (r: String)
    ensures
        r@ == spec_no_offsets_message(group.deep_view(), topic.deep_view()),
{
    let mut m = String::from_str("No committed offsets found");
    match group {
        Some(g) => {
            m.append(" for group '");
            m.append(g.as_str());
            m.append("'");
        },
        None => m.append(" for any group"),
    }
    match topic {
        Some(t) => {
            m.append(" on topic '");
            m.append(t.as_str());
            m.append("'");
        },
        None => {},
    }
    proof {
        reveal_strlit("");
    }
    assert(m@ =~= spec_no_offsets_message(group.deep_view(), topic.deep_view()));
    m
}

/// What `group offsets` shows: the offsets of the topic asked for (all
/// offsets when none is), as a table, or a note when there are none.
pub fn show_offsets_output(offsets: Vec<GroupOffsetInfo>, group: &Option<String>, topic: &Option<String>) -> (r: String)
    ensures
        ({
            let shown = match topic {
                Some(t) => offsets@.filter(|o: GroupOffsetInfo| o.topic@ == t@),
                None => offsets@,
            };
            r@ == if shown.len() == 0 {
                spec_no_offsets_message(group.deep_view(), topic.deep_view())
            } else {
                items_text(shown)
            }
        }),
{
    let shown = offsets_for_topic(offsets, topic);
    if shown.len() == 0 {
        no_offsets_message(group, topic)
    } else {
        items_table(&shown)
    }
}

/// The lines that describe a group: its id, a blank line, and the table of
/// its members or a note that it has none.
pub fn describe_group_output(detail: &GroupDetail) -> (r: Vec<String>)
    ensures
        r@.len() == 3,
        r@[0]@ == "Group: "@ + detail.group_id@,
        r@[1]@ == Seq::<char>::empty(),
        r@[2]@ == if detail.members@.len() == 0 {
            "  No active members."@
        } else {
            items_text(detail.members@)
        },
{
    let mut r: Vec<String> = Vec::new();
    r.push(crate::text::concat2("Group: ", detail.group_id.as_str()));
    r.push(String::new());
    if detail.members.len() == 0 {
        r.push(String::from_str("  No active members."));
    } else {
        r.push(items_table(&detail.members));
    }
    r
}

/// The message after deleting a group.
pub fn group_deleted_message(group: &str) -> (r: String)
    ensures
        r@ == "Group '"@ + group@ + "' deleted"@,
{
    crate::text::concat3("Group '", group, "' deleted")
}

/// In the offsets table, the cell under each column title is that field of
/// the offset: the group under GROUP, the topic under TOPIC, the partition
/// under PARTITION, the committed offset under COMMITTED, the log-end offset
/// under LOG-END and the lag under LAG (`-` when unknown), the metadata
/// under METADATA; there is one cell per title.
pub proof fn law_offset_cells_under_titles(o: GroupOffsetInfo)
    ensures
        o.row_cells().len() == o.header_cells().len(),
        forall|i: int| 0 <= i < o.header_cells().len() ==> {
            let h = #[trigger] o.header_cells()[i];
            let c = o.row_cells()[i];
            &&& h == "GROUP"@ ==> c == o.group@
            &&& h == "TOPIC"@ ==> c == o.topic@
            &&& h == "PARTITION"@ ==> c == int_text(o.partition as int)
            &&& h == "COMMITTED"@ ==> c == int_text(o.committed_offset as int)
            &&& h == "LOG-END"@ ==> c == known_offset_text(o.log_end_offset)
            &&& h == "LAG"@ ==> c == known_offset_text(o.lag)
            &&& h == "METADATA"@ ==> c == o.metadata@
        },
{
    reveal_strlit("GROUP");
    assert("GROUP"@.len() == 5 && "GROUP"@[0] == 'G');
    reveal_strlit("TOPIC");
    assert("TOPIC"@.len() == 5 && "TOPIC"@[0] == 'T');
    reveal_strlit("PARTITION");
    assert("PARTITION"@.len() == 9 && "PARTITION"@[0] == 'P');
    reveal_strlit("COMMITTED");
    assert("COMMITTED"@.len() == 9 && "COMMITTED"@[0] == 'C');
    reveal_strlit("LOG-END");
    assert("LOG-END"@.len() == 7 && "LOG-END"@[0] == 'L');
    reveal_strlit("LAG");
    assert("LAG"@.len() == 3 && "LAG"@[0] == 'L');
    reveal_strlit("METADATA");
    assert("METADATA"@.len() == 8 && "METADATA"@[0] == 'M');
}

/// In the groups table, the cell under each column title is that field of
/// the group.
pub proof fn law_group_cells_under_titles(g: GroupInfo)
    ensures
        g.row_cells().len() == g.header_cells().len(),
        forall|i: int| 0 <= i < g.header_cells().len() ==> {
            let h = #[trigger] g.header_cells()[i];
            let c = g.row_cells()[i];
            &&& h == "GROUP ID"@ ==> c == g.group_id@
            &&& h == "PROTOCOL"@ ==> c == g.protocol@
            &&& h == "STATE"@ ==> c == g.state@
        },
{
    reveal_strlit("GROUP ID");
    assert("GROUP ID"@.len() == 8 && "GROUP ID"@[0] == 'G');
    reveal_strlit("PROTOCOL");
    assert("PROTOCOL"@.len() == 8 && "PROTOCOL"@[0] == 'P');
    reveal_strlit("STATE");
    assert("STATE"@.len() == 5 && "STATE"@[0] == 'S');
}

/// In the members table, the cell under each column title is that field of
/// the member.
pub proof fn law_member_cells_under_titles(m: GroupMember)
    ensures
        m.row_cells().len() == m.header_cells().len(),
        forall|i: int| 0 <= i < m.header_cells().len() ==> {
            let h = #[trigger] m.header_cells()[i];
            let c = m.row_cells()[i];
            &&& h == "MEMBER ID"@ ==> c == m.member_id@
            &&& h == "CLIENT ID"@ ==> c == m.client_id@
            &&& h == "CLIENT HOST"@ ==> c == m.client_host@
        },
{
    reveal_strlit("MEMBER ID");
    assert("MEMBER ID"@.len() == 9 && "MEMBER ID"@[0] == 'M');
    reveal_strlit("CLIENT ID");
    assert("CLIENT ID"@.len() == 9 && "CLIENT ID"@[0] == 'C');
    reveal_strlit("CLIENT HOST");
    assert("CLIENT HOST"@.len() == 11 && "CLIENT HOST"@[0] == 'C');
}

} // verus!
