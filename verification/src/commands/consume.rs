//! `consume`: choosing the consumer group, the partitions to read, and when
//! to stop.

use vstd::prelude::*;
use crate::cli::args::OffsetValue;
use crate::client::admin::{PartitionMetadata, TopicMetadata};
use crate::commands::produce::pairs_view;
use crate::text::{eq_ignore_ascii_case, equal_ignoring_ascii_case, str_eq};

verus! {

/// Whether a character is a lower-case hexadecimal digit.
pub open spec fn is_lower_hex(c: char) -> bool {
    ('0' <= c && c <= '9') || ('a' <= c && c <= 'f')
}

/// The hyphenated lower-case text of a UUID: 36 characters, hyphens at
/// positions 8, 13, 18 and 23, lower-case hexadecimal digits elsewhere.
pub open spec fn is_hyphenated_uuid(s: Seq<char>) -> bool {
    &&& s.len() == 36
    &&& forall|i: int| 0 <= i < 36 ==> if i == 8 || i == 13 || i == 18 || i == 23 {
        #[trigger] s[i] == '-'
    } else {
        is_lower_hex(s[i])
    }
}

/// The text of a random (version 4, RFC 4122 variant) UUID: hyphenated
/// lower-case hexadecimal, the version digit `4` at position 14 and the
/// variant digit (`8`, `9`, `a` or `b`) at position 19.
pub open spec fn is_v4_uuid_text(s: Seq<char>) -> bool {
    &&& is_hyphenated_uuid(s)
    &&& s[14] == '4'
    &&& (s[19] == '8' || s[19] == '9' || s[19] == 'a' || s[19] == 'b')
}

/// A fresh random UUID, as text.
///
/// Trusted: calls `uuid::Uuid::new_v4`, which masks random bits so that
/// the version is 4 and the variant RFC 4122, and formats it with
/// `to_string`, the hyphenated lower-case form. The value is random: the
/// contract states only its form.
#[verifier::external_body]
fn new_uuid_text() -> (r: String)
    ensures
        is_v4_uuid_text(r@),
{
    uuid::Uuid::new_v4().to_string()
}

/// How a consumer joins: directly (assigned partitions, no group) or as a
/// member of a group.
#[derive(Debug)]
pub struct ConsumerGroupPlan {
    /// Whether partitions are assigned directly, with no group.
    pub direct: bool,
    /// The group id (empty in direct mode).
    pub group_id: String,
    /// A note to show first, naming a generated group.
    pub note: Option<String>,
}

/// Decides the consumer group from `--group`: `none` (any case) means
/// direct assignment with no group; `random` (any case) means a fresh group
/// `kfk-<uuid>`, announced in a note; anything else is the group id itself.
pub fn consumer_group_plan(group: &str) -> (r: ConsumerGroupPlan)
    ensures
        r.direct == eq_ignore_ascii_case(group@, "none"@),
        eq_ignore_ascii_case(group@, "random"@) ==> r.group_id@.len() == 40 && r.group_id@.take(4)
            == "kfk-"@ && is_v4_uuid_text(r.group_id@.skip(4)) && r.note.deep_view() == Some(
            "Using random group: "@ + r.group_id@,
        ),
        !eq_ignore_ascii_case(group@, "random"@) && r.direct ==> r.group_id@ == Seq::<char>::empty()
            && r.note is None,
        !eq_ignore_ascii_case(group@, "random"@) && !r.direct ==> r.group_id@ == group@ && r.note is None,
{
    let direct = equal_ignoring_ascii_case(group, "none");
    if equal_ignoring_ascii_case(group, "random") {
        let id = new_uuid_text();
        let g = crate::text::concat2("kfk-", id.as_str());
        let note = crate::text::concat2("Using random group: ", g.as_str());
        proof {
            reveal_strlit("kfk-");
        }
        assert(g@.take(4) =~= "kfk-"@);
        assert(g@.skip(4) =~= id@);
        ConsumerGroupPlan { direct, group_id: g, note: Some(note) }
    } else if direct {
        ConsumerGroupPlan { direct, group_id: String::new(), note: None }
    } else {
        ConsumerGroupPlan { direct, group_id: crate::text::to_owned_string(group), note: None }
    }
}

/// The partitions to assign in direct mode: the one given, otherwise every
/// partition of the topic in the metadata's order; an error when no
/// partition is given and the metadata does not know the topic.
pub fn partitions_to_assign(topic: &str, partition: Option<i32>, metadata: Option<TopicMetadata>) -> (r: Result<
    Vec<i32>,
    String,
>)
    ensures
        partition matches Some(p) ==> (r matches Ok(v) && v@ == seq![p]),
        partition is None && metadata is Some ==> (r matches Ok(v) && v@ == metadata.unwrap().partitions@.map_values(
            |p: PartitionMetadata| p.partition_index,
        )),
        partition is None && metadata is None ==> (r matches Err(e) && e@ == "Topic '"@ + topic@
            + "' not found"@),
{
    if let Some(p) = partition {
        let mut v: Vec<i32> = Vec::new();
        v.push(p);
        assert(v@ =~= seq![p]);
        return Ok(v);
    }
    match metadata {
        None => Err(crate::text::concat3("Topic '", topic, "' not found")),
        Some(tm) => {
            let mut v: Vec<i32> = Vec::new();
            let n = tm.partitions.len();
            for i in 0..n
                invariant
                    n == tm.partitions@.len(),
                    v@ == tm.partitions@.take(i as int).map_values(|p: PartitionMetadata| p.partition_index),
            {
                v.push(tm.partitions[i].partition_index);
                assert(tm.partitions@.take(i + 1) =~= tm.partitions@.take(i as int).push(tm.partitions@[i as int]));
                assert(v@ =~= tm.partitions@.take(i + 1).map_values(|p: PartitionMetadata| p.partition_index));
            }
            assert(tm.partitions@.take(n as int) =~= tm.partitions@);
            Ok(v)
        },
    }
}

/// The message once consumption starts.
pub fn consuming_message(topic: &str, plan: &ConsumerGroupPlan, offset: OffsetValue) -> (r: String)
    ensures
        r@ == "Consuming from '"@ + topic@ + (if plan.direct {
            "' (direct assign, offset: "@
        } else {
            "' (group: "@ + plan.group_id@ + ", offset: "@
        }) + offset.spec_name() + ")"@,
{
    let mut m = crate::text::concat2("Consuming from '", topic);
    if plan.direct {
        m.append("' (direct assign, offset: ");
    } else {
        m.append("' (group: ");
        m.append(plan.group_id.as_str());
        m.append(", offset: ");
    }
    m.append(offset.name().as_str());
    m.append(")");
    m
}

/// Whether a record carries a header with key `k` and value `v`.
pub open spec fn has_header(headers: Seq<(Seq<char>, Seq<char>)>, k: Seq<char>, v: Seq<char>) -> bool {
    exists|i: int| 0 <= i < headers.len() && #[trigger] headers[i] == (k, v)
}

/// Whether a record passes the `--header` filters: it carries every header
/// asked for (no filter lets every record through).
pub open spec fn passes_header_filters(
    headers: Seq<(Seq<char>, Seq<char>)>,
    filters: Seq<(Seq<char>, Seq<char>)>,
) -> bool {
    forall|j: int| 0 <= j < filters.len() ==> has_header(headers, #[trigger] filters[j].0, filters[j].1)
}

/// Whether the headers include one with key `k` and value `v`.
fn carries_header(headers: &Vec<(String, String)>, k: &str, v: &str) -> (r: bool)
    ensures
        r == has_header(pairs_view(headers@), k@, v@),
{
    let n = headers.len();
    for i in 0..n
        invariant
            n == headers@.len(),
            forall|t: int| 0 <= t < i ==> #[trigger] pairs_view(headers@)[t] != (k@, v@),
    {
        if str_eq(headers[i].0.as_str(), k) && str_eq(headers[i].1.as_str(), v) {
            assert(pairs_view(headers@)[i as int] == (k@, v@));
            return true;
        }
    }
    false
}

/// Filter by header (key:value): whether a record with these headers is
/// shown, i.e. carries every header that `--header` asks for.
pub fn matches_header_filters(headers: &Vec<(String, String)>, filters: &Vec<(String, String)>) -> (r: bool)
    ensures
        r == passes_header_filters(pairs_view(headers@), pairs_view(filters@)),
{
    let n = filters.len();
    for j in 0..n
        invariant
            n == filters@.len(),
            forall|t: int| 0 <= t < j ==> has_header(
                pairs_view(headers@),
                #[trigger] pairs_view(filters@)[t].0,
                pairs_view(filters@)[t].1,
            ),
    {
        if !carries_header(headers, filters[j].0.as_str(), filters[j].1.as_str()) {
            assert(!has_header(
                pairs_view(headers@),
                pairs_view(filters@)[j as int].0,
                pairs_view(filters@)[j as int].1,
            ));
            return false;
        }
    }
    true
}

/// How many polls in a row may come back empty, once records were shown
/// with `--tail`, before consumption ends (about 15 s of silence, with a
/// 1 s poll timeout).
pub open spec fn max_empty_polls() -> u32 {
    15
}

/// The state of a consumption: how many records were shown and how many
/// polls in a row came back empty since records last arrived. Records are counted only with `--tail`,
/// where the count decides when to stop.
#[derive(Debug)]
pub struct ConsumeSession {
    tail: Option<usize>,
    consumed: usize,
    empty_polls: u32,
}

impl ConsumeSession {
    #[verifier::type_invariant]
    spec fn consistent(&self) -> bool {
        &&& self.empty_polls <= 15
        &&& match self.tail {
            Some(n) => self.consumed <= n,
            None => self.consumed == 0,
        }
    }

    /// The `--tail` limit.
    pub closed spec fn limit(&self) -> Option<usize> {
        self.tail
    }

    /// Records shown so far (counted with `--tail` only).
    pub closed spec fn shown(&self) -> nat {
        self.consumed as nat
    }

    /// Empty polls counted so far.
    pub closed spec fn empty_count(&self) -> nat {
        self.empty_polls as nat
    }

    /// A consumption that has shown nothing yet.
    pub fn new(tail: Option<usize>) -> (r: Self)
        ensures
            r.limit() == tail,
            r.shown() == 0,
            r.empty_count() == 0,
    {
        ConsumeSession { tail, consumed: 0, empty_polls: 0 }
    }

    /// After a poll that returned no records: whether to stop. Without
    /// `--tail` consumption never stops for lack of records; with it,
    /// empty polls in a row are counted once some record was shown, and the
    /// 15th such poll ends consumption.
    pub fn on_empty_poll(&mut self) -> (stop: bool)
        ensures
            final(self).limit() == old(self).limit(),
            final(self).shown() == old(self).shown(),
            old(self).limit() is None ==> !stop && final(self).empty_count() == old(self).empty_count(),
            old(self).limit() is Some && old(self).shown() == 0 ==> !stop && final(self).empty_count()
                == old(self).empty_count(),
            old(self).limit() is Some && old(self).shown() > 0 ==> final(self).empty_count() == if old(
                self,
            ).empty_count() < 15 {
                old(self).empty_count() + 1
            } else {
                old(self).empty_count()
            } && stop == (old(self).empty_count() + 1 >= max_empty_polls()),
    {
        proof {
            use_type_invariant(&*self);
        }
        if self.tail.is_some() && self.consumed > 0 {
            if self.empty_polls < 15 {
                self.empty_polls = self.empty_polls + 1;
            }
            return self.empty_polls >= 15;
        }
        false
    }

    /// After a poll that returned records: the silence is over, so the
    /// count of empty polls in a row starts again from zero.
    pub fn on_records(&mut self)
        ensures
            final(self).limit() == old(self).limit(),
            final(self).shown() == old(self).shown(),
            final(self).empty_count() == 0,
    {
        proof {
            use_type_invariant(&*self);
        }
        self.empty_polls = 0;
    }

    /// After a poll that failed: whether to stop. A failed poll ends
    /// consumption (the error is reported and the client closed), whatever
    /// was shown before.
    pub fn on_poll_error(&self) -> (stop: bool)
        ensures
            stop,
    {
        true
    }

    /// Before showing a record: whether to show it. With `--tail n` only
    /// the first `n` records are shown; the next one ends consumption.
    pub fn admit_record(&mut self) -> (show: bool)
        ensures
            final(self).limit() == old(self).limit(),
            final(self).empty_count() == old(self).empty_count(),
            old(self).limit() is None ==> show && final(self).shown() == 0,
            old(self).limit() matches Some(n) ==> show == (old(self).shown() < n) && final(self).shown()
                == if show {
                old(self).shown() + 1
            } else {
                old(self).shown()
            },
            final(self).limit() matches Some(n) ==> final(self).shown() <= n,
    {
        proof {
            use_type_invariant(&*self);
        }
        match self.tail {
            None => true,
            Some(n) => {
                if self.consumed >= n {
                    false
                } else {
                    self.consumed = self.consumed + 1;
                    true
                }
            },
        }
    }
}

} // verus!
