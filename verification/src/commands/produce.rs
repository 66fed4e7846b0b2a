//! `produce`: turning input lines into records, and reporting.

use vstd::prelude::*;
use crate::cli::args::{InputFormat, ProduceArgs};
use crate::number::{i32_text, i64_text, int_text};
use crate::text::{trim_end_char, views};

verus! {

/// The value a line of input carries: the line without its trailing
/// newlines, then without its trailing carriage returns.
pub open spec fn line_value(line: Seq<char>) -> Seq<char> {
    trim_end_char(trim_end_char(line, '\n'), '\r')
}

/// The contents of a list of key/value pairs.
pub open spec fn pairs_view(v: Seq<(String, String)>) -> Seq<(Seq<char>, Seq<char>)> {
    v.map_values(|p: (String, String)| (p.0@, p.1@))
}

/// A record to send.
#[derive(Debug)]
pub struct RecordPlan {
    pub topic: String,
    pub value: String,
    pub key: Option<String>,
    pub partition: Option<i32>,
    /// The headers, when there are any.
    pub headers: Option<Vec<(String, String)>>,
}

fn copy_pairs(v: &Vec<(String, String)>) -> (r: Vec<(String, String)>)
    ensures
        pairs_view(r@) == pairs_view(v@),
{
    let mut r: Vec<(String, String)> = Vec::new();
    let n = v.len();
    for i in 0..n
        invariant
            n == v@.len(),
            pairs_view(r@) == pairs_view(v@.take(i as int)),
    {
        let p = (v[i].0.clone(), v[i].1.clone());
        let ghost before = r@;
        r.push(p);
        assert(pairs_view(r@) =~= pairs_view(before).push((v@[i as int].0@, v@[i as int].1@)));
        assert(v@.take(i + 1) =~= v@.take(i as int).push(v@[i as int]));
    }
    assert(v@.take(n as int) =~= v@);
    r
}

/// The top-level fields of a JSON object, as `serde_json` parses the text:
/// each name with its value when that value is a JSON string, `None` for a
/// value of another kind; `None` as a whole when the text is not a JSON
/// object. (The fields come in the order `serde_json::Map` keeps them.)
pub uninterp spec fn json_fields(text: Seq<char>) -> Option<Seq<(Seq<char>, Option<Seq<char>>)>>;

/// The contents of a list of fields.
pub open spec fn fields_view(v: Seq<(String, Option<String>)>) -> Seq<(Seq<char>, Option<Seq<char>>)> {
    v.map_values(|p: (String, Option<String>)| (p.0@, p.1.deep_view()))
}

/// The contents of an optional list of fields.
pub open spec fn opt_fields_view(
    v: Option<Vec<(String, Option<String>)>>,
) -> Option<Seq<(Seq<char>, Option<Seq<char>>)>> {
    match v {
        Some(f) => Some(fields_view(f@)),
        None => None,
    }
}

/// Parses a line of JSON input into its top-level fields.
///
/// Trusted: calls `serde_json::from_str::<serde_json::Value>`; for an
/// object it lists each entry of the map with `Value::as_str` of its value.
/// Parsing depends on the text alone; the contract names the result.
#[verifier::external_body]
fn parse_json_fields(text: &str) -> (r: Option<Vec<(String, Option<String>)>>)
    ensures
        opt_fields_view(r) == json_fields(text@),
{
    match serde_json::from_str::<serde_json::Value>(text) {
        Ok(serde_json::Value::Object(map)) => Some(
            map.iter().map(|(k, v)| (k.clone(), v.as_str().map(|s| s.to_string()))).collect(),
        ),
        _ => None,
    }
}

/// The field named `k`: the first one with that name, if any.
pub open spec fn json_field(
    fields: Seq<(Seq<char>, Option<Seq<char>>)>,
    k: Seq<char>,
) -> Option<Option<Seq<char>>>
    decreases fields.len(),
{
    if fields.len() == 0 {
        None
    } else if fields[0].0 == k {
        Some(fields[0].1)
    } else {
        json_field(fields.drop_first(), k)
    }
}

/// The text of the string field named `k`, if there is one.
pub open spec fn json_text(fields: Seq<(Seq<char>, Option<Seq<char>>)>, k: Seq<char>) -> Option<
    Seq<char>,
> {
    match json_field(fields, k) {
        Some(Some(t)) => Some(t),
        _ => None,
    }
}

/// The key and value a JSON input line gives: the value is its `message`
/// string, or else its `payload` string (the name consumed records are
/// shown with); the key is its `key` string, or else the `--key` given.
/// `None` when the line is not a JSON object or has neither string field.
pub open spec fn json_record(
    fields: Option<Seq<(Seq<char>, Option<Seq<char>>)>>,
    default_key: Option<Seq<char>>,
) -> Option<(Option<Seq<char>>, Seq<char>)> {
    match fields {
        None => None,
        Some(fs) => {
            let value = match json_text(fs, "message"@) {
                Some(m) => Some(m),
                None => json_text(fs, "payload"@),
            };
            match value {
                None => None,
                Some(v) => Some(
                    (
                        match json_text(fs, "key"@) {
                            Some(k) => Some(k),
                            None => default_key,
                        },
                        v,
                    ),
                ),
            }
        },
    }
}

/// A JSON input line gives its `message` string as the value (its
/// `payload` string when it has no `message` string) and its `key` string
/// as the key (the `--key` given when it has none); a line that is not an
/// object, or has neither string, gives no record.
pub proof fn law_json_line_fields(fields: Option<Seq<(Seq<char>, Option<Seq<char>>)>>, default_key: Option<Seq<char>>)
    ensures
        fields is None ==> json_record(fields, default_key) is None,
        fields matches Some(fs) ==> {
            let rec = json_record(fields, default_key);
            &&& json_text(fs, "message"@) matches Some(m) ==> (rec is Some && rec.unwrap().1 == m)
            &&& json_text(fs, "message"@) is None && json_text(fs, "payload"@) is Some ==> (rec is Some
                && rec.unwrap().1 == json_text(fs, "payload"@).unwrap())
            &&& json_text(fs, "message"@) is None && json_text(fs, "payload"@) is None ==> rec is None
            &&& rec is Some && json_text(fs, "key"@) is Some ==> rec.unwrap().0 == json_text(fs, "key"@)
            &&& rec is Some && json_text(fs, "key"@) is None ==> rec.unwrap().0 == default_key
        },
{
}

/// The message for a JSON input line that gives no record.
pub open spec fn invalid_json_message(value: Seq<char>) -> Seq<char> {
    "Invalid JSON input: "@ + value
}

/// The string field named `k`, if there is one.
fn text_field(fields: &Vec<(String, Option<String>)>, k: &str) -> (r: Option<String>)
    ensures
        r.deep_view() == json_text(fields_view(fields@), k@),
{
    let ghost fs = fields_view(fields@);
    let n = fields.len();
    let mut i: usize = 0;
    assert(fs.skip(0) =~= fs);
    while i < n
        invariant
            n == fields@.len(),
            fs == fields_view(fields@),
            i <= n,
            json_field(fs, k@) == json_field(fs.skip(i as int), k@),
        decreases n - i,
    {
        assert(fs.skip(i as int)[0] == fs[i as int]);
        assert(fs.skip(i as int).drop_first() =~= fs.skip(i + 1));
        if crate::text::str_eq(fields[i].0.as_str(), k) {
            return match &fields[i].1 {
                Some(t) => Some(t.clone()),
                None => None,
            };
        }
        i = i + 1;
    }
    assert(fs.skip(n as int).len() == 0);
    None
}

/// The headers of a record, copied from the command line (none when none
/// were given).
fn record_headers(args: &ProduceArgs) -> (r: Option<Vec<(String, String)>>)
    ensures
        headers_given(args, r),
{
    if args.headers.len() == 0 {
        None
    } else {
        Some(copy_pairs(&args.headers))
    }
}

/// A record's headers are those of the command line: none when none were
/// given.
pub open spec fn headers_given(args: &ProduceArgs, h: Option<Vec<(String, String)>>) -> bool {
    if args.headers@.len() == 0 {
        h is None
    } else {
        h matches Some(v) && pairs_view(v@) == pairs_view(args.headers@)
    }
}

/// A record carries exactly the `--header` pairs of the command line, all
/// of them in order (no headers when none were given).
pub open spec fn carries_command_line_headers(args: &ProduceArgs, h: Option<Vec<(String, String)>>) -> bool {
    &&& args.headers@.len() == 0 ==> h is None
    &&& args.headers@.len() > 0 ==> h is Some && h.unwrap()@.len() == args.headers@.len() && forall|i: int|
        0 <= i < args.headers@.len() ==> (#[trigger] h.unwrap()@[i]).0@ == args.headers@[i].0@ && h.unwrap()@[i].1@
            == args.headers@[i].1@
}

/// The headers a record is given are the command line's: every pair, in
/// order, and none when there are none.
pub proof fn law_record_headers_are_the_command_line_headers(args: &ProduceArgs)
    ensures
        forall|h: Option<Vec<(String, String)>>| #[trigger] headers_given(args, h)
            ==> carries_command_line_headers(args, h),
{
    assert forall|h: Option<Vec<(String, String)>>| #[trigger] headers_given(args, h) implies carries_command_line_headers(
        args,
        h,
    ) by {
        if args.headers@.len() > 0 {
            let v = h.unwrap()@;
            let a = args.headers@;
            assert(pairs_view(v) == pairs_view(a));
            assert(pairs_view(v).len() == v.len());
            assert(pairs_view(a).len() == a.len());
            assert forall|i: int| 0 <= i < a.len() implies (#[trigger] v[i]).0@ == a[i].0@ && v[i].1@
                == a[i].1@ by {
                assert(pairs_view(v)[i] == (v[i].0@, v[i].1@));
                assert(pairs_view(a)[i] == (a[i].0@, a[i].1@));
            }
        }
    }
}

/// The record a JSON input line gives, from the line's value and its parsed
/// fields: the value and key as `json_record` takes them, sent to the topic
/// with the partition and headers given on the command line; an error
/// naming the line when it gives no record.
pub fn record_from_json(
    args: &ProduceArgs,
    value: &str,
    fields: Option<Vec<(String, Option<String>)>>,
) -> (r: Result<RecordPlan, String>)
    ensures
        r is Ok <==> json_record(opt_fields_view(fields), args.key.deep_view()) is Some,
        r matches Ok(p) ==> p.topic@ == args.topic@ && (p.key.deep_view(), p.value@) == json_record(
            opt_fields_view(fields),
            args.key.deep_view(),
        ).unwrap() && p.partition == args.partition && headers_given(args, p.headers),
        r matches Err(e) ==> e@ == invalid_json_message(value@),
        r matches Ok(p) ==> carries_command_line_headers(args, p.headers),
{
    proof {
        law_record_headers_are_the_command_line_headers(args);
    }
    let fs = match fields {
        Some(fs) => fs,
        None => return Err(crate::text::concat2("Invalid JSON input: ", value)),
    };
    let v = match text_field(&fs, "message") {
        Some(m) => m,
        None => match text_field(&fs, "payload") {
            Some(m) => m,
            None => return Err(crate::text::concat2("Invalid JSON input: ", value)),
        },
    };
    let key = match text_field(&fs, "key") {
        Some(k) => Some(k),
        None => crate::config::model::copy_opt_string(&args.key),
    };
    Ok(RecordPlan {
        topic: args.topic.clone(),
        value: v,
        key,
        partition: args.partition,
        headers: record_headers(args),
    })
}

/// The record for a line of input: none for a line with no value. As text
/// (`--input text`), the value is the line, sent to the topic with the key,
/// partition and headers given on the command line (headers only when there
/// are some). As JSON (`--input json`), the line is parsed and the record is
/// the one `record_from_json` makes of its fields, or an error when the line
/// gives none.
pub fn record_for_line(args: &ProduceArgs, line: &str) -> (r: Result<Option<RecordPlan>, String>)
    ensures
        r matches Ok(None) <==> line_value(line@).len() == 0,
        args.input == InputFormat::Text ==> r is Ok,
        args.input == InputFormat::Text ==> (r matches Ok(Some(p)) ==> p.topic@ == args.topic@
            && p.value@ == line_value(line@) && p.key.deep_view() == args.key.deep_view()
            && p.partition == args.partition && headers_given(args, p.headers)),
        args.input == InputFormat::Json && line_value(line@).len() > 0 ==> ({
            let jr = json_record(json_fields(line_value(line@)), args.key.deep_view());
            &&& (r is Ok <==> jr is Some)
            &&& (r matches Ok(Some(p)) ==> p.topic@ == args.topic@ && (p.key.deep_view(), p.value@)
                == jr.unwrap() && p.partition == args.partition && headers_given(args, p.headers))
            &&& (r matches Err(e) ==> e@ == invalid_json_message(line_value(line@)))
        }),
        r matches Ok(Some(p)) ==> carries_command_line_headers(args, p.headers),
{
    proof {
        law_record_headers_are_the_command_line_headers(args);
    }
    let cs = crate::text::chars_of(line);
    let t1 = crate::text::trim_end_matching(&cs, '\n');
    let t2 = crate::text::trim_end_matching(&t1, '\r');
    if t2.len() == 0 {
        return Ok(None);
    }
    let value = crate::text::string_of(&t2);
    match args.input {
        InputFormat::Text => Ok(
            Some(
                RecordPlan {
                    topic: args.topic.clone(),
                    value,
                    key: crate::config::model::copy_opt_string(&args.key),
                    partition: args.partition,
                    headers: record_headers(args),
                },
            ),
        ),
        InputFormat::Json => {
            let fields = parse_json_fields(value.as_str());
            match record_from_json(args, value.as_str(), fields) {
                Ok(p) => Ok(Some(p)),
                Err(e) => Err(e),
            }
        },
    }
}

/// The report of one record sent.
pub fn sent_record_message(partition: i32, offset: i64) -> (r: String)
    ensures
        r@ == "Sent record to partition "@ + int_text(partition as int) + " at offset "@ + int_text(
            offset as int,
        ) + "."@,
{
    let mut m = String::from_str("Sent record to partition ");
    m.append(i32_text(partition).as_str());
    m.append(" at offset ");
    m.append(i64_text(offset).as_str());
    m.append(".");
    m
}

/// The closing report of a `produce`.
#[derive(Debug)]
pub enum ProduceSummary {
    /// Records were sent: report success.
    Sent(String),
    /// Nothing was sent: a plain note.
    Nothing(String),
}

/// The count of records sent so far.
#[derive(Debug)]
pub struct ProduceSession {
    count: u64,
}

impl ProduceSession {
    /// Records sent so far.
    pub closed spec fn sent(&self) -> nat {
        self.count as nat
    }

    /// A session that has sent nothing.
    pub fn new() -> (r: Self)
        ensures
            r.sent() == 0,
    {
        ProduceSession { count: 0 }
    }

    /// Counts one record the cluster accepted (the count saturates at
    /// `u64::MAX`).
    pub fn on_sent(&mut self)
        ensures
            final(self).sent() == if old(self).sent() < u64::MAX {
                old(self).sent() + 1
            } else {
                old(self).sent()
            },
    {
        if self.count < u64::MAX {
            self.count = self.count + 1;
        }
    }

    /// The closing report: the number of records sent to the topic when
    /// some were, otherwise a note that nothing was sent.
    pub fn summary(&self, topic: &str) -> (r: ProduceSummary)
        ensures
            self.sent() > 0 ==> (r matches ProduceSummary::Sent(m) && m@ == "Sent "@ + int_text(
                self.sent() as int,
            ) + " record(s) to '"@ + topic@ + "'"@),
            self.sent() == 0 ==> (r matches ProduceSummary::Nothing(m) && m@
                == "No records sent (empty input)."@),
    {
        if self.count > 0 {
            let mut m = String::from_str("Sent ");
            crate::number::push_decimal(&mut m, self.count);
            m.append(" record(s) to '");
            m.append(topic);
            m.append("'");
            ProduceSummary::Sent(m)
        } else {
            ProduceSummary::Nothing(String::from_str("No records sent (empty input)."))
        }
    }
}

} // verus!
