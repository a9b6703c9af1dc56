//! The report of a run: one record for each outcome, in the order in which
//! the outcomes arrived.
//!
//! The report is a JSON document, an array of objects laid out line by line:
//!
//! ```text
//! [
//!   {
//!     "url": "https://example.com",
//!     "action_status": { "Ok": 200 },
//!     "response_time_ms": 87,
//!     "timestamp": "1700000000"
//!   }
//! ]
//! ```
//!
//! A failed probe has `{ "Err": "..." }` for its `action_status`. Strings are
//! escaped, so any URL and any failure message can be written and read back.
//! [`decode_report`] reads exactly the documents that [`render_report`]
//! writes.

use crate::json::{
    at, expect, lemma_at_index, lemma_at_split, lemma_number_round_trip, lemma_string_round_trip,
    number_at, push_quoted, quoted, read_number_at, read_string_at, string_at,
};
use crate::pool::{finished, initial, run, theorem_exactly_once, PoolStep};
use crate::status::{action_view, status_urls, status_views, WebsiteStatus, WebsiteStatusView};
use crate::text::{chars_of, decimal, push_decimal, same_text};
use vstd::prelude::*;
use vstd::string::StringExecFns;

verus! {

/// One record of a report.
#[derive(Debug, PartialEq, Eq)]
pub struct ReportRecord {
    pub url: String,
    pub action_status: Result<u16, String>,
    pub response_time_ms: u128,
    /// Whole seconds since the Unix epoch; `0` stands for a moment that
    /// cannot be told in them.
    pub timestamp: u64,
}

pub struct ReportRecordView {
    pub url: Seq<char>,
    pub action_status: Result<u16, Seq<char>>,
    pub response_time_ms: u128,
    pub timestamp: u64,
}

impl View for ReportRecord {
    type V = ReportRecordView;

    open spec fn view(&self) -> ReportRecordView {
        ReportRecordView {
            url: self.url@,
            action_status: action_view(self.action_status),
            response_time_ms: self.response_time_ms,
            timestamp: self.timestamp,
        }
    }
}

/// What a list of records holds, in order.
pub open spec fn record_views(v: Seq<ReportRecord>) -> Seq<ReportRecordView> {
    v.map_values(|r: ReportRecord| r@)
}

/// The record that reports `status`.
pub open spec fn record_of(status: WebsiteStatusView) -> ReportRecordView {
    ReportRecordView {
        url: status.url,
        action_status: status.action_status,
        response_time_ms: status.response_time_ms,
        timestamp: match status.timestamp {
            Some(secs) => secs,
            None => 0,
        },
    }
}

/// The records that report `statuses`, one for each and in the same order.
pub open spec fn records_of(statuses: Seq<WebsiteStatusView>) -> Seq<ReportRecordView> {
    statuses.map_values(|s: WebsiteStatusView| record_of(s))
}

/// The URLs of a list of records, in order.
pub open spec fn record_urls(records: Seq<ReportRecordView>) -> Seq<Seq<char>> {
    records.map_values(|r: ReportRecordView| r.url)
}

/// The text of the `action_status` member, without its braces.
pub open spec fn action_text(action_status: Result<u16, Seq<char>>) -> Seq<char> {
    match action_status {
        Ok(code) => "\"Ok\": "@ + decimal(code as nat),
        Err(message) => "\"Err\": "@ + quoted(message),
    }
}

/// The text of one record, up to its closing brace.
pub open spec fn record_text(r: ReportRecordView) -> Seq<char> {
    "  {\n    \"url\": "@ + (quoted(r.url) + (",\n    \"action_status\": { "@ + (action_text(
        r.action_status,
    ) + (" },\n    \"response_time_ms\": "@ + (decimal(r.response_time_ms as nat) + (
    ",\n    \"timestamp\": \""@ + (decimal(r.timestamp as nat) + "\"\n  }"@)))))))
}

/// The text of the records from index `k` on: a comma stands behind each but
/// the last, and a line break behind each.
pub open spec fn records_text(records: Seq<ReportRecordView>, k: int) -> Seq<char>
    decreases records.len() - k,
{
    if !(0 <= k < records.len()) {
        Seq::empty()
    } else if k == records.len() - 1 {
        record_text(records[k]) + "\n"@
    } else {
        record_text(records[k]) + (",\n"@ + records_text(records, k + 1))
    }
}

/// The text of the report that holds `records`.
pub open spec fn report_text(records: Seq<ReportRecordView>) -> Seq<char> {
    "[\n"@ + (records_text(records, 0) + "]\n"@)
}

/// The records that `text` reports: those whose report it is, if it is the
/// report of any.
pub open spec fn decoded(text: Seq<char>) -> Option<Seq<ReportRecordView>> {
    if exists|records: Seq<ReportRecordView>| #[trigger] report_text(records) == text {
        Some(choose|records: Seq<ReportRecordView>| #[trigger] report_text(records) == text)
    } else {
        None
    }
}

spec fn action_at(t: Seq<char>, i: int) -> Option<(Result<u16, Seq<char>>, int)> {
    if at(t, i, "\"Ok\": "@) {
        match number_at(t, i + "\"Ok\": "@.len(), u16::MAX as nat) {
            Some((code, next)) => Some((Ok(code as u16), next)),
            None => None,
        }
    } else if at(t, i, "\"Err\": "@) {
        match string_at(t, i + "\"Err\": "@.len()) {
            Some((message, next)) => Some((Err(message), next)),
            None => None,
        }
    } else {
        None
    }
}

spec fn record_at(t: Seq<char>, i: int) -> Option<(ReportRecordView, int)> {
    if !at(t, i, "  {\n    \"url\": "@) {
        None
    } else {
        match string_at(t, i + "  {\n    \"url\": "@.len()) {
            None => None,
            Some((url, i2)) => if !at(t, i2, ",\n    \"action_status\": { "@) {
                None
            } else {
                match action_at(t, i2 + ",\n    \"action_status\": { "@.len()) {
                    None => None,
                    Some((action_status, i4)) => if !at(
                        t,
                        i4,
                        " },\n    \"response_time_ms\": "@,
                    ) {
                        None
                    } else {
                        match number_at(
                            t,
                            i4 + " },\n    \"response_time_ms\": "@.len(),
                            u128::MAX as nat,
                        ) {
                            None => None,
                            Some((millis, i6)) => if !at(t, i6, ",\n    \"timestamp\": \""@) {
                                None
                            } else {
                                match number_at(
                                    t,
                                    i6 + ",\n    \"timestamp\": \""@.len(),
                                    u64::MAX as nat,
                                ) {
                                    None => None,
                                    Some((secs, i8)) => if !at(t, i8, "\"\n  }"@) {
                                        None
                                    } else {
                                        Some(
                                            (
                                                ReportRecordView {
                                                    url,
                                                    action_status,
                                                    response_time_ms: millis as u128,
                                                    timestamp: secs as u64,
                                                },
                                                i8 + "\"\n  }"@.len(),
                                            ),
                                        )
                                    },
                                }
                            },
                        }
                    },
                }
            },
        }
    }
}

spec fn records_at(t: Seq<char>, i: int) -> Option<(Seq<ReportRecordView>, int)>
    decreases t.len() - i,
{
    match record_at(t, i) {
        None => None,
        Some((record, next)) => if next <= i {
            None
        } else if at(t, next, ",\n"@) {
            match records_at(t, next + ",\n"@.len()) {
                Some((rest, end)) => Some((seq![record] + rest, end)),
                None => None,
            }
        } else if at(t, next, "\n"@) {
            Some((seq![record], next + "\n"@.len()))
        } else {
            None
        },
    }
}

spec fn report_at(t: Seq<char>) -> Option<Seq<ReportRecordView>> {
    if !at(t, 0, "[\n"@) {
        None
    } else if at(t, "[\n"@.len() as int, "]\n"@) {
        if "[\n"@.len() + "]\n"@.len() == t.len() {
            Some(Seq::empty())
        } else {
            None
        }
    } else {
        match records_at(t, "[\n"@.len() as int) {
            Some((records, end)) => if at(t, end, "]\n"@) && end + "]\n"@.len() == t.len() {
                Some(records)
            } else {
                None
            },
            None => None,
        }
    }
}

proof fn lemma_pieces()
    ensures
        "\"Ok\": "@.len() == 6,
        "\"Ok\": "@[1] == 'O',
        "\"Err\": "@.len() == 7,
        "\"Err\": "@[1] == 'E',
        "  {\n    \"url\": "@.len() == 15,
        "  {\n    \"url\": "@[0] == ' ',
        " },\n    \"response_time_ms\": "@.len() == 28,
        " },\n    \"response_time_ms\": "@[0] == ' ',
        ",\n    \"timestamp\": \""@.len() == 20,
        ",\n    \"timestamp\": \""@[0] == ',',
        "\"\n  }"@.len() == 5,
        "\"\n  }"@[0] == '"',
        ",\n"@.len() == 2,
        ",\n"@[0] == ',',
        "\n"@.len() == 1,
        "\n"@[0] == '\n',
        "[\n"@.len() == 2,
        "]\n"@.len() == 2,
        "]\n"@[0] == ']',
{
    reveal_strlit("\"Ok\": ");
    reveal_strlit("\"Err\": ");
    reveal_strlit("  {\n    \"url\": ");
    reveal_strlit(" },\n    \"response_time_ms\": ");
    reveal_strlit(",\n    \"timestamp\": \"");
    reveal_strlit("\"\n  }");
    reveal_strlit(",\n");
    reveal_strlit("\n");
    reveal_strlit("[\n");
    reveal_strlit("]\n");
}

proof fn lemma_action_round_trip(
    t: Seq<char>,
    i: int,
    action_status: Result<u16, Seq<char>>,
    rest: Seq<char>,
)
    requires
        at(t, i, action_text(action_status) + rest),
        rest.len() > 0,
        rest[0] == ' ',
    ensures
        action_at(t, i) == Some((action_status, i + action_text(action_status).len())),
{
    lemma_pieces();
    let whole = action_text(action_status);
    lemma_at_split(t, i, whole, rest);
    lemma_at_index(t, i + whole.len(), rest, 0);
    match action_status {
        Ok(code) => {
            lemma_at_split(t, i, "\"Ok\": "@, decimal(code as nat));
            lemma_number_round_trip(t, i + 6, code as nat, u16::MAX as nat);
        },
        Err(message) => {
            lemma_at_split(t, i, "\"Err\": "@, quoted(message));
            lemma_at_index(t, i, "\"Err\": "@, 1);
            if at(t, i, "\"Ok\": "@) {
                lemma_at_index(t, i, "\"Ok\": "@, 1);
            }
            lemma_string_round_trip(t, i + 7, message);
        },
    }
}

proof fn lemma_record_round_trip(t: Seq<char>, i: int, r: ReportRecordView)
    requires
        at(t, i, record_text(r)),
    ensures
        record_at(t, i) == Some((r, i + record_text(r).len())),
        record_text(r).len() > 0,
        record_text(r)[0] == ' ',
{
    lemma_pieces();
    let part1 = "  {\n    \"url\": "@;
    let part2 = quoted(r.url);
    let part3 = ",\n    \"action_status\": { "@;
    let part4 = action_text(r.action_status);
    let part5 = " },\n    \"response_time_ms\": "@;
    let part6 = decimal(r.response_time_ms as nat);
    let part7 = ",\n    \"timestamp\": \""@;
    let part8 = decimal(r.timestamp as nat);
    let part9 = "\"\n  }"@;
    let tail8 = part8 + part9;
    let tail7 = part7 + tail8;
    let tail6 = part6 + tail7;
    let tail5 = part5 + tail6;
    let tail4 = part4 + tail5;
    let tail3 = part3 + tail4;
    let tail2 = part2 + tail3;
    assert(record_text(r) == part1 + tail2);
    lemma_at_split(t, i, part1, tail2);
    let i1 = i + part1.len();
    lemma_at_split(t, i1, part2, tail3);
    lemma_string_round_trip(t, i1, r.url);
    let i2 = i1 + part2.len();
    lemma_at_split(t, i2, part3, tail4);
    let i3 = i2 + part3.len();
    lemma_action_round_trip(t, i3, r.action_status, tail5);
    lemma_at_split(t, i3, part4, tail5);
    let i4 = i3 + part4.len();
    lemma_at_split(t, i4, part5, tail6);
    let i5 = i4 + part5.len();
    lemma_at_split(t, i5, part6, tail7);
    let i6 = i5 + part6.len();
    lemma_at_index(t, i6, tail7, 0);
    lemma_number_round_trip(t, i5, r.response_time_ms as nat, u128::MAX as nat);
    lemma_at_split(t, i6, part7, tail8);
    let i7 = i6 + part7.len();
    lemma_at_split(t, i7, part8, part9);
    let i8 = i7 + part8.len();
    lemma_at_index(t, i8, part9, 0);
    lemma_number_round_trip(t, i7, r.timestamp as nat, u64::MAX as nat);
}

proof fn lemma_records_round_trip(t: Seq<char>, i: int, records: Seq<ReportRecordView>, k: int)
    requires
        0 <= k < records.len(),
        at(t, i, records_text(records, k)),
    ensures
        records_at(t, i) == Some(
            (records.subrange(k, records.len() as int), i + records_text(records, k).len()),
        ),
    decreases records.len() - k,
{
    lemma_pieces();
    let record = record_text(records[k]);
    if k == records.len() - 1 {
        lemma_at_split(t, i, record, "\n"@);
        lemma_record_round_trip(t, i, records[k]);
        let next = i + record.len();
        lemma_at_index(t, next, "\n"@, 0);
        if at(t, next, ",\n"@) {
            lemma_at_index(t, next, ",\n"@, 0);
        }
        assert(seq![records[k]] =~= records.subrange(k, records.len() as int));
    } else {
        let more = ",\n"@ + records_text(records, k + 1);
        lemma_at_split(t, i, record, more);
        lemma_record_round_trip(t, i, records[k]);
        let next = i + record.len();
        lemma_at_split(t, next, ",\n"@, records_text(records, k + 1));
        lemma_records_round_trip(t, next + 2, records, k + 1);
        assert(seq![records[k]] + records.subrange(k + 1, records.len() as int)
            =~= records.subrange(k, records.len() as int));
    }
}

proof fn lemma_report_round_trip(records: Seq<ReportRecordView>)
    ensures
        report_at(report_text(records)) == Some(records),
{
    lemma_pieces();
    let t = report_text(records);
    let body = records_text(records, 0) + "]\n"@;
    assert(t.subrange(0, t.len() as int) =~= t);
    lemma_at_split(t, 0, "[\n"@, body);
    lemma_at_split(t, 2, records_text(records, 0), "]\n"@);
    if records.len() == 0 {
        assert(records =~= Seq::<ReportRecordView>::empty());
    } else {
        lemma_records_round_trip(t, 2, records, 0);
        assert(records.subrange(0, records.len() as int) =~= records);
        let first = record_text(records[0]);
        if records.len() == 1 {
            lemma_at_split(t, 2, first, "\n"@);
        } else {
            lemma_at_split(t, 2, first, ",\n"@ + records_text(records, 1));
        }
        lemma_record_round_trip(t, 2, records[0]);
        lemma_at_index(t, 2, first, 0);
        if at(t, 2, "]\n"@) {
            lemma_at_index(t, 2, "]\n"@, 0);
        }
    }
}

/// Two lists of records that have the same report are the same list: the
/// report loses nothing of what a record holds.
pub proof fn lemma_report_text_injective(a: Seq<ReportRecordView>, b: Seq<ReportRecordView>)
    requires
        report_text(a) == report_text(b),
    ensures
        a == b,
{
    lemma_report_round_trip(a);
    lemma_report_round_trip(b);
}

/// Round trip: the report of a list of records is read back as that list.
pub proof fn theorem_report_round_trip(records: Seq<ReportRecordView>)
    ensures
        decoded(report_text(records)) == Some(records),
{
    let text = report_text(records);
    let found = choose|other: Seq<ReportRecordView>| #[trigger] report_text(other) == text;
    lemma_report_text_injective(found, records);
}

/// Round trip of what was collected: the report of a run is read back as one
/// record for each outcome, in the order of their arrival, and each record
/// holds the URL, the status code or the failure message, and the response
/// time of its outcome. The timestamp comes back in whole seconds, `0` where
/// the outcome had none.
pub proof fn theorem_report_keeps_outcomes(statuses: Seq<WebsiteStatusView>)
    ensures
        decoded(report_text(records_of(statuses))) == Some(records_of(statuses)),
        records_of(statuses).len() == statuses.len(),
        forall|k: int|
            0 <= k < statuses.len() ==> {
                let record = #[trigger] records_of(statuses)[k];
                &&& record.url == statuses[k].url
                &&& record.action_status == statuses[k].action_status
                &&& record.response_time_ms == statuses[k].response_time_ms
                &&& statuses[k].timestamp is Some ==> record.timestamp
                    == statuses[k].timestamp->0
            },
{
    theorem_report_round_trip(records_of(statuses));
}

/// One record for each URL: when a run of at least one worker is over and
/// `statuses` are the outcomes in the order in which they reached the sink,
/// the report holds as many records as URLs were submitted, and the URLs of
/// its records are the submitted URLs, each as often as it was submitted.
pub proof fn theorem_one_record_per_url(
    urls: Seq<Seq<char>>,
    worker_count: nat,
    steps: Seq<PoolStep>,
    statuses: Seq<WebsiteStatusView>,
)
    requires
        worker_count >= 1,
        run(initial(urls, worker_count), steps) is Some,
        finished(run(initial(urls, worker_count), steps)->0),
        status_urls(statuses) == run(initial(urls, worker_count), steps)->0.delivered,
    ensures
        decoded(report_text(records_of(statuses))) == Some(records_of(statuses)),
        records_of(statuses).len() == urls.len(),
        record_urls(records_of(statuses)).to_multiset() == urls.to_multiset(),
{
    theorem_exactly_once(urls, worker_count, steps);
    theorem_report_round_trip(records_of(statuses));
    assert(record_urls(records_of(statuses)) =~= status_urls(statuses));
}

/// The record that reports `status`.
pub fn to_record(status: &WebsiteStatus) -> (record: ReportRecord)
    ensures
        record@ == record_of(status@),
{
    ReportRecord {
        url: status.url.clone(),
        action_status: match &status.action_status {
            Ok(code) => Ok(*code),
            Err(message) => Err(message.clone()),
        },
        response_time_ms: status.response_time_ms,
        timestamp: match status.timestamp {
            Some(secs) => secs,
            None => 0,
        },
    }
}

/// The records that report `results`, one for each and in the same order.
pub fn to_records(results: &Vec<WebsiteStatus>) -> (records: Vec<ReportRecord>)
    ensures
        record_views(records@) == records_of(status_views(results@)),
{
    let mut records: Vec<ReportRecord> = Vec::new();
    let mut k: usize = 0;
    while k < results.len()
        invariant
            k <= results.len(),
            record_views(records@) == records_of(status_views(results@).take(k as int)),
        decreases results.len() - k,
    {
        let record = to_record(&results[k]);
        let ghost before = records@;
        records.push(record);
        proof {
            let all = status_views(results@);
            assert(record_views(records@) =~= record_views(before).push(record@));
            assert(records_of(all.take(k + 1)) =~= records_of(all.take(k as int)).push(
                record_of(all[k as int]),
            ));
        }
        k += 1;
    }
    proof {
        let all = status_views(results@);
        assert(all.take(results.len() as int) =~= all);
    }
    records
}

fn push_record(out: &mut String, record: &ReportRecord)
    ensures
        final(out)@ == old(out)@ + record_text(record@),
{
    out.append("  {\n    \"url\": ");
    push_quoted(out, record.url.as_str());
    out.append(",\n    \"action_status\": { ");
    match &record.action_status {
        Ok(code) => {
            out.append("\"Ok\": ");
            push_decimal(out, *code as u128);
        },
        Err(message) => {
            out.append("\"Err\": ");
            push_quoted(out, message.as_str());
        },
    }
    out.append(" },\n    \"response_time_ms\": ");
    push_decimal(out, record.response_time_ms);
    out.append(",\n    \"timestamp\": \"");
    push_decimal(out, record.timestamp as u128);
    out.append("\"\n  }");
    proof {
        assert(out@ =~= old(out)@ + record_text(record@));
    }
}

/// Writes the report that holds `records`.
pub fn render_records(records: &Vec<ReportRecord>) -> (text: String)
    ensures
        text@ == report_text(record_views(records@)),
{
    let ghost all = record_views(records@);
    let mut text = String::new();
    text.append("[\n");
    let mut k: usize = 0;
    while k < records.len()
        invariant
            k <= records.len(),
            all == record_views(records@),
            text@ + records_text(all, k as int) == "[\n"@ + records_text(all, 0),
        decreases records.len() - k,
    {
        let ghost before = text@;
        push_record(&mut text, &records[k]);
        if k + 1 == records.len() {
            text.append("\n");
        } else {
            text.append(",\n");
        }
        proof {
            assert(all[k as int] == records[k as int]@);
            if k + 1 == records.len() {
                assert(before + records_text(all, k as int) =~= text@);
                assert(text@ + records_text(all, k + 1) =~= text@);
            } else {
                assert(before + records_text(all, k as int) =~= text@ + records_text(all, k + 1));
            }
        }
        k += 1;
    }
    text.append("]\n");
    proof {
        assert(text@ =~= report_text(all));
    }
    text
}

/// Writes the report of a run: one record for each of `results`, in their
/// order.
pub fn render_report(results: &Vec<WebsiteStatus>) -> (text: String)
    ensures
        text@ == report_text(records_of(status_views(results@))),
{
    let records = to_records(results);
    render_records(&records)
}

fn read_action_at(t: &Vec<char>, i: usize) -> (r: Option<(Result<u16, String>, usize)>)
    ensures
        match r {
            Some((action_status, next)) => action_at(t@, i as int) == Some(
                (action_view(action_status), next as int),
            ) && i < next <= t.len(),
            None => action_at(t@, i as int) is None,
        },
{
    match expect(t, i, "\"Ok\": ") {
        Some(j) => match read_number_at(t, j, u16::MAX as u128) {
            Some((code, next)) => Some((Ok(code as u16), next)),
            None => None,
        },
        None => match expect(t, i, "\"Err\": ") {
            Some(j) => match read_string_at(t, j) {
                Some((message, next)) => Some((Err(message), next)),
                None => None,
            },
            None => None,
        },
    }
}

fn read_record_at(t: &Vec<char>, i: usize) -> (r: Option<(ReportRecord, usize)>)
    ensures
        match r {
            Some((record, next)) => record_at(t@, i as int) == Some((record@, next as int)) && i
                < next <= t.len(),
            None => record_at(t@, i as int) is None,
        },
{
    let i1 = match expect(t, i, "  {\n    \"url\": ") {
        Some(next) => next,
        None => {
            return None;
        },
    };
    let (url, i2) = match read_string_at(t, i1) {
        Some(found) => found,
        None => {
            return None;
        },
    };
    let i3 = match expect(t, i2, ",\n    \"action_status\": { ") {
        Some(next) => next,
        None => {
            return None;
        },
    };
    let (action_status, i4) = match read_action_at(t, i3) {
        Some(found) => found,
        None => {
            return None;
        },
    };
    let i5 = match expect(t, i4, " },\n    \"response_time_ms\": ") {
        Some(next) => next,
        None => {
            return None;
        },
    };
    let (response_time_ms, i6) = match read_number_at(t, i5, u128::MAX) {
        Some(found) => found,
        None => {
            return None;
        },
    };
    let i7 = match expect(t, i6, ",\n    \"timestamp\": \"") {
        Some(next) => next,
        None => {
            return None;
        },
    };
    let (secs, i8) = match read_number_at(t, i7, u64::MAX as u128) {
        Some(found) => found,
        None => {
            return None;
        },
    };
    let i9 = match expect(t, i8, "\"\n  }") {
        Some(next) => next,
        None => {
            return None;
        },
    };
    Some((ReportRecord { url, action_status, response_time_ms, timestamp: secs as u64 }, i9))
}

fn read_records_at(t: &Vec<char>, i: usize) -> (r: Option<(Vec<ReportRecord>, usize)>)
    requires
        i <= t.len(),
    ensures
        match r {
            Some((records, next)) => records_at(t@, i as int) == Some(
                (record_views(records@), next as int),
            ) && next <= t.len(),
            None => records_at(t@, i as int) is None,
        },
{
    let mut records: Vec<ReportRecord> = Vec::new();
    let mut k: usize = i;
    loop
        invariant
            i <= k <= t.len(),
            records_at(t@, i as int) == match records_at(t@, k as int) {
                Some((rest, end)) => Some((record_views(records@) + rest, end)),
                None => None,
            },
        decreases t.len() - k,
    {
        let (record, next) = match read_record_at(t, k) {
            Some(found) => found,
            None => {
                return None;
            },
        };
        let ghost before = record_views(records@);
        let ghost view = record@;
        records.push(record);
        proof {
            assert(record_views(records@) =~= before.push(view));
        }
        match expect(t, next, ",\n") {
            Some(after) => {
                proof {
                    match records_at(t@, after as int) {
                        Some((rest, end)) => {
                            assert(before + (seq![view] + rest) =~= before.push(view) + rest);
                        },
                        None => {},
                    }
                }
                k = after;
            },
            None => {
                match expect(t, next, "\n") {
                    Some(after) => {
                        proof {
                            assert(before + seq![view] =~= before.push(view));
                        }
                        return Some((records, after));
                    },
                    None => {
                        return None;
                    },
                }
            },
        }
    }
}

fn read_report(t: &Vec<char>) -> (r: Option<Vec<ReportRecord>>)
    ensures
        match r {
            Some(records) => report_at(t@) == Some(record_views(records@)),
            None => report_at(t@) is None,
        },
{
    let start = match expect(t, 0, "[\n") {
        Some(next) => next,
        None => {
            return None;
        },
    };
    match expect(t, start, "]\n") {
        Some(end) => {
            if end == t.len() {
                let records: Vec<ReportRecord> = Vec::new();
                assert(record_views(records@) =~= Seq::<ReportRecordView>::empty());
                Some(records)
            } else {
                None
            }
        },
        None => {
            let (records, next) = match read_records_at(t, start) {
                Some(found) => found,
                None => {
                    return None;
                },
            };
            match expect(t, next, "]\n") {
                Some(end) => {
                    if end == t.len() {
                        Some(records)
                    } else {
                        None
                    }
                },
                None => None,
            }
        },
    }
}

/// Reads a report back: the records that `text` reports, or nothing when
/// `text` is not a report as [`render_report`] writes it.
pub fn decode_report(text: &str) -> (r: Option<Vec<ReportRecord>>)
    ensures
        match r {
            Some(records) => decoded(text@) == Some(record_views(records@)),
            None => decoded(text@) is None,
        },
{
    let t = chars_of(text);
    let found = read_report(&t);
    proof {
        if decoded(text@) is Some {
            lemma_report_round_trip(decoded(text@)->0);
        }
    }
    match found {
        Some(records) => {
            let again = render_records(&records);
            if same_text(again.as_str(), text) {
                proof {
                    theorem_report_round_trip(record_views(records@));
                }
                Some(records)
            } else {
                None
            }
        },
        None => None,
    }
}

} // verus!
