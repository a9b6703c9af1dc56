//! The sink of the worker pool: it keeps the outcomes in the order in which
//! they arrive and words one progress line for each.

use crate::status::{status_views, WebsiteStatus, WebsiteStatusView};
use crate::text::{chars_of, decimal, find_char, find_from, push_decimal, string_of, trim, trimmed};
use vstd::prelude::*;
use vstd::string::StringExecFns;

verus! {

/// The short form of a failure message: what stands before its first `:`,
/// trimmed, or `Unknown error` when it has no `:`.
pub open spec fn error_summary(message: Seq<char>) -> Seq<char> {
    let colon = find_from(message, ':', 0);
    if colon < message.len() {
        trimmed(message.take(colon))
    } else {
        "Unknown error"@
    }
}

/// The progress line of an outcome that was observed `age_secs` seconds ago.
pub open spec fn progress_text(status: WebsiteStatusView, age_secs: nat) -> Seq<char> {
    "["@ + decimal(age_secs) + "] "@ + status.url + " => "@ + match status.action_status {
        Ok(code) => decimal(code as nat),
        Err(message) => "ERROR: "@ + error_summary(message),
    }
}

/// The short form of a failure message.
pub fn summarize_error(message: &str) -> (summary: String)
    ensures
        summary@ == error_summary(message@),
{
    let v = chars_of(message);
    let colon = find_char(&v, ':', 0);
    if colon < v.len() {
        let head = string_of(&v, 0, colon);
        assert(head@ =~= message@.take(colon as int));
        trim(head.as_str())
    } else {
        "Unknown error".to_owned()
    }
}

/// Words the progress line of `status`, observed `age_secs` seconds ago.
pub fn progress_line(status: &WebsiteStatus, age_secs: u64) -> (line: String)
    ensures
        line@ == progress_text(status@, age_secs as nat),
{
    let mut line = String::new();
    line.append("[");
    push_decimal(&mut line, age_secs as u128);
    line.append("] ");
    line.append(status.url.as_str());
    line.append(" => ");
    match &status.action_status {
        Ok(code) => {
            push_decimal(&mut line, *code as u128);
        },
        Err(message) => {
            line.append("ERROR: ");
            let summary = summarize_error(message.as_str());
            line.append(summary.as_str());
        },
    }
    proof {
        assert(line@ =~= progress_text(status@, age_secs as nat));
    }
    line
}

/// The outcomes that have arrived, oldest first.
#[derive(Debug, PartialEq, Eq)]
pub struct Collector {
    results: Vec<WebsiteStatus>,
}

impl View for Collector {
    type V = Seq<WebsiteStatusView>;

    closed spec fn view(&self) -> Seq<WebsiteStatusView> {
        status_views(self.results@)
    }
}

impl Collector {
    /// A collector to which nothing has arrived.
    pub fn new() -> (collector: Collector)
        ensures
            collector@ == Seq::<WebsiteStatusView>::empty(),
    {
        let collector = Collector { results: Vec::new() };
        assert(collector@ =~= Seq::<WebsiteStatusView>::empty());
        collector
    }

    /// The number of outcomes that have arrived.
    pub fn len(&self) -> (n: usize)
        ensures
            n == self@.len(),
    {
        self.results.len()
    }

    /// Takes in an outcome that was observed `age_secs` seconds ago: it is put
    /// behind those that arrived before it, none of which changes, and its
    /// progress line is handed back.
    pub fn collect(&mut self, status: WebsiteStatus, age_secs: u64) -> (line: String)
        ensures
            final(self)@ == old(self)@.push(status@),
            line@ == progress_text(status@, age_secs as nat),
    {
        let line = progress_line(&status, age_secs);
        self.results.push(status);
        assert(self@ =~= old(self)@.push(status@));
        line
    }

    /// The outcomes in the order of their arrival, once no more will come.
    pub fn into_results(self) -> (results: Vec<WebsiteStatus>)
        ensures
            status_views(results@) == self@,
    {
        self.results
    }
}

} // verus!
