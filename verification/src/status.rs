//! The outcome of probing one URL.

use vstd::prelude::*;

verus! {

/// What came of probing one URL: whether the endpoint answered, how long it
/// took, and when this was observed.
#[derive(Debug, PartialEq, Eq)]
pub struct WebsiteStatus {
    /// The endpoint that was probed.
    pub url: String,
    /// The status code of the answer, whatever it is, or the description of
    /// the transport failure of the last attempt.
    pub action_status: Result<u16, String>,
    /// Whole milliseconds from the start of the first attempt to the end of
    /// the last one.
    pub response_time_ms: u128,
    /// Whole seconds from the Unix epoch to the moment the outcome was
    /// observed, or nothing if that moment lies before the epoch.
    pub timestamp: Option<u64>,
}

pub struct WebsiteStatusView {
    pub url: Seq<char>,
    pub action_status: Result<u16, Seq<char>>,
    pub response_time_ms: u128,
    pub timestamp: Option<u64>,
}

/// What the result of an attempt or of a probe holds.
pub open spec fn action_view(action_status: Result<u16, String>) -> Result<u16, Seq<char>> {
    match action_status {
        Ok(code) => Ok(code),
        Err(message) => Err(message@),
    }
}

impl View for WebsiteStatus {
    type V = WebsiteStatusView;

    open spec fn view(&self) -> WebsiteStatusView {
        WebsiteStatusView {
            url: self.url@,
            action_status: action_view(self.action_status),
            response_time_ms: self.response_time_ms,
            timestamp: self.timestamp,
        }
    }
}

/// What a list of outcomes holds, in order.
pub open spec fn status_views(v: Seq<WebsiteStatus>) -> Seq<WebsiteStatusView> {
    v.map_values(|s: WebsiteStatus| s@)
}

/// The URLs of a list of outcomes, in order.
pub open spec fn status_urls(v: Seq<WebsiteStatusView>) -> Seq<Seq<char>> {
    v.map_values(|s: WebsiteStatusView| s.url)
}

} // verus!
