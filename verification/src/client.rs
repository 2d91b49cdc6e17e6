//! Metrics of the requests that the operator sends to the API server.

use crate::metrics::{
    counted_up, described, registered, Counters, LabelSet, LabelSetView, Tally,
};
use crate::url::{template_path, template_path_spec};
use prometheus_client::registry::Registry;
use vstd::prelude::*;

verus! {

/// Name of the counter of answers by status code.
pub const REQUESTS_TOTAL: &'static str = "kubernetes_client_http_requests_total";

/// Help text of the counter of answers by status code.
pub const REQUESTS_TOTAL_HELP: &'static str =
    "Total number of Kubernetes's client requests by status code.";

/// Name of the histogram of request durations by endpoint.
pub const REQUEST_DURATION: &'static str = "kubernetes_client_http_request_duration";

/// Help text of the histogram of request durations by endpoint.
pub const REQUEST_DURATION_HELP: &'static str =
    "Summary of latencies for the Kubernetes client's requests by endpoint.";

/// What `url_escape::encode_path` makes of a text.
pub uninterp spec fn path_encoded(text: Seq<char>) -> Seq<char>;

/// `url_escape::encode_path`: the text with every character that may not
/// stand in the path of a URL replaced by its percent escape. The result
/// depends on the text alone.
#[verifier::external_body]
fn encode_path(text: &str) -> (encoded: String)
    ensures
        encoded@ == path_encoded(text@),
{
    url_escape::encode_path(text).to_string()
}

/// Label of the request durations: where the request went.
#[derive(Clone, Hash, PartialEq, Eq, Debug, Default)]
pub struct EndpointLabel {
    pub endpoint: String,
}

/// Label of the answers: the HTTP status.
#[derive(Clone, Hash, PartialEq, Eq, Debug, Default)]
pub struct StatusCodeLabel {
    pub status_code: String,
}

/// The digit for `value` in base ten.
pub open spec fn decimal_digit(value: nat) -> char {
    "0123456789"@[value as int]
}

/// `value` in base ten.
pub open spec fn decimal(value: nat) -> Seq<char>
    decreases value,
{
    if value < 10 {
        seq![decimal_digit(value)]
    } else {
        decimal(value / 10).push(decimal_digit(value % 10))
    }
}

/// The label set of the answers with status `code`.
pub open spec fn status_labels(code: u16) -> LabelSetView {
    seq![("status_code"@, decimal(code as nat))]
}

fn digit_text(value: u16) -> (text: &'static str)
    requires
        value < 10,
    ensures
        text@ == seq![decimal_digit(value as nat)],
{
    proof {
        reveal_strlit("0123456789");
        reveal_strlit("0");
        reveal_strlit("1");
        reveal_strlit("2");
        reveal_strlit("3");
        reveal_strlit("4");
        reveal_strlit("5");
        reveal_strlit("6");
        reveal_strlit("7");
        reveal_strlit("8");
        reveal_strlit("9");
    }
    match value {
        0 => "0",
        1 => "1",
        2 => "2",
        3 => "3",
        4 => "4",
        5 => "5",
        6 => "6",
        7 => "7",
        8 => "8",
        _ => "9",
    }
}

/// `value` in base ten.
pub fn decimal_text(value: u16) -> (text: String)
    ensures
        text@ == decimal(value as nat),
    decreases value,
{
    if value < 10 {
        digit_text(value).to_owned()
    } else {
        let front = decimal_text(value / 10);
        front.concat(digit_text(value % 10))
    }
}

impl EndpointLabel {
    /// The label for a request to `path`: the path with names replaced by
    /// placeholders, escaped for use in a URL.
    pub fn for_path(path: &str) -> (label: EndpointLabel)
        ensures
            label.endpoint@ == path_encoded(template_path_spec(path@, None)),
    {
        let template = template_path(path, None);
        EndpointLabel::from_template(encode_path(template.as_str()))
    }

    /// The label that holds the escaped template `encoded`.
    pub fn from_template(encoded: String) -> (label: EndpointLabel)
        ensures
            label.endpoint@ == encoded@,
    {
        EndpointLabel { endpoint: encoded }
    }
}

impl StatusCodeLabel {
    /// The label for an answer with status `code`.
    pub fn for_status(code: u16) -> (label: StatusCodeLabel)
        ensures
            label.status_code@ == decimal(code as nat),
    {
        StatusCodeLabel { status_code: decimal_text(code) }
    }

    /// The label as names and values.
    pub fn pairs(&self) -> (pairs: LabelSet)
        ensures
            pairs.deep_view() == seq![("status_code"@, self.status_code@)],
    {
        let mut pairs: LabelSet = Vec::new();
        pairs.push(("status_code".to_owned(), self.status_code.clone()));
        pairs
    }
}

/// Counts the answers of the API server by status code.
pub struct RequestMetrics {
    requests_total: Counters,
}

impl View for RequestMetrics {
    type V = Tally;

    closed spec fn view(&self) -> Tally {
        crate::metrics::counter_values(self.requests_total)
    }
}

impl RequestMetrics {
    /// Metrics that are registered with `registry` and have counted nothing
    /// yet.
    pub fn new(registry: &mut Registry) -> (metrics: RequestMetrics)
        ensures
            metrics@ == Tally::empty(),
            registered(*final(registry)) == registered(*old(registry)).push(
                described(REQUESTS_TOTAL@, REQUESTS_TOTAL_HELP@),
            ),
    {
        let requests_total = crate::metrics::new_counters();
        crate::metrics::register_counters(
            registry,
            REQUESTS_TOTAL,
            REQUESTS_TOTAL_HELP,
            &requests_total,
        );
        RequestMetrics { requests_total }
    }

    /// Counts an answer with status `code`.
    pub fn count_response(&mut self, code: u16)
        ensures
            final(self)@ == counted_up(old(self)@, status_labels(code)),
    {
        let labels = StatusCodeLabel::for_status(code).pairs();
        crate::metrics::count_up(&mut self.requests_total, &labels);
    }
}

} // verus!
