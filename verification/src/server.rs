//! What the HTTP server answers.

use vstd::prelude::*;

verus! {

/// Content type of metrics.
pub const METRICS_CONTENT_TYPE: &'static str =
    "application/openmetrics-text; version=1.0.0; charset=utf-8";

/// Content type of plain text.
pub const TEXT_CONTENT_TYPE: &'static str = "text/plain; charset=utf-8";

/// An answer.
#[derive(Debug)]
pub struct Reply {
    /// The status.
    pub status: u16,
    /// The content type.
    pub content_type: &'static str,
    /// The body.
    pub body: String,
}

/// Answers a request for metrics with what came of encoding them.
pub fn metrics_reply(encoded: Result<String, String>) -> (r: Reply)
    ensures
        match encoded {
            Ok(text) => {
                &&& r.status == 200
                &&& r.content_type@ == METRICS_CONTENT_TYPE@
                &&& r.body@ == text@
            },
            Err(_) => {
                &&& r.status == 500
                &&& r.content_type@ == TEXT_CONTENT_TYPE@
                &&& r.body@ == "encode failure"@
            },
        },
{
    match encoded {
        Ok(body) => Reply { status: 200, content_type: METRICS_CONTENT_TYPE, body },
        Err(_) => Reply {
            status: 500,
            content_type: TEXT_CONTENT_TYPE,
            body: "encode failure".to_owned(),
        },
    }
}

/// Answers a request for the root.
pub fn root_reply() -> (r: Reply)
    ensures
        r.status == 200,
        r.content_type@ == TEXT_CONTENT_TYPE@,
        r.body@ == "solaredge_exporter — metrics at /metrics\n"@,
{
    Reply {
        status: 200,
        content_type: TEXT_CONTENT_TYPE,
        body: "solaredge_exporter — metrics at /metrics\n".to_owned(),
    }
}

/// Metrics that could be encoded are answered as they are, in the format that
/// they are encoded in; the reason why they could not is answered to nobody.
pub proof fn lemma_metrics_answered(encoded: Result<String, String>, r: Reply)
    requires
        call_ensures(metrics_reply, (encoded,), r),
    ensures
        r.status == 200 <==> encoded is Ok,
        encoded is Err ==> r.status == 500 && r.body@ == "encode failure"@ && r.content_type@
            == "text/plain; charset=utf-8"@,
        encoded matches Ok(text) ==> r.body@ == text@ && r.content_type@
            == "application/openmetrics-text; version=1.0.0; charset=utf-8"@,
{
}

} // verus!
