//! The computed halves of the two HTTP endpoints.
//!
//! The embedding server owns the transport: it drains request bodies, holds
//! the store behind its lock, and writes the responses out.  The functions
//! here take the plain values that remain — the store and the uploaded text
//! — and decide status and body for both endpoints.

use vstd::prelude::*;
use vstd::string::StringExecFns;

use crate::json::{json_records, to_json};
use crate::parser::{err_msg, parse, spec_parse, ParseError};
use crate::record::RecordModel;
use crate::store::AppState;

verus! {

/// A computed HTTP response: status code and body text.
pub struct Response {
    pub status: u16,
    pub body: String,
}

/// The body of the client-error response for a failed upload.
pub open spec fn error_body(e: ParseError) -> Seq<char> {
    "CSV Parse Error: "@ + err_msg(e)
}

/// The store contents after an upload of `body` over records `s`: the full
/// parsed replacement on success, the old records untouched on failure.
pub open spec fn store_after_upload(s: Seq<RecordModel>, body: Seq<char>) -> Seq<RecordModel> {
    match spec_parse(body) {
        Ok(r) => r,
        Err(_) => s,
    }
}

/// Around an upload, the store only ever holds one of two complete
/// snapshots: the records from before, or the whole parsed replacement —
/// never a mixture of the two; in particular a failed parse keeps the old
/// snapshot wholesale.
pub proof fn lemma_upload_snapshot(s: Seq<RecordModel>, body: Seq<char>)
    ensures
        store_after_upload(s, body) == s || store_after_upload(s, body) == spec_parse(body)->Ok_0,
        spec_parse(body) is Err ==> store_after_upload(s, body) == s,
        spec_parse(body) is Ok ==> store_after_upload(s, body) == spec_parse(body)->Ok_0,
{
}

/// The read endpoint: serializes a snapshot of the store as a JSON array,
/// always with status 200 — an empty store gives `[]`.
pub fn get_json(state: &AppState) -> (resp: Response)
    ensures
        resp.status == 200,
        resp.body@ == json_records(state@),
{
    let records = state.read();
    let body = to_json(&records);
    Response { status: 200, body }
}

/// The upload endpoint: parses the uploaded text and either replaces the
/// store wholesale and echoes the new records as JSON with status 200, or
/// leaves the store untouched and reports the parse error with status 400.
pub fn upload_csv(state: &mut AppState, body: &str) -> (resp: Response)
    ensures
        final(state)@ == store_after_upload(old(state)@, body@),
        spec_parse(body@) is Ok ==> resp.status == 200 && resp.body@ == json_records(
            spec_parse(body@)->Ok_0,
        ),
        spec_parse(body@) is Err ==> resp.status == 400 && resp.body@ == error_body(
            spec_parse(body@)->Err_0,
        ),
{
    match parse(body) {
        Ok(records) => {
            let json = to_json(&records);
            state.replace(records);
            Response { status: 200, body: json }
        },
        Err(e) => {
            let mut b = String::new();
            b.append("CSV Parse Error: ");
            let m = e.message();
            b.append(m.as_str());
            proof {
                assert(b@ =~= error_body(e));
            }
            Response { status: 400, body: b }
        },
    }
}

} // verus!
