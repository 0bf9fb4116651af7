//! The executor: the steps of running one query around the exchange with the
//! service. `begin_query` turns the query line into the request body;
//! the caller sends it and hands the outcome to `finish_query`, which gives
//! the result or a stage-tagged message.

use vstd::prelude::*;
use crate::json::{json_text, JsonValue};
use crate::query::{clause_of, projection_of, split};
use crate::table::{normalize, normalized, TableData};
use crate::text::trim;
use crate::transport::{envelope_of, receive, request_body, Reply, TransportError};

verus! {

/// The hint given when the query line is empty.
pub const EMPTY_QUERY_HINT: &'static str = "Please enter a WAQL statement.";

/// The message prefix when the request could not be sent.
pub const SEND_FAILED_PREFIX: &'static str = "transport: request failed: ";

/// The message prefix when the response body is not JSON.
pub const INVALID_BODY_PREFIX: &'static str = "transport: response body is not JSON: ";

/// The message when the response is not a JSON object.
pub const NOT_AN_OBJECT_MESSAGE: &'static str = "transport: response is not a JSON object";

/// The text of the JSON document `text` as serde_json pretty-prints it.
pub uninterp spec fn pretty_of(text: Seq<char>) -> Seq<char>;

/// Relies on serde_json::from_str and serde_json::to_string_pretty: the
/// document `text` parsed and printed again with indentation, or empty when
/// it is not JSON. The result depends on the text alone.
#[verifier::external_body]
fn pretty_json(text: &str) -> (r: String)
    ensures
        r@ == pretty_of(text@),
{
    match serde_json::from_str::<serde_json::Value>(text) {
        Ok(value) => serde_json::to_string_pretty(&value).unwrap_or_default(),
        Err(_) => String::new(),
    }
}

/// The result of a query that reached the service.
#[derive(Debug, PartialEq, Eq)]
pub struct QueryResult {
    /// The service's answer, pretty-printed for display.
    pub raw_json: String,
    /// The answer as a table, when it holds a non-empty result array.
    pub table_data: Option<TableData>,
    /// The number of rows of the table, or zero without one.
    pub count: usize,
}

/// The number of rows of a table, or zero without one.
pub open spec fn row_count(t: Option<TableData>) -> nat {
    match t {
        Some(t) => t.rows@.len(),
        None => 0,
    }
}

/// The stage-tagged message for a transport failure.
pub open spec fn transport_message(e: TransportError) -> Seq<char> {
    match e {
        TransportError::SendFailed(d) => SEND_FAILED_PREFIX@ + d@,
        TransportError::InvalidResponseBody(d) => INVALID_BODY_PREFIX@ + d@,
        TransportError::NotAnObject => NOT_AN_OBJECT_MESSAGE@,
    }
}

/// The stage-tagged message for a transport failure.
pub fn failure_message(e: TransportError) -> (r: String)
    ensures
        r@ == transport_message(e),
{
    match e {
        TransportError::SendFailed(d) => {
            let mut m = SEND_FAILED_PREFIX.to_owned();
            m.append(d.as_str());
            m
        },
        TransportError::InvalidResponseBody(d) => {
            let mut m = INVALID_BODY_PREFIX.to_owned();
            m.append(d.as_str());
            m
        },
        TransportError::NotAnObject => NOT_AN_OBJECT_MESSAGE.to_owned(),
    }
}

/// First step of running a query: the body of the request to send, or the
/// hint to show when the line is empty.
pub fn begin_query(input: &str) -> (r: Result<String, String>)
    ensures
        r is Err <==> trim(input@).len() == 0,
        r matches Err(m) ==> m@ == EMPTY_QUERY_HINT@,
        r matches Ok(body) ==> body@ == json_text(
            envelope_of(clause_of(trim(input@)), projection_of(trim(input@))),
        ),
{
    match split(input) {
        Ok(req) => Ok(request_body(&req)),
        Err(_) => Err(EMPTY_QUERY_HINT.to_owned()),
    }
}

/// Last step of running a query: the outcome of the exchange, with `body`
/// the text of the response, becomes the result, whose display text is the
/// response pretty-printed, or a stage-tagged message.
pub fn finish_query(reply: Reply, body: &str) -> (r: Result<QueryResult, String>)
    ensures
        match reply {
            Reply::Parsed(JsonValue::Object(o)) => (r matches Ok(q) && q.raw_json@ == pretty_of(body@)
                && normalized(o@, q.table_data) && q.count == row_count(q.table_data)),
            Reply::Parsed(_) => (r matches Err(m) && m@ == transport_message(
                TransportError::NotAnObject,
            )),
            Reply::Unsent(d) => (r matches Err(m) && m@ == transport_message(
                TransportError::SendFailed(d),
            )),
            Reply::Unreadable(d) => (r matches Err(m) && m@ == transport_message(
                TransportError::InvalidResponseBody(d),
            )),
        },
{
    match receive(reply) {
        Ok(o) => {
            let raw_json = pretty_json(body);
            let table_data = normalize(&o);
            let count = match &table_data {
                Some(t) => t.rows.len(),
                None => 0,
            };
            Ok(QueryResult { raw_json, table_data, count })
        },
        Err(e) => Err(failure_message(e)),
    }
}

} // verus!
