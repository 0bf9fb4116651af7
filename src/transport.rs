//! The transport client's decisions: the request envelope sent to the query
//! service, and the classification of what came back. Sending the request is
//! left to the caller.

use vstd::prelude::*;
use crate::json::{
    json_text, lemma_list_view, lemma_members_view, list_view, members_view, to_json_text, Json,
    JsonObject, JsonValue,
};
use crate::query::QueryRequest;

verus! {

/// The service operation that runs a query.
pub const OPERATION: &'static str = "ak.wwise.core.object.get";

/// The address of the query service.
pub const SERVICE_URL: &'static str = "http://127.0.0.1:8090/waapi";

/// The model of the request envelope for a clause and a projection.
pub open spec fn envelope_of(clause: Seq<char>, projection: Option<Seq<Seq<char>>>) -> Json {
    let options = match projection {
        Some(fields) => seq![("return"@, Json::Array(fields.map_values(|f: Seq<char>| Json::Str(f))))],
        None => seq![],
    };
    Json::Object(
        seq![
            ("uri"@, Json::Str(OPERATION@)),
            ("args"@, Json::Object(seq![("waql"@, Json::Str(clause))])),
            ("options"@, Json::Object(options)),
        ],
    )
}

fn member(key: &str, value: JsonValue) -> (r: (String, JsonValue))
    ensures
        r.0@ == key@,
        r.1 == value,
{
    (key.to_owned(), value)
}

/// An object of a single member.
fn single(key: &str, value: JsonValue) -> (r: JsonValue)
    ensures
        r@ == Json::Object(seq![(key@, value@)]),
{
    let mut entries: Vec<(String, JsonValue)> = Vec::new();
    entries.push(member(key, value));
    proof {
        lemma_members_view(entries@);
    }
    let r = JsonValue::Object(JsonObject { entries });
    assert(r@->Object_0 =~= seq![(key@, value@)]);
    r
}

/// The request envelope for a query: the operation, the clause under
/// `args.waql`, and the projection under `options.return` when there is one.
pub fn envelope(req: &QueryRequest) -> (r: JsonValue)
    ensures
        r@ == envelope_of(req.clause@, req.projection_view()),
{
    let options = match &req.projection {
        Some(fields) => {
            let mut items: Vec<JsonValue> = Vec::new();
            let n = fields.len();
            let mut i: usize = 0;
            while i < n
                invariant
                    n == fields@.len(),
                    i <= n,
                    items@.len() == i,
                    forall|k: int| 0 <= k < i ==> #[trigger] items@[k] == JsonValue::Str(fields@[k]),
                decreases n - i,
            {
                items.push(JsonValue::Str(fields[i].clone()));
                i = i + 1;
            }
            proof {
                lemma_list_view(items@);
                assert(list_view(items@) =~= crate::text::views(fields@).map_values(
                    |f: Seq<char>| Json::Str(f),
                ));
            }
            single("return", JsonValue::Array(items))
        },
        None => JsonValue::Object(JsonObject { entries: Vec::new() }),
    };
    proof {
        if req.projection is None {
            assert(options@->Object_0 =~= seq![]);
        }
    }
    let mut entries: Vec<(String, JsonValue)> = Vec::new();
    entries.push(member("uri", JsonValue::Str(OPERATION.to_owned())));
    entries.push(member("args", single("waql", JsonValue::Str(req.clause.clone()))));
    entries.push(member("options", options));
    proof {
        lemma_members_view(entries@);
    }
    let r = JsonValue::Object(JsonObject { entries });
    assert(r@->Object_0 =~= envelope_of(req.clause@, req.projection_view())->Object_0);
    r
}

/// The body of the request for a query: the compact JSON text of its
/// envelope.
pub fn request_body(req: &QueryRequest) -> (r: String)
    ensures
        r@ == json_text(envelope_of(req.clause@, req.projection_view())),
{
    to_json_text(&envelope(req))
}

/// What the exchange with the service gave.
#[derive(Debug, PartialEq, Eq)]
pub enum Reply {
    /// The request could not be sent, or no response arrived.
    Unsent(String),
    /// A response arrived whose body is not JSON.
    Unreadable(String),
    /// A response arrived whose body is this JSON value.
    Parsed(JsonValue),
}

/// Why an exchange with the service failed.
#[derive(Debug, PartialEq, Eq)]
pub enum TransportError {
    /// The request could not be sent, or no response arrived.
    SendFailed(String),
    /// The response body is not JSON.
    InvalidResponseBody(String),
    /// The response is JSON, but not an object.
    NotAnObject,
}

/// Classifies the outcome of an exchange: a JSON object is handed back
/// unchanged, anything else becomes the matching error.
pub fn receive(reply: Reply) -> (r: Result<JsonObject, TransportError>)
    ensures
        match reply {
            Reply::Unsent(d) => r == Err::<JsonObject, _>(TransportError::SendFailed(d)),
            Reply::Unreadable(d) => r == Err::<JsonObject, _>(
                TransportError::InvalidResponseBody(d),
            ),
            Reply::Parsed(JsonValue::Object(o)) => r == Ok::<_, TransportError>(o),
            Reply::Parsed(_) => r == Err::<JsonObject, _>(TransportError::NotAnObject),
        },
{
    match reply {
        Reply::Unsent(d) => Err(TransportError::SendFailed(d)),
        Reply::Unreadable(d) => Err(TransportError::InvalidResponseBody(d)),
        Reply::Parsed(JsonValue::Object(o)) => Ok(o),
        Reply::Parsed(_) => Err(TransportError::NotAnObject),
    }
}

} // verus!
