//! What is sent to the metadata service, and how its answers are judged.

use vstd::prelude::*;
use crate::text::{chars_of, id_list, push_id_list, push_str, string_of};

verus! {

/// The address of a resource kind's bulk endpoint.
pub open spec fn endpoint_uri_text(kind: Seq<char>) -> Seq<char> {
    "https://api.igdb.com/v4/"@ + kind
}

/// The query that asks for the records of `ids`, with the fields that `fields` selects.
pub open spec fn fetch_body_text(fields: Seq<char>, ids: Seq<u32>) -> Seq<char> {
    "limit 500; fields "@ + fields + "; where id=("@ + id_list(ids) + ");"@
}

/// The path and query of the token exchange for a client id and secret.
pub open spec fn token_path_text(client_id: Seq<char>, client_secret: Seq<char>) -> Seq<char> {
    "/oauth2/token?client_id="@ + client_id + "&client_secret="@ + client_secret
        + "&grant_type=client_credentials"@
}

/// Whether an HTTP status counts as success.
pub open spec fn is_success(status: u16) -> bool {
    200 <= status <= 299
}

/// One bulk request: the resource kind, the address and the query.
pub struct FetchRequest {
    pub endpoint: String,
    pub uri: String,
    pub body: String,
}

/// Why a bulk fetch failed.
pub enum FetchError {
    /// The service answered with a status that is not a success.
    RemoteApi { endpoint: String, request: String, response: String },
    /// The answer did not decode into the expected records.
    Decode { endpoint: String, request: String, response: String, message: String },
    /// The service could not be reached.
    Transport { message: String },
}

/// The address of the bulk endpoint for `kind`.
pub fn endpoint_uri(kind: &str) -> (r: String)
    ensures
        r@ == endpoint_uri_text(kind@),
{
    let mut out: Vec<char> = Vec::new();
    push_str(&mut out, "https://api.igdb.com/v4/");
    push_str(&mut out, kind);
    string_of(&out)
}

/// The query for the records of `ids`.
pub fn fetch_body(fields: &str, ids: &Vec<u32>) -> (r: String)
    ensures
        r@ == fetch_body_text(fields@, ids@),
{
    let mut out: Vec<char> = Vec::new();
    push_str(&mut out, "limit 500; fields ");
    push_str(&mut out, fields);
    push_str(&mut out, "; where id=(");
    push_id_list(&mut out, ids);
    push_str(&mut out, ");");
    string_of(&out)
}

/// The bulk request for the records of `ids` of resource kind `endpoint`.
pub fn fetch_request(endpoint: &str, fields: &str, ids: &Vec<u32>) -> (r: FetchRequest)
    ensures
        r.endpoint@ == endpoint@,
        r.uri@ == endpoint_uri_text(endpoint@),
        r.body@ == fetch_body_text(fields@, ids@),
{
    FetchRequest { endpoint: endpoint.to_owned(), uri: endpoint_uri(endpoint), body: fetch_body(fields, ids) }
}

/// The path and query of the token exchange.
pub fn token_path(client_id: &str, client_secret: &str) -> (r: String)
    ensures
        r@ == token_path_text(client_id@, client_secret@),
{
    let mut out: Vec<char> = Vec::new();
    push_str(&mut out, "/oauth2/token?client_id=");
    push_str(&mut out, client_id);
    push_str(&mut out, "&client_secret=");
    push_str(&mut out, client_secret);
    push_str(&mut out, "&grant_type=client_credentials");
    string_of(&out)
}

/// The headers of a bulk request, as name and value.
pub fn request_headers(client_id: &str, access_token: &str) -> (r: Vec<(String, String)>)
    ensures
        r@.len() == 3,
        r@[0].0@ == "Client-ID"@ && r@[0].1@ == client_id@,
        r@[1].0@ == "Authorization"@ && r@[1].1@ == "Bearer "@ + access_token@,
        r@[2].0@ == "Accept"@ && r@[2].1@ == "application/json"@,
{
    let mut bearer: Vec<char> = Vec::new();
    push_str(&mut bearer, "Bearer ");
    push_str(&mut bearer, access_token);
    let mut r: Vec<(String, String)> = Vec::new();
    r.push((string_of(&chars_of("Client-ID")), client_id.to_owned()));
    r.push((string_of(&chars_of("Authorization")), string_of(&bearer)));
    r.push((string_of(&chars_of("Accept")), string_of(&chars_of("application/json"))));
    r
}

/// Judges the answer to a bulk request: a success status hands the body on; any other
/// status is a remote error that carries the endpoint, the request and the answer.
pub fn check_response(endpoint: &str, request: &str, status: u16, response: String) -> (r: Result<
    String,
    FetchError,
>)
    ensures
        is_success(status) <==> r is Ok,
        r matches Ok(b) ==> b@ == response@,
        r matches Err(e) ==> (e matches FetchError::RemoteApi { endpoint: p, request: q, response: a }
            && p@ == endpoint@ && q@ == request@ && a@ == response@),
{
    if 200 <= status && status <= 299 {
        Ok(response)
    } else {
        Err(FetchError::RemoteApi { endpoint: endpoint.to_owned(), request: request.to_owned(), response })
    }
}

} // verus!
