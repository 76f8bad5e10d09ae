//! The per-request decisions: which reply a request gets at each stage, and
//! how a classified failure becomes a status code with a generic body.

use vstd::prelude::*;
use vstd::string::StringExecFns;
use vstd::utf8::{decode_utf8, valid_utf8};

use crate::builder::{plan_view, statement_plan, BoundStatement};
use crate::json_calls::{json_accepts, json_top_object};
use crate::query::{method_named, write_sections, QueryErr, Sqlite3Query};
use crate::response::{rows_json, rows_view, CellValue, ResponseBuilder, Sqlite3ResponseBuilder};
use crate::routing::{first_route, route_for_uri, uri_path, BasicRoute};
use crate::schema::SqlTableSchema;
use crate::text::str_equal;

verus! {

/// A reply: status code, body and headers.
#[derive(Debug)]
pub struct HttpReply {
    pub status: u16,
    pub body: String,
    pub headers: Vec<(String, String)>,
}

/// The methods a preflight request is told about.
pub open spec fn allowed_methods() -> Seq<char> {
    "OPTIONS, GET, POST, DELETE, PATCH"@
}

/// The reply to an `OPTIONS` request: no content, with the `Allow` and
/// `Accept` headers.
pub fn options_reply() -> (r: HttpReply)
    ensures
        r.status == 204,
        r.body@.len() == 0,
        r.headers@.len() == 2,
        r.headers@[0].0@ == "Allow"@,
        r.headers@[0].1@ == allowed_methods(),
        r.headers@[1].0@ == "Accept"@,
        r.headers@[1].1@ == "application/json"@,
{
    let mut headers: Vec<(String, String)> = Vec::new();
    headers.push((String::from_str("Allow"), String::from_str("OPTIONS, GET, POST, DELETE, PATCH")));
    headers.push((String::from_str("Accept"), String::from_str("application/json")));
    HttpReply { status: 204, body: String::new(), headers }
}

/// The reply when no route matches.
pub fn not_found_reply() -> (r: HttpReply)
    ensures
        r.status == 404,
        r.body@ == "Route not found"@,
        r.headers@.len() == 0,
{
    HttpReply { status: 404, body: String::from_str("Route not found"), headers: Vec::new() }
}

/// The reply to a failed request: 500 when the server is at fault, 400 when
/// the client is; the body never repeats the failure's description.
pub fn reply_for_error(err: &QueryErr) -> (r: HttpReply)
    ensures
        err.1 ==> r.status == 500 && r.body@ == "Server Error Encountered"@,
        !err.1 ==> r.status == 400 && r.body@ == "Client Error Encountered"@,
        r.headers@.len() == 0,
{
    if err.1 {
        HttpReply {
            status: 500,
            body: String::from_str("Server Error Encountered"),
            headers: Vec::new(),
        }
    } else {
        HttpReply {
            status: 400,
            body: String::from_str("Client Error Encountered"),
            headers: Vec::new(),
        }
    }
}

/// The reply when storage fails to run a statement.
pub fn storage_failure_reply() -> (r: HttpReply)
    ensures
        r.status == 500,
        r.body@ == "Server Error Encountered"@,
        r.headers@.len() == 0,
{
    reply_for_error(&QueryErr::server("storage failed"))
}

/// The reply to a served request: 200 with the rows as JSON.
pub fn reply_for_rows(rows: Vec<Vec<CellValue>>) -> (r: HttpReply)
    ensures
        r.status == 200,
        r.body@ == rows_json(rows_view(rows@)),
        r.headers@.len() == 0,
{
    HttpReply { status: 200, body: Sqlite3ResponseBuilder::from_row_data(rows), headers: Vec::new() }
}

/// Where a request goes first: answered at once, or served by a table.
pub enum Dispatch<'a> {
    Options,
    NotFound,
    Serve(&'a SqlTableSchema),
}

/// An `OPTIONS` request is answered before routing; any other request goes
/// to the first route matching its path, or is not found.
pub fn dispatch<'a>(method_name: &str, uri: &str, routes: &'a Vec<BasicRoute>) -> (r: Dispatch<'a>)
    ensures
        method_name@ == "OPTIONS"@ ==> r is Options,
        method_name@ != "OPTIONS"@ ==> match first_route(routes@, uri_path(uri@)) {
            Some(i) => r == Dispatch::Serve(&routes@[i].table_schema),
            None => r is NotFound,
        },
{
    if str_equal(method_name, "OPTIONS") {
        return Dispatch::Options;
    }
    match route_for_uri(routes, uri) {
        Some(t) => Dispatch::Serve(t),
        None => Dispatch::NotFound,
    }
}

/// The statements a request to `table` runs, or the reply that refuses it.
pub fn prepare(method_name: &str, uri: &str, body: Vec<u8>, table: &SqlTableSchema) -> (r: Result<
    Vec<BoundStatement>,
    HttpReply,
>)
    ensures
        method_named(method_name@) is INVALID ==> (r matches Err(e) && e.status == 400),
        method_named(method_name@).is_write() && !valid_utf8(body@) ==> (r matches Err(e)
            && e.status == 500),
        method_named(method_name@).is_write() && valid_utf8(body@) && !json_accepts(
            decode_utf8(body@),
        ) ==> (r matches Err(e) && e.status == 400),
        r matches Err(e) ==> e.status == 400 || e.status == 500,
        r matches Err(e) && e.status == 500 ==> method_named(method_name@).is_write()
            && !valid_utf8(body@),
        method_named(method_name@).is_write() && valid_utf8(body@) && json_accepts(
            decode_utf8(body@),
        ) && !json_top_object(decode_utf8(body@)) ==> (r matches Err(e) && e.status == 400),
        method_named(method_name@).is_write() && valid_utf8(body@) && json_accepts(
            decode_utf8(body@),
        ) && json_top_object(decode_utf8(body@)) ==> match write_sections(
            *table,
            decode_utf8(body@),
        ) {
            (Some(c), Some(f)) => match statement_plan(method_named(method_name@), *table, c, f) {
                Some(p) => (r matches Ok(v) && plan_view(v@) == p),
                None => (r matches Err(e) && e.status == 400),
            },
            _ => (r matches Err(e) && e.status == 400),
        },
        method_named(method_name@) is GET ==> (r matches Ok(p) && statement_plan(
            method_named(method_name@),
            *table,
            Seq::empty(),
            crate::query::get_filters(*table, uri@),
        ) == Some(plan_view(p@))),
{
    let q = match Sqlite3Query::from_request(method_name, uri, body, table) {
        Ok(q) => q,
        Err(e) => {
            return Err(reply_for_error(&e));
        },
    };
    proof {
        if q.fields_data@.len() == 0 {
            assert(q.fields_view() =~= Seq::empty());
        }
    }
    match q.build_statements() {
        Ok(p) => Ok(p),
        Err(e) => Err(reply_for_error(&e)),
    }
}

} // verus!
