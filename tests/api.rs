use rest_api::builder::BoundStatement;
use rest_api::pipeline::{
    dispatch, not_found_reply, options_reply, prepare, reply_for_error, reply_for_rows,
    storage_failure_reply, Dispatch,
};
use rest_api::json_calls::JsonSection;
use rest_api::query::{HttpMethod, QueryErr, Sqlite3Query};
use rest_api::registry::{load_routes, parse_sql_type, ConfigFault, RawTable};
use rest_api::response::{CellValue, ResponseBuilder, SerialiseField, Sqlite3ResponseBuilder};
use rest_api::routing::{match_route, route_for_uri, split_uri_args, BasicRoute, Route};
use rest_api::schema::{SQLType, SqlTableSchema, Table};

fn people() -> SqlTableSchema {
    SqlTableSchema {
        name: "people".to_string(),
        fields: vec![
            ("name".to_string(), SQLType::Text),
            ("age".to_string(), SQLType::Integer),
        ],
    }
}

fn routes() -> Vec<BasicRoute> {
    vec![
        BasicRoute::new("/people".to_string(), people()),
        BasicRoute::new(
            "/jobs".to_string(),
            SqlTableSchema {
                name: "jobs".to_string(),
                fields: vec![("title".to_string(), SQLType::Text)],
            },
        ),
    ]
}

fn plan(method: &str, uri: &str, body: &str) -> Result<Vec<BoundStatement>, u16> {
    let schema = people();
    prepare(method, uri, body.as_bytes().to_vec(), &schema).map_err(|r| r.status)
}

fn shape(p: &[BoundStatement]) -> Vec<(String, Vec<String>)> {
    p.iter().map(|s| (s.text.clone(), s.bindings.clone())).collect()
}

fn strings(v: &[&str]) -> Vec<String> {
    v.iter().map(|s| s.to_string()).collect()
}

// A read with one filter.
#[test]
fn get_with_one_filter() {
    let rs = routes();
    match dispatch("GET", "/people?age=30", &rs) {
        Dispatch::Serve(t) => assert_eq!(t.name, "people"),
        _ => panic!("expected a route"),
    }
    let p = plan("GET", "/people?age=30", "").unwrap();
    assert_eq!(
        shape(&p),
        vec![("SELECT * FROM people WHERE age=?".to_string(), strings(&["30"]))]
    );
}

// An insert in schema column order, then a read of the new row.
#[test]
fn post_inserts_in_field_order() {
    let p = plan("POST", "/people", r#"{"columns": {"age": "30", "name": "Ann"}}"#).unwrap();
    assert_eq!(
        shape(&p),
        vec![
            ("INSERT INTO people VALUES (NULL, ?, ?)".to_string(), strings(&["Ann", "30"])),
            ("SELECT * FROM people ORDER BY id DESC LIMIT 1".to_string(), vec![]),
        ]
    );
}

// No route for the path.
#[test]
fn unknown_route_is_not_found() {
    let rs = routes();
    assert!(matches!(dispatch("GET", "/unknown", &rs), Dispatch::NotFound));
    let r = not_found_reply();
    assert_eq!(r.status, 404);
    assert_eq!(r.body, "Route not found");
}

// An undeclared column and missing declared ones.
#[test]
fn post_unknown_column_is_client_fault() {
    assert_eq!(plan("POST", "/people", r#"{"columns": {"nickname": "x"}}"#).err(), Some(400));
}

// The preflight reply.
#[test]
fn options_lists_five_methods() {
    let rs = routes();
    assert!(matches!(dispatch("OPTIONS", "/people", &rs), Dispatch::Options));
    let r = options_reply();
    assert_eq!(r.status, 204);
    assert_eq!(r.body, "");
    assert_eq!(
        r.headers,
        vec![
            ("Allow".to_string(), "OPTIONS, GET, POST, DELETE, PATCH".to_string()),
            ("Accept".to_string(), "application/json".to_string()),
        ]
    );
    assert_eq!(r.headers[0].1.split(", ").count(), 5);
}

#[test]
fn split_uri_at_last_question_mark() {
    assert_eq!(split_uri_args("/a?b?c".to_string()), ("/a?b".to_string(), "c".to_string()));
    assert_eq!(split_uri_args("/p".to_string()), ("/p".to_string(), String::new()));
    assert_eq!(split_uri_args("/p?".to_string()), ("/p".to_string(), String::new()));
    assert_eq!(split_uri_args("/é?ü=1".to_string()), ("/é".to_string(), "ü=1".to_string()));
    assert_eq!(split_uri_args(String::new()), (String::new(), String::new()));
}

#[test]
fn route_match_ignores_arguments() {
    let rs = routes();
    let a = route_for_uri(&rs, "/jobs").map(|t| t.name.clone());
    let b = route_for_uri(&rs, "/jobs?title=x&y=z").map(|t| t.name.clone());
    assert_eq!(a, Some("jobs".to_string()));
    assert_eq!(a, b);
    assert!(route_for_uri(&rs, "/jobs/?x").is_none());
}

#[test]
fn first_matching_route_wins() {
    let mut rs = routes();
    rs.push(BasicRoute::new(
        "/people".to_string(),
        SqlTableSchema { name: "other".to_string(), fields: vec![] },
    ));
    assert_eq!(match_route(&rs, "/people").unwrap().name, "people");
    assert!(rs[0].matches_uri("/people".to_string()));
    assert!(!rs[0].matches_uri("/people/".to_string()));
    assert_eq!(rs[1].get_schema().name, "jobs");
}

#[test]
fn field_exists_includes_id() {
    let t = people();
    assert!(t.field_exists("id"));
    assert!(t.field_exists("name"));
    assert!(!t.field_exists("nickname"));
    assert!(!t.field_exists("Name"));
}

#[test]
fn get_arguments_are_filtered_and_decoded() {
    let t = people();
    let q = Sqlite3Query::from_get("/people?NAME=Ann+Lee&bogus=1&noeq&age=3=0&name=Bo", &t);
    assert_eq!(q.method, HttpMethod::GET);
    assert!(q.fields_data.is_empty());
    assert_eq!(
        q.filter,
        vec![
            ("name".to_string(), "Bo".to_string()),
            ("age".to_string(), "3=0".to_string()),
        ]
    );
    let q = Sqlite3Query::from_get("/people?id=7&Age=Ann+Lee", &t);
    assert_eq!(
        q.filter,
        vec![("id".to_string(), "7".to_string()), ("age".to_string(), "Ann Lee".to_string())]
    );
}

#[test]
fn get_without_arguments_reads_everything() {
    let p = plan("GET", "/people", "").unwrap();
    assert_eq!(shape(&p), vec![("SELECT * FROM people".to_string(), vec![])]);
    let p = plan("GET", "/people?bogus=1", "ignored").unwrap();
    assert_eq!(shape(&p), vec![("SELECT * FROM people".to_string(), vec![])]);
}

#[test]
fn values_never_reach_statement_text() {
    let evil = "x%27;DROP+TABLE+people;--";
    let p = plan("GET", &format!("/people?name={}&age=1", evil), "").unwrap();
    assert_eq!(p[0].text, "SELECT * FROM people WHERE name=? AND age=?");
    assert_eq!(p[0].bindings, strings(&["x%27;DROP TABLE people;--", "1"]));
    let body = r#"{"columns": {"name": "'); DROP TABLE people; --", "age": "1 OR 1=1"}}"#;
    let p = plan("POST", "/people", body).unwrap();
    assert_eq!(p[0].text, "INSERT INTO people VALUES (NULL, ?, ?)");
    assert_eq!(p[0].bindings, strings(&["'); DROP TABLE people; --", "1 OR 1=1"]));
}

#[test]
fn post_needs_every_declared_column() {
    assert_eq!(plan("POST", "/people", r#"{"columns": {"name": "Ann"}}"#).err(), Some(400));
    assert_eq!(plan("POST", "/people", r#"{"columns": {}}"#).err(), Some(400));
    assert_eq!(plan("POST", "/people", r#"{}"#).err(), Some(400));
    assert_eq!(
        plan("POST", "/people", r#"{"columns": {"name": "Ann", "age": "1", "id": "9"}}"#).err(),
        Some(400)
    );
}

#[test]
fn write_body_faults() {
    assert_eq!(plan("POST", "/people", "{not json").err(), Some(400));
    assert_eq!(plan("POST", "/people", "[1, 2]").err(), Some(400));
    assert_eq!(plan("POST", "/people", r#"{"columns": 5}"#).err(), Some(400));
    assert_eq!(plan("POST", "/people", r#"{"columns": {"name": "Ann", "age": 30}}"#).err(), Some(400));
    assert_eq!(plan("DELETE", "/people", r#"{"filters": []}"#).err(), Some(400));
    assert_eq!(plan("DELETE", "/people", r#"{"filters": {"bogus": "1"}}"#).err(), Some(400));
    let t = people();
    let r = prepare("POST", "/people", vec![0xff, 0xfe], &t);
    assert_eq!(r.err().map(|r| r.status), Some(500));
}

#[test]
fn unsupported_methods_are_client_faults() {
    assert_eq!(plan("PUT", "/people", "{}").err(), Some(400));
    assert_eq!(plan("get", "/people", "").err(), Some(400));
    assert_eq!(HttpMethod::from_name("PATCH"), HttpMethod::PATCH);
    assert_eq!(HttpMethod::from_name("HEAD"), HttpMethod::INVALID);
}

#[test]
fn delete_needs_a_filter() {
    assert_eq!(plan("DELETE", "/people", "{}").err(), Some(400));
    let p = plan("DELETE", "/people", r#"{"filters": {"name": "Ann", "id": "4"}}"#).unwrap();
    assert_eq!(
        shape(&p),
        vec![("DELETE FROM people WHERE name=? AND id=?".to_string(), strings(&["Ann", "4"]))]
    );
}

#[test]
fn patch_updates_filtered_rows() {
    let body = r#"{"columns": {"age": "31"}, "filters": {"name": "Ann"}}"#;
    let p = plan("PATCH", "/people", body).unwrap();
    assert_eq!(
        shape(&p),
        vec![("UPDATE people SET age=? WHERE name=?".to_string(), strings(&["31", "Ann"]))]
    );
    let body = r#"{"columns": {"age": "31", "name": "Bo"}, "filters": {"id": "1", "age": "30"}}"#;
    let p = plan("PATCH", "/people", body).unwrap();
    assert_eq!(p[0].text, "UPDATE people SET age=?, name=? WHERE id=? AND age=?");
    assert_eq!(p[0].bindings, strings(&["31", "Bo", "1", "30"]));
    assert_eq!(plan("PATCH", "/people", r#"{"columns": {"age": "31"}}"#).err(), Some(400));
    assert_eq!(plan("PATCH", "/people", r#"{"filters": {"age": "31"}}"#).err(), Some(400));
}

#[test]
fn sections_decode_exactly() {
    let t = people();
    let cols = JsonSection::Entries(vec![
        ("name".to_string(), Some("Ann".to_string())),
        ("name".to_string(), Some("Bo".to_string())),
    ]);
    let q = Sqlite3Query::from_sections(HttpMethod::POST, &cols, &JsonSection::Absent, &t).unwrap();
    assert_eq!(q.fields_data, vec![("name".to_string(), "Bo".to_string())]);
    assert!(q.filter.is_empty());
    let bad = JsonSection::Entries(vec![("name".to_string(), None)]);
    let e = Sqlite3Query::from_sections(HttpMethod::POST, &bad, &JsonSection::Absent, &t);
    assert!(matches!(e, Err(QueryErr(_, false))));
    let e = Sqlite3Query::from_sections(HttpMethod::PATCH, &JsonSection::Absent, &JsonSection::NotObject, &t);
    assert!(matches!(e, Err(QueryErr(_, false))));
    let e = Sqlite3Query::from_sections(HttpMethod::INVALID, &JsonSection::Absent, &JsonSection::Absent, &t);
    assert!(matches!(e, Err(QueryErr(_, false))));
}

#[test]
fn error_replies_hide_descriptions() {
    let r = reply_for_error(&QueryErr("table people is missing".to_string(), true));
    assert_eq!((r.status, r.body.as_str()), (500, "Server Error Encountered"));
    let r = reply_for_error(&QueryErr("bad column".to_string(), false));
    assert_eq!((r.status, r.body.as_str()), (400, "Client Error Encountered"));
    let r = storage_failure_reply();
    assert_eq!(r.status, 500);
    assert_eq!(QueryErr("x".to_string(), false).description(), "x");
}

#[test]
fn rows_encode_as_json_arrays() {
    let rows = vec![
        vec![
            CellValue::Null,
            CellValue::Integer(-42),
            CellValue::Text("a\"b".to_string()),
            CellValue::Other,
            CellValue::Real { positive: true, mantissa: 15, exponent: -1 },
        ],
        vec![],
        vec![CellValue::Other, CellValue::Integer(i64::MIN), CellValue::Integer(0)],
    ];
    assert_eq!(
        Sqlite3ResponseBuilder::from_row_data(rows),
        r#"[[null,-42,"a\"b",1.5],[],[-9223372036854775808,0]]"#
    );
    assert_eq!(Sqlite3ResponseBuilder::from_row_data(vec![]), "[]");
    let r = reply_for_rows(vec![vec![CellValue::Text("x".to_string())]]);
    assert_eq!((r.status, r.body.as_str()), (200, r#"[["x"]]"#));
}

#[test]
fn cells_serialise_as_text() {
    assert_eq!(CellValue::Null.serialise(), "null");
    assert_eq!(CellValue::Integer(30).serialise(), "30");
    assert_eq!(CellValue::Integer(i64::MAX).serialise(), "9223372036854775807");
    assert_eq!(CellValue::Text("Ann".to_string()).serialise(), "Ann");
    assert_eq!(
        CellValue::Real { positive: false, mantissa: 25, exponent: -2 }.serialise(),
        "-0.25"
    );
    assert_eq!(CellValue::Other.serialise(), "");
}

#[test]
fn create_statement_has_implicit_id() {
    let t = people();
    let table = Table { name: t.name, fields: t.fields };
    assert_eq!(
        table.generate_create_sql(),
        "CREATE TABLE IF NOT EXISTS people (id INTEGER PRIMARY KEY, name TEXT, age INTEGER);"
    );
    let empty = Table { name: "e".to_string(), fields: vec![] };
    assert_eq!(empty.generate_create_sql(), "CREATE TABLE IF NOT EXISTS e (id INTEGER PRIMARY KEY);");
}

fn raw(name: &str, route: Option<&str>, cols: &[(&str, &str)]) -> RawTable {
    RawTable {
        name: name.to_string(),
        route: route.map(|r| r.to_string()),
        columns: cols.iter().map(|(c, t)| (c.to_string(), t.to_string())).collect(),
    }
}

#[test]
fn registry_builds_routes() {
    let tables = vec![
        raw("people", Some("/people"), &[("Name", "TEXT"), ("age", "integer")]),
        raw("jobs", Some("/jobs"), &[("pay", "Real"), ("gone", "null")]),
    ];
    let rs = load_routes(&tables).unwrap();
    assert_eq!(rs.len(), 2);
    assert_eq!(rs[0].route, "/people");
    assert_eq!(rs[0].table_schema.name, "people");
    assert_eq!(
        rs[0].table_schema.fields,
        vec![("name".to_string(), SQLType::Text), ("age".to_string(), SQLType::Integer)]
    );
    assert_eq!(
        rs[1].table_schema.fields,
        vec![("pay".to_string(), SQLType::Real), ("gone".to_string(), SQLType::Null)]
    );
}

#[test]
fn registry_refuses_bad_tables() {
    let fault = |tables: Vec<RawTable>| load_routes(&tables).err().map(|e| (e.fault, e.subject));
    assert_eq!(
        fault(vec![raw("people", None, &[])]),
        Some((ConfigFault::MissingRoute, "people".to_string()))
    );
    assert_eq!(
        fault(vec![raw("people", Some("/p"), &[("name", "varchar")])]),
        Some((ConfigFault::UnknownType, "varchar".to_string()))
    );
    assert_eq!(
        fault(vec![raw("a", Some("/p"), &[]), raw("b", Some("/p"), &[])]),
        Some((ConfigFault::DuplicateRoute, "/p".to_string()))
    );
    assert_eq!(
        fault(vec![raw("peo ple", Some("/p"), &[])]),
        Some((ConfigFault::BadIdentifier, "peo ple".to_string()))
    );
    assert_eq!(
        fault(vec![raw("t", Some("/p"), &[("1st", "text")])]),
        Some((ConfigFault::BadIdentifier, "1st".to_string()))
    );
    assert_eq!(
        fault(vec![raw("t", Some("/p"), &[("Name", "text"), ("name", "text")])]),
        Some((ConfigFault::DuplicateColumn, "name".to_string()))
    );
    assert_eq!(
        fault(vec![raw("t", Some("/p"), &[("ID", "integer")])]),
        Some((ConfigFault::DuplicateColumn, "ID".to_string()))
    );
    assert_eq!(parse_sql_type("InTeGeR"), Some(SQLType::Integer));
    assert_eq!(parse_sql_type("blob"), None);
    assert_eq!(SQLType::Real.keyword(), "REAL");
}

fn cell(v: &sqlite3::Value) -> CellValue {
    match v {
        sqlite3::Value::Null => CellValue::Null,
        sqlite3::Value::Integer(i) => CellValue::Integer(*i),
        sqlite3::Value::String(s) => CellValue::Text(s.clone()),
        sqlite3::Value::Float(f) => {
            let (positive, mantissa, exponent) = json::number::Number::from(*f).as_parts();
            CellValue::Real { positive, mantissa, exponent }
        },
        sqlite3::Value::Binary(_) => CellValue::Other,
    }
}

fn run(conn: &sqlite3::Connection, s: &BoundStatement) -> Vec<Vec<CellValue>> {
    let mut cursor = conn.prepare(s.text.as_str()).unwrap().cursor();
    let values: Vec<sqlite3::Value> =
        s.bindings.iter().map(|b| sqlite3::Value::String(b.clone())).collect();
    cursor.bind(&values).unwrap();
    let mut rows = Vec::new();
    while let Some(row) = cursor.next().unwrap() {
        rows.push(row.iter().map(cell).collect());
    }
    rows
}

#[test]
fn post_then_get_round_trips_through_storage() {
    let t = people();
    let conn = sqlite3::open(":memory:").unwrap();
    let table = Table { name: t.name.clone(), fields: t.fields.clone() };
    conn.execute(table.generate_create_sql()).unwrap();

    let body = r#"{"columns": {"name": "Ann", "age": "30"}}"#;
    let post = prepare("POST", "/people", body.as_bytes().to_vec(), &t).unwrap();
    let mut last = Vec::new();
    for s in &post {
        last = run(&conn, s);
    }
    assert_eq!(Sqlite3ResponseBuilder::from_row_data(last), r#"[[1,"Ann",30]]"#);

    let get = prepare("GET", "/people", vec![], &t).unwrap();
    let rows = run(&conn, &get[0]);
    assert_eq!(rows.len(), 1);
    // the integer column stores "30" as the number 30, whose text is "30" again
    let texts: Vec<String> = rows[0][1..].iter().map(|c| c.serialise()).collect();
    assert_eq!(texts, strings(&["Ann", "30"]));

    let get = prepare("GET", "/people?age=30", vec![], &t).unwrap();
    assert_eq!(run(&conn, &get[0]).len(), 1);
    let del = prepare("DELETE", "/people", br#"{"filters": {"name": "Ann"}}"#.to_vec(), &t).unwrap();
    run(&conn, &del[0]);
    let get = prepare("GET", "/people", vec![], &t).unwrap();
    assert_eq!(Sqlite3ResponseBuilder::from_row_data(run(&conn, &get[0])), "[]");
}

#[test]
fn hand_built_queries_cannot_name_foreign_columns() {
    let t = people();
    let patch = Sqlite3Query {
        method: HttpMethod::PATCH,
        table_schema: &t,
        fields_data: vec![("id".to_string(), "9".to_string())],
        filter: vec![("name".to_string(), "Ann".to_string())],
    };
    assert!(matches!(patch.construct_patch_sql(), Err(QueryErr(_, false))));
    assert!(matches!(patch.build_statements(), Err(QueryErr(_, false))));
    let get = Sqlite3Query {
        method: HttpMethod::GET,
        table_schema: &t,
        fields_data: vec![],
        filter: vec![("1=1 OR name".to_string(), "x".to_string())],
    };
    assert!(matches!(get.construct_get_sql(), Err(QueryErr(_, false))));
    let delete = Sqlite3Query {
        method: HttpMethod::DELETE,
        table_schema: &t,
        fields_data: vec![],
        filter: vec![("nickname".to_string(), "x".to_string())],
    };
    assert!(matches!(delete.construct_delete_sql(), Err(QueryErr(_, false))));
    let ok = Sqlite3Query {
        method: HttpMethod::PATCH,
        table_schema: &t,
        fields_data: vec![("age".to_string(), "5".to_string())],
        filter: vec![("id".to_string(), "1".to_string())],
    };
    let s = ok.construct_patch_sql().unwrap();
    assert_eq!(s.text, "UPDATE people SET age=? WHERE id=?");
    assert_eq!(s.bindings, strings(&["5", "1"]));
}

#[test]
fn strings_are_escaped_as_json() {
    let rows = vec![vec![CellValue::Text("\u{1}\t\\\u{8}é/\u{1f}".to_string())]];
    assert_eq!(
        Sqlite3ResponseBuilder::from_row_data(rows),
        "[[\"\\u0001\\t\\\\\\bé/\\u001f\"]]"
    );
}

#[test]
fn null_section_is_absent() {
    let p = plan("POST", "/people", r#"{"columns": {"name": "Ann", "age": "1"}, "filters": null}"#)
        .unwrap();
    assert_eq!(p[0].bindings, strings(&["Ann", "1"]));
    assert_eq!(plan("DELETE", "/people", r#"{"filters": null}"#).err(), Some(400));
    assert_eq!(plan("PATCH", "/people", r#"{"columns": "age", "filters": {"id": "1"}}"#).err(), Some(400));
}
