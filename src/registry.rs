//! The schema registry: raw table definitions, as read from configuration,
//! checked and turned into the route table.

use vstd::prelude::*;
use vstd::string::StringExecFns;

use crate::mapping::{pairs_view, Pairs};
use crate::routing::BasicRoute;
use crate::schema::{ident_char, id_column, is_identifier, SQLType, SqlTableSchema};
use crate::text::{ascii_lowercase, chars_of, lower_seq, str_equal, string_of};

verus! {

/// One table as configuration declares it: its name, its route (if given) and
/// its columns as `(name, type keyword)` pairs.
#[derive(Debug)]
pub struct RawTable {
    pub name: String,
    pub route: Option<String>,
    pub columns: Vec<(String, String)>,
}

/// Why a configuration is refused.
#[derive(Clone, Copy, Debug, PartialEq, Eq, Structural)]
pub enum ConfigFault {
    /// A table declares no route.
    MissingRoute,
    /// A table or column name is not a plain SQL identifier.
    BadIdentifier,
    /// A column type is not `null`, `integer`, `real` or `text`.
    UnknownType,
    /// Two columns of a table share a name, or a column is named `id`.
    DuplicateColumn,
    /// Two tables declare the same route.
    DuplicateRoute,
}

/// A refused configuration: the fault and the name or keyword at fault.
#[derive(Debug)]
pub struct ConfigError {
    pub fault: ConfigFault,
    pub subject: String,
}

/// The column type a keyword names, in any letter case.
pub open spec fn type_named(k: Seq<char>) -> Option<SQLType> {
    let l = lower_seq(k);
    if l == "null"@ {
        Some(SQLType::Null)
    } else if l == "integer"@ {
        Some(SQLType::Integer)
    } else if l == "real"@ {
        Some(SQLType::Real)
    } else if l == "text"@ {
        Some(SQLType::Text)
    } else {
        None
    }
}

/// Typed columns as characters.
pub type Columns = Seq<(Seq<char>, SQLType)>;

/// The names of typed columns.
pub open spec fn column_names(cols: Columns) -> Seq<Seq<char>> {
    cols.map_values(|f: (Seq<char>, SQLType)| f.0)
}

/// The typed columns of one table, names lower-cased, or the first fault in
/// declaration order.
pub open spec fn check_columns(cols: Pairs) -> Result<Columns, (ConfigFault, Seq<char>)>
    decreases cols.len(),
{
    if cols.len() == 0 {
        Ok(Seq::empty())
    } else {
        match check_columns(cols.drop_last()) {
            Err(e) => Err(e),
            Ok(acc) => {
                let c = cols.last().0;
                let ty = cols.last().1;
                let l = lower_seq(c);
                if !is_identifier(l) {
                    Err((ConfigFault::BadIdentifier, c))
                } else if type_named(ty) is None {
                    Err((ConfigFault::UnknownType, ty))
                } else if l == "id"@ || column_names(acc).contains(l) {
                    Err((ConfigFault::DuplicateColumn, c))
                } else {
                    Ok(acc.push((l, type_named(ty)->0)))
                }
            },
        }
    }
}

/// One checked table: its route and its typed columns.
pub open spec fn check_table(name: Seq<char>, route: Option<Seq<char>>, cols: Pairs) -> Result<
    (Seq<char>, Columns),
    (ConfigFault, Seq<char>),
> {
    match route {
        None => Err((ConfigFault::MissingRoute, name)),
        Some(r) => if !is_identifier(name) {
            Err((ConfigFault::BadIdentifier, name))
        } else {
            match check_columns(cols) {
                Err(e) => Err(e),
                Ok(fs) => Ok((r, fs)),
            }
        },
    }
}

/// A route as characters: path, table name, typed columns.
pub type RouteView = (Seq<char>, Seq<char>, Columns);

/// The route table a configuration gives, in declaration order, or the first
/// fault.
pub open spec fn load_spec(tables: Seq<RawTable>) -> Result<Seq<RouteView>, (ConfigFault, Seq<char>)>
    decreases tables.len(),
{
    if tables.len() == 0 {
        Ok(Seq::empty())
    } else {
        match load_spec(tables.drop_last()) {
            Err(e) => Err(e),
            Ok(acc) => {
                let t = tables.last();
                let route = match t.route {
                    Some(r) => Some(r@),
                    None => None,
                };
                match check_table(t.name@, route, pairs_view(t.columns@)) {
                    Err(e) => Err(e),
                    Ok((r, fs)) => if acc.map_values(|v: RouteView| v.0).contains(r) {
                        Err((ConfigFault::DuplicateRoute, r))
                    } else {
                        Ok(acc.push((r, t.name@, fs)))
                    },
                }
            },
        }
    }
}

/// Typed columns of a schema as characters.
pub open spec fn fields_view(fields: Seq<(String, SQLType)>) -> Columns {
    fields.map_values(|f: (String, SQLType)| (f.0@, f.1))
}

/// A route table as characters.
pub open spec fn routes_view(routes: Seq<BasicRoute>) -> Seq<RouteView> {
    routes.map_values(
        |b: BasicRoute| (b.route@, b.table_schema.name@, fields_view(b.table_schema.fields@)),
    )
}

fn config_error(fault: ConfigFault, subject: &String) -> (r: ConfigError)
    ensures
        r.fault == fault,
        r.subject@ == subject@,
{
    ConfigError { fault, subject: subject.clone() }
}

/// Whether `cs` is a plain SQL identifier.
pub fn is_identifier_chars(cs: &Vec<char>) -> (r: bool)
    ensures
        r == is_identifier(cs@),
{
    if cs.len() == 0 {
        return false;
    }
    let c0 = cs[0];
    if !(('a' <= c0 && c0 <= 'z') || ('A' <= c0 && c0 <= 'Z') || c0 == '_') {
        return false;
    }
    let mut i: usize = 1;
    while i < cs.len()
        invariant
            1 <= i <= cs.len(),
            forall|j: int| 1 <= j < i ==> #[trigger] ident_char(cs@[j]),
        decreases cs.len() - i,
    {
        let c = cs[i];
        if !(('a' <= c && c <= 'z') || ('A' <= c && c <= 'Z') || c == '_' || ('0' <= c && c
            <= '9')) {
            assert(!ident_char(cs@[i as int]));
            return false;
        }
        i = i + 1;
    }
    true
}

/// The column type a keyword names, in any letter case.
pub fn parse_sql_type(keyword: &str) -> (r: Option<SQLType>)
    ensures
        r == type_named(keyword@),
{
    let lower = string_of(&ascii_lowercase(&chars_of(keyword)));
    if str_equal(lower.as_str(), "null") {
        Some(SQLType::Null)
    } else if str_equal(lower.as_str(), "integer") {
        Some(SQLType::Integer)
    } else if str_equal(lower.as_str(), "real") {
        Some(SQLType::Real)
    } else if str_equal(lower.as_str(), "text") {
        Some(SQLType::Text)
    } else {
        None
    }
}

fn contains_name(fields: &Vec<(String, SQLType)>, name: &String) -> (r: bool)
    ensures
        r == column_names(fields_view(fields@)).contains(name@),
{
    let ghost names = column_names(fields_view(fields@));
    let mut i: usize = 0;
    while i < fields.len()
        invariant
            i <= fields.len(),
            names == column_names(fields_view(fields@)),
            forall|j: int| 0 <= j < i ==> names[j] != name@,
        decreases fields.len() - i,
    {
        if fields[i].0 == *name {
            assert(names[i as int] == name@);
            return true;
        }
        i = i + 1;
    }
    proof {
        if names.contains(name@) {
            let k = names.index_of(name@);
            assert(names[k] == name@);
        }
    }
    false
}

/// Column names that are identifiers, none `id`, none twice.
pub open spec fn columns_ok(fields: Seq<(String, SQLType)>) -> bool {
    &&& forall|i: int|
        0 <= i < fields.len() ==> #[trigger] is_identifier(fields[i].0@) && fields[i].0@
            != id_column()
    &&& forall|i: int, j: int| 0 <= i < j < fields.len() ==> fields[i].0@ != fields[j].0@
}

fn check_columns_exec(cols: &Vec<(String, String)>) -> (r: Result<Vec<(String, SQLType)>, ConfigError>)
    ensures
        match check_columns(pairs_view(cols@)) {
            Ok(fs) => r matches Ok(v) && fields_view(v@) == fs,
            Err((f, s)) => r matches Err(e) && e.fault == f && e.subject@ == s,
        },
        r matches Ok(v) ==> columns_ok(v@),
{
    let ghost cv = pairs_view(cols@);
    let mut acc: Vec<(String, SQLType)> = Vec::new();
    assert(fields_view(acc@) =~= Seq::empty());
    assert(cv.take(0) =~= Seq::empty());
    let mut i: usize = 0;
    while i < cols.len()
        invariant
            i <= cols.len(),
            cv == pairs_view(cols@),
            check_columns(cv.take(i as int)) == Ok::<Columns, (ConfigFault, Seq<char>)>(
                fields_view(acc@),
            ),
            columns_ok(acc@),
        decreases cols.len() - i,
    {
        assert(cv.take(i + 1).drop_last() =~= cv.take(i as int));
        assert(cv.take(i + 1).last() == cv[i as int]);
        let c = &cols[i].0;
        let lower = ascii_lowercase(&chars_of(c.as_str()));
        let name = string_of(&lower);
        let fault = if !is_identifier_chars(&lower) {
            Some(config_error(ConfigFault::BadIdentifier, c))
        } else {
            match parse_sql_type(cols[i].1.as_str()) {
                None => Some(config_error(ConfigFault::UnknownType, &cols[i].1)),
                Some(ty) => {
                    if str_equal(name.as_str(), "id") || contains_name(&acc, &name) {
                        Some(config_error(ConfigFault::DuplicateColumn, c))
                    } else {
                        let ghost before = fields_view(acc@);
                        proof {
                            assert forall|j: int| 0 <= j < acc@.len() implies acc@[j].0@ != name@ by {
                                assert(column_names(fields_view(acc@))[j] == acc@[j].0@);
                            }
                        }
                        acc.push((name, ty));
                        assert(fields_view(acc@) =~= before.push((lower@, ty)));
                        None
                    }
                },
            }
        };
        if let Some(e) = fault {
            proof {
                lemma_check_columns_prefix(cv, i + 1);
            }
            return Err(e);
        }
        i = i + 1;
    }
    assert(cv.take(cols.len() as int) =~= cv);
    Ok(acc)
}

proof fn lemma_check_columns_prefix(cols: Pairs, k: int)
    requires
        0 <= k <= cols.len(),
        check_columns(cols.take(k)) is Err,
    ensures
        check_columns(cols) == check_columns(cols.take(k)),
    decreases cols.len() - k,
{
    if k < cols.len() {
        assert(cols.take(k + 1).drop_last() =~= cols.take(k));
        lemma_check_columns_prefix(cols, k + 1);
    } else {
        assert(cols.take(k) =~= cols);
    }
}

proof fn lemma_load_prefix(tables: Seq<RawTable>, k: int)
    requires
        0 <= k <= tables.len(),
        load_spec(tables.take(k)) is Err,
    ensures
        load_spec(tables) == load_spec(tables.take(k)),
    decreases tables.len() - k,
{
    if k < tables.len() {
        assert(tables.take(k + 1).drop_last() =~= tables.take(k));
        lemma_load_prefix(tables, k + 1);
    } else {
        assert(tables.take(k) =~= tables);
    }
}

fn contains_route(routes: &Vec<BasicRoute>, path: &String) -> (r: bool)
    ensures
        r == routes_view(routes@).map_values(|v: RouteView| v.0).contains(path@),
{
    let ghost paths = routes_view(routes@).map_values(|v: RouteView| v.0);
    let mut i: usize = 0;
    while i < routes.len()
        invariant
            i <= routes.len(),
            paths == routes_view(routes@).map_values(|v: RouteView| v.0),
            forall|j: int| 0 <= j < i ==> paths[j] != path@,
        decreases routes.len() - i,
    {
        if routes[i].route == *path {
            assert(paths[i as int] == path@);
            return true;
        }
        i = i + 1;
    }
    proof {
        if paths.contains(path@) {
            let k = paths.index_of(path@);
            assert(paths[k] == path@);
        }
    }
    false
}

/// Checks every table definition and builds the route table, one route per
/// table in declaration order; refuses the whole configuration at the first
/// fault.
pub fn load_routes(tables: &Vec<RawTable>) -> (r: Result<Vec<BasicRoute>, ConfigError>)
    ensures
        match load_spec(tables@) {
            Ok(v) => r matches Ok(routes) && routes_view(routes@) == v,
            Err((f, s)) => r matches Err(e) && e.fault == f && e.subject@ == s,
        },
        r matches Ok(routes) ==> forall|i: int|
            0 <= i < routes@.len() ==> #[trigger] routes@[i].table_schema.well_formed(),
{
    let mut routes: Vec<BasicRoute> = Vec::new();
    assert(routes_view(routes@) =~= Seq::empty());
    assert(tables@.take(0) =~= Seq::empty());
    let mut i: usize = 0;
    while i < tables.len()
        invariant
            i <= tables.len(),
            load_spec(tables@.take(i as int)) == Ok::<Seq<RouteView>, (ConfigFault, Seq<char>)>(
                routes_view(routes@),
            ),
            forall|j: int| 0 <= j < routes@.len() ==> #[trigger] routes@[j].table_schema.well_formed(),
        decreases tables.len() - i,
    {
        assert(tables@.take(i + 1).drop_last() =~= tables@.take(i as int));
        assert(tables@.take(i + 1).last() == tables@[i as int]);
        let t = &tables[i];
        let route = match &t.route {
            None => {
                proof {
                    lemma_load_prefix(tables@, i + 1);
                }
                return Err(config_error(ConfigFault::MissingRoute, &t.name));
            },
            Some(r) => r,
        };
        if !is_identifier_chars(&chars_of(t.name.as_str())) {
            proof {
                lemma_load_prefix(tables@, i + 1);
            }
            return Err(config_error(ConfigFault::BadIdentifier, &t.name));
        }
        let fields = match check_columns_exec(&t.columns) {
            Err(e) => {
                proof {
                    lemma_load_prefix(tables@, i + 1);
                }
                return Err(e);
            },
            Ok(f) => f,
        };
        if contains_route(&routes, route) {
            proof {
                lemma_load_prefix(tables@, i + 1);
            }
            return Err(config_error(ConfigFault::DuplicateRoute, route));
        }
        let ghost before = routes_view(routes@);
        let ghost fs = fields_view(fields@);
        let schema = SqlTableSchema { name: t.name.clone(), fields };
        assert(schema.well_formed()) by {
            assert forall|j: int| 0 <= j < schema.columns().len() implies #[trigger] is_identifier(
                schema.columns()[j],
            ) && schema.columns()[j] != id_column() by {
                assert(schema.columns()[j] == schema.fields@[j].0@);
            }
            assert forall|a: int, b: int|
                0 <= a < b < schema.columns().len() implies schema.columns()[a]
                != schema.columns()[b] by {
                assert(schema.columns()[a] == schema.fields@[a].0@);
                assert(schema.columns()[b] == schema.fields@[b].0@);
            }
        }
        routes.push(BasicRoute::new(route.clone(), schema));
        assert(routes_view(routes@) =~= before.push((route@, t.name@, fs)));
        i = i + 1;
    }
    assert(tables@.take(tables.len() as int) =~= tables@);
    Ok(routes)
}

} // verus!
