//! Statement building: one parameterized statement per request method. Table
//! and column names come from the schema; every client value is a binding.

use vstd::prelude::*;
use vstd::string::StringExecFns;

use crate::mapping::{get_value, keys_of, lookup, pairs_view, values_of, Pairs};
use crate::query::{client_fault, keys_allowed, name_allowed, names_allowed, HttpMethod, QueryErr, Sqlite3Query};
use crate::schema::SqlTableSchema;

verus! {

/// SQL text with its positional bindings.
#[derive(Debug)]
pub struct BoundStatement {
    pub text: String,
    pub bindings: Vec<String>,
}

/// The characters of each string.
pub open spec fn strings_view(v: Seq<String>) -> Seq<Seq<char>> {
    v.map_values(|s: String| s@)
}

/// A statement as characters: its text and its bindings.
pub open spec fn statement_view(s: BoundStatement) -> (Seq<char>, Seq<Seq<char>>) {
    (s.text@, strings_view(s.bindings@))
}

/// The statements of a plan as characters.
pub open spec fn plan_view(v: Seq<BoundStatement>) -> Seq<(Seq<char>, Seq<Seq<char>>)> {
    v.map_values(|s: BoundStatement| statement_view(s))
}

/// `k1=? <sep> k2=? <sep> ...` over the given column names.
pub open spec fn join_marked(keys: Seq<Seq<char>>, sep: Seq<char>) -> Seq<char>
    decreases keys.len(),
{
    if keys.len() == 0 {
        Seq::empty()
    } else if keys.len() == 1 {
        keys[0] + "=?"@
    } else {
        join_marked(keys.drop_last(), sep) + sep + keys.last() + "=?"@
    }
}

/// ` WHERE k1=? AND k2=? ...`, or nothing without filters.
pub open spec fn where_clause(keys: Seq<Seq<char>>) -> Seq<char> {
    if keys.len() == 0 {
        Seq::empty()
    } else {
        " WHERE "@ + join_marked(keys, " AND "@)
    }
}

/// `n` value placeholders, each preceded by a comma.
pub open spec fn placeholders(n: nat) -> Seq<char>
    decreases n,
{
    if n == 0 {
        Seq::empty()
    } else {
        placeholders((n - 1) as nat) + ", ?"@
    }
}

pub open spec fn select_text(table: Seq<char>, keys: Seq<Seq<char>>) -> Seq<char> {
    "SELECT * FROM "@ + table + where_clause(keys)
}

pub open spec fn insert_text(table: Seq<char>, n: nat) -> Seq<char> {
    "INSERT INTO "@ + table + " VALUES (NULL"@ + placeholders(n) + ")"@
}

pub open spec fn last_row_text(table: Seq<char>) -> Seq<char> {
    "SELECT * FROM "@ + table + " ORDER BY id DESC LIMIT 1"@
}

pub open spec fn delete_text(table: Seq<char>, keys: Seq<Seq<char>>) -> Seq<char> {
    "DELETE FROM "@ + table + where_clause(keys)
}

pub open spec fn update_text(table: Seq<char>, set_keys: Seq<Seq<char>>, keys: Seq<Seq<char>>) -> Seq<char> {
    "UPDATE "@ + table + " SET "@ + join_marked(set_keys, ", "@) + where_clause(keys)
}

/// The value of each declared column, in declaration order, or `None` when
/// one of them has no value.
pub open spec fn insert_bindings(cols: Seq<Seq<char>>, fields: Pairs) -> Option<Seq<Seq<char>>>
    decreases cols.len(),
{
    if cols.len() == 0 {
        Some(Seq::empty())
    } else {
        match (insert_bindings(cols.drop_last(), fields), lookup(fields, cols.last())) {
            (Some(b), Some(v)) => Some(b.push(v)),
            _ => None,
        }
    }
}

/// The statements a decoded request runs, in order, or `None` when the
/// request cannot be served (a client fault):
/// - every column written must be declared (`id` is never written) and
///   every filter must name a declared column or `id`;
/// - a read selects the rows that match every filter;
/// - a create inserts one value per declared column and then reads the new row;
/// - a delete needs at least one filter;
/// - an update needs at least one column and at least one filter.
pub open spec fn statement_plan(
    method: HttpMethod,
    t: SqlTableSchema,
    fields: Pairs,
    filter: Pairs,
) -> Option<Seq<(Seq<char>, Seq<Seq<char>>)>> {
    let name = t.name@;
    if !names_allowed(t, true, fields) || !names_allowed(t, false, filter) {
        None
    } else {
    match method {
        HttpMethod::GET => Some(seq![(select_text(name, keys_of(filter)), values_of(filter))]),
        HttpMethod::POST => if fields.len() == 0 {
            None
        } else {
            match insert_bindings(t.columns(), fields) {
                Some(b) => Some(
                    seq![(insert_text(name, t.columns().len()), b), (last_row_text(name), Seq::empty())],
                ),
                None => None,
            }
        },
        HttpMethod::DELETE => if filter.len() == 0 {
            None
        } else {
            Some(seq![(delete_text(name, keys_of(filter)), values_of(filter))])
        },
        HttpMethod::PATCH => if fields.len() == 0 || filter.len() == 0 {
            None
        } else {
            Some(
                seq![
                    (
                        update_text(name, keys_of(fields), keys_of(filter)),
                        values_of(fields) + values_of(filter),
                    ),
                ],
            )
        },
        HttpMethod::INVALID => None,
    }
    }
}

/// Appends `k1=?<sep>k2=?...` over the keys of `m`.
fn push_marked(out: &mut String, m: &Vec<(String, String)>, sep: &str)
    ensures
        final(out)@ == old(out)@ + join_marked(keys_of(pairs_view(m@)), sep@),
{
    let ghost ks = keys_of(pairs_view(m@));
    let mut i: usize = 0;
    while i < m.len()
        invariant
            i <= m.len(),
            ks == keys_of(pairs_view(m@)),
            out@ == old(out)@ + join_marked(ks.take(i as int), sep@),
        decreases m.len() - i,
    {
        assert(ks.take(i + 1).drop_last() =~= ks.take(i as int));
        assert(ks.take(i + 1).last() == m@[i as int].0@);
        if i > 0 {
            out.append(sep);
        }
        out.append(m[i].0.as_str());
        out.append("=?");
        assert(out@ =~= old(out)@ + join_marked(ks.take(i + 1), sep@));
        i = i + 1;
    }
    assert(ks.take(m.len() as int) =~= ks);
}

/// Appends ` WHERE k1=? AND ...` over the keys of `m`, or nothing when `m` is
/// empty.
fn push_where(out: &mut String, m: &Vec<(String, String)>)
    ensures
        final(out)@ == old(out)@ + where_clause(keys_of(pairs_view(m@))),
{
    if m.len() > 0 {
        out.append(" WHERE ");
        push_marked(out, m, " AND ");
        assert(out@ =~= old(out)@ + where_clause(keys_of(pairs_view(m@))));
    } else {
        assert(where_clause(keys_of(pairs_view(m@))) =~= Seq::empty());
        assert(out@ =~= old(out)@ + where_clause(keys_of(pairs_view(m@))));
    }
}

/// Appends the values of `m`, in order, to `out`.
fn push_values(out: &mut Vec<String>, m: &Vec<(String, String)>)
    ensures
        strings_view(final(out)@) == strings_view(old(out)@) + values_of(pairs_view(m@)),
{
    let ghost start = strings_view(out@);
    let ghost vals = values_of(pairs_view(m@));
    let mut i: usize = 0;
    while i < m.len()
        invariant
            i <= m.len(),
            vals == values_of(pairs_view(m@)),
            strings_view(out@) == start + vals.take(i as int),
        decreases m.len() - i,
    {
        let v = m[i].1.clone();
        assert(v@ == vals[i as int]);
        let ghost before = out@;
        out.push(v);
        assert(strings_view(out@) =~= strings_view(before).push(v@));
        assert(start + vals.take(i + 1) =~= (start + vals.take(i as int)).push(vals[i as int]));
        i = i + 1;
    }
    assert(values_of(pairs_view(m@)).take(m.len() as int) =~= values_of(pairs_view(m@)));
}

impl<'a> Sqlite3Query<'a> {
    /// Whether every column written is declared and every filter names a
    /// column of the table; otherwise a client fault.
    fn check_names(&self) -> (r: Result<(), QueryErr>)
        ensures
            r is Ok <==> names_allowed(*self.table_schema, true, self.fields_view())
                && names_allowed(*self.table_schema, false, self.filter_view()),
            r is Err ==> client_fault(r),
    {
        if !keys_allowed(self.table_schema, true, &self.fields_data) {
            return Err(QueryErr::client("a written column is not declared"));
        }
        if !keys_allowed(self.table_schema, false, &self.filter) {
            return Err(QueryErr::client("a filter names an unknown column"));
        }
        Ok(())
    }

    /// `SELECT * FROM <table>` with one `col=?` condition per filter.
    pub fn construct_get_sql(&self) -> (r: Result<BoundStatement, QueryErr>)
        ensures
            match statement_plan(HttpMethod::GET, *self.table_schema, self.fields_view(), self.filter_view()) {
                Some(p) => r matches Ok(s) && seq![statement_view(s)] == p,
                None => client_fault(r),
            },
    {
        match self.check_names() {
            Err(e) => {
                return Err(e);
            },
            Ok(_) => {},
        }
        let mut text = String::from_str("SELECT * FROM ");
        text.append(self.table_schema.name.as_str());
        push_where(&mut text, &self.filter);
        let mut bindings: Vec<String> = Vec::new();
        push_values(&mut bindings, &self.filter);
        assert(strings_view(bindings@) =~= values_of(self.filter_view()));
        Ok(BoundStatement { text, bindings })
    }

    /// The insert of one row, with a value for every declared column in
    /// declaration order, followed by the read of the newest row.
    pub fn construct_post_sql(&self) -> (r: Result<Vec<BoundStatement>, QueryErr>)
        ensures
            match statement_plan(HttpMethod::POST, *self.table_schema, self.fields_view(), self.filter_view()) {
                Some(p) => r matches Ok(v) && plan_view(v@) == p,
                None => client_fault(r),
            },
    {
        match self.check_names() {
            Err(e) => {
                return Err(e);
            },
            Ok(_) => {},
        }
        if self.fields_data.len() == 0 {
            return Err(QueryErr::client("no column values to insert"));
        }
        let t = self.table_schema;
        let ghost cols = t.columns();
        let mut text = String::from_str("INSERT INTO ");
        text.append(t.name.as_str());
        text.append(" VALUES (NULL");
        let ghost head = text@;
        let mut bindings: Vec<String> = Vec::new();
        let mut i: usize = 0;
        while i < t.fields.len()
            invariant
                i <= t.fields.len(),
                t == self.table_schema,
                cols == t.columns(),
                cols.len() == t.fields.len(),
                self.fields_data@.len() > 0,
                text@ == head + placeholders(i as nat),
                insert_bindings(cols.take(i as int), self.fields_view()) == Some(strings_view(bindings@)),
            decreases t.fields.len() - i,
        {
            assert(cols.take(i + 1).drop_last() =~= cols.take(i as int));
            assert(cols.take(i + 1).last() == t.fields@[i as int].0@);
            match get_value(&self.fields_data, &t.fields[i].0) {
                None => {
                    proof {
                        lemma_insert_bindings_prefix(cols, self.fields_view(), i + 1);
                    }
                    return Err(QueryErr::client("a declared column has no value"));
                },
                Some(v) => {
                    bindings.push(v.clone());
                    text.append(", ?");
                    assert(strings_view(bindings@) =~= strings_view(bindings@).drop_last().push(v@));
                },
            }
            i = i + 1;
        }
        assert(cols.take(cols.len() as int) =~= cols);
        text.append(")");
        let insert = BoundStatement { text, bindings };
        let mut last = String::from_str("SELECT * FROM ");
        last.append(t.name.as_str());
        last.append(" ORDER BY id DESC LIMIT 1");
        let read = BoundStatement { text: last, bindings: Vec::new() };
        assert(strings_view(read.bindings@) =~= Seq::empty());
        let mut plan: Vec<BoundStatement> = Vec::new();
        plan.push(insert);
        plan.push(read);
        assert(plan_view(plan@) =~= seq![statement_view(plan@[0]), statement_view(plan@[1])]);
        Ok(plan)
    }

    /// `DELETE FROM <table>` with one `col=?` condition per filter; refused
    /// without filters, so that no request deletes every row.
    pub fn construct_delete_sql(&self) -> (r: Result<BoundStatement, QueryErr>)
        ensures
            match statement_plan(HttpMethod::DELETE, *self.table_schema, self.fields_view(), self.filter_view()) {
                Some(p) => r matches Ok(s) && seq![statement_view(s)] == p,
                None => client_fault(r),
            },
    {
        match self.check_names() {
            Err(e) => {
                return Err(e);
            },
            Ok(_) => {},
        }
        if self.filter.len() == 0 {
            return Err(QueryErr::client("a delete needs at least one filter"));
        }
        let mut text = String::from_str("DELETE FROM ");
        text.append(self.table_schema.name.as_str());
        push_where(&mut text, &self.filter);
        let mut bindings: Vec<String> = Vec::new();
        push_values(&mut bindings, &self.filter);
        assert(strings_view(bindings@) =~= values_of(self.filter_view()));
        Ok(BoundStatement { text, bindings })
    }

    /// `UPDATE <table> SET col=?, ...` with one `col=?` condition per filter;
    /// refused without columns or without filters, so that no request
    /// rewrites every row.
    pub fn construct_patch_sql(&self) -> (r: Result<BoundStatement, QueryErr>)
        ensures
            match statement_plan(HttpMethod::PATCH, *self.table_schema, self.fields_view(), self.filter_view()) {
                Some(p) => r matches Ok(s) && seq![statement_view(s)] == p,
                None => client_fault(r),
            },
    {
        match self.check_names() {
            Err(e) => {
                return Err(e);
            },
            Ok(_) => {},
        }
        if self.fields_data.len() == 0 {
            return Err(QueryErr::client("an update needs at least one column"));
        }
        if self.filter.len() == 0 {
            return Err(QueryErr::client("an update needs at least one filter"));
        }
        let mut text = String::from_str("UPDATE ");
        text.append(self.table_schema.name.as_str());
        text.append(" SET ");
        push_marked(&mut text, &self.fields_data, ", ");
        push_where(&mut text, &self.filter);
        let mut bindings: Vec<String> = Vec::new();
        push_values(&mut bindings, &self.fields_data);
        push_values(&mut bindings, &self.filter);
        assert(strings_view(bindings@) =~= values_of(self.fields_view()) + values_of(
            self.filter_view(),
        ));
        Ok(BoundStatement { text, bindings })
    }

    /// The statements this request runs, in order.
    pub fn build_statements(&self) -> (r: Result<Vec<BoundStatement>, QueryErr>)
        ensures
            match statement_plan(self.method, *self.table_schema, self.fields_view(), self.filter_view()) {
                Some(p) => r matches Ok(v) && plan_view(v@) == p,
                None => client_fault(r),
            },
    {
        let one = |s: BoundStatement| -> (v: Vec<BoundStatement>)
            ensures
                plan_view(v@) == seq![statement_view(s)],
            {
                let mut v: Vec<BoundStatement> = Vec::new();
                v.push(s);
                assert(plan_view(v@) =~= seq![statement_view(s)]);
                v
            };
        match self.method {
            HttpMethod::GET => match self.construct_get_sql() {
                Ok(s) => Ok(one(s)),
                Err(e) => Err(e),
            },
            HttpMethod::POST => self.construct_post_sql(),
            HttpMethod::DELETE => match self.construct_delete_sql() {
                Ok(s) => Ok(one(s)),
                Err(e) => Err(e),
            },
            HttpMethod::PATCH => match self.construct_patch_sql() {
                Ok(s) => Ok(one(s)),
                Err(e) => Err(e),
            },
            HttpMethod::INVALID => Err(QueryErr::client("unsupported method")),
        }
    }
}

/// Two mappings with the same keys bind the same keys.
proof fn lemma_lookup_same_keys(m1: Pairs, m2: Pairs, k: Seq<char>)
    requires
        keys_of(m1) == keys_of(m2),
    ensures
        lookup(m1, k) is Some == lookup(m2, k) is Some,
    decreases m1.len(),
{
    assert(keys_of(m1).len() == m1.len());
    assert(keys_of(m2).len() == m2.len());
    if m1.len() > 0 {
        assert(keys_of(m1)[0] == keys_of(m2)[0]);
        assert(m1[0].0 == m2[0].0);
        assert(keys_of(m1.drop_first()) =~= keys_of(m1).drop_first());
        assert(keys_of(m2.drop_first()) =~= keys_of(m2).drop_first());
        lemma_lookup_same_keys(m1.drop_first(), m2.drop_first(), k);
    }
}

proof fn lemma_insert_bindings_same_keys(cols: Seq<Seq<char>>, m1: Pairs, m2: Pairs)
    requires
        keys_of(m1) == keys_of(m2),
    ensures
        insert_bindings(cols, m1) is Some == insert_bindings(cols, m2) is Some,
        insert_bindings(cols, m1) is Some ==> insert_bindings(cols, m1)->0.len() == cols.len(),
    decreases cols.len(),
{
    if cols.len() > 0 {
        lemma_insert_bindings_same_keys(cols.drop_last(), m1, m2);
        lemma_lookup_same_keys(m1, m2, cols.last());
    }
}

/// Client values never shape a statement. For one method and one table, two
/// requests that name the same columns in the same order, whatever values
/// they carry, are both refused or both run statements with identical texts;
/// the values reach only the bindings.
pub proof fn lemma_text_independent_of_values(
    method: HttpMethod,
    t: SqlTableSchema,
    fields1: Pairs,
    filter1: Pairs,
    fields2: Pairs,
    filter2: Pairs,
)
    requires
        keys_of(fields1) == keys_of(fields2),
        keys_of(filter1) == keys_of(filter2),
    ensures
        statement_plan(method, t, fields1, filter1) is Some == statement_plan(
            method,
            t,
            fields2,
            filter2,
        ) is Some,
        statement_plan(method, t, fields1, filter1) is Some ==> ({
            let first = statement_plan(method, t, fields1, filter1)->0;
            let second = statement_plan(method, t, fields2, filter2)->0;
            &&& first.len() == second.len()
            &&& forall|i: int| 0 <= i < first.len() ==> #[trigger] first[i].0 == second[i].0
        }),
{
    assert(keys_of(fields1).len() == keys_of(fields2).len());
    assert(keys_of(filter1).len() == keys_of(filter2).len());
    lemma_insert_bindings_same_keys(t.columns(), fields1, fields2);
    lemma_names_allowed_same_keys(t, true, fields1, fields2);
    lemma_names_allowed_same_keys(t, false, filter1, filter2);
}

proof fn lemma_names_allowed_same_keys(t: SqlTableSchema, for_columns: bool, m1: Pairs, m2: Pairs)
    requires
        keys_of(m1) == keys_of(m2),
    ensures
        names_allowed(t, for_columns, m1) == names_allowed(t, for_columns, m2),
{
    assert(keys_of(m1).len() == m1.len());
    assert(keys_of(m2).len() == m2.len());
    assert forall|i: int| 0 <= i < m1.len() implies m1[i].0 == m2[i].0 by {
        assert(keys_of(m1)[i] == keys_of(m2)[i]);
    }
    if names_allowed(t, for_columns, m1) {
        assert forall|i: int| 0 <= i < m2.len() implies #[trigger] name_allowed(t, for_columns, m2[i].0) by {
            assert(name_allowed(t, for_columns, m1[i].0));
        }
    }
    if names_allowed(t, for_columns, m2) {
        assert forall|i: int| 0 <= i < m1.len() implies #[trigger] name_allowed(t, for_columns, m1[i].0) by {
            assert(name_allowed(t, for_columns, m2[i].0));
        }
    }
}

/// A create that supplies a value for every declared column inserts exactly
/// those values, one per declared column in declaration order, and then
/// reads back the newest row.
pub proof fn lemma_post_binds_posted_values(t: SqlTableSchema, fields: Pairs, filter: Pairs)
    requires
        fields.len() > 0,
        names_allowed(t, true, fields),
        names_allowed(t, false, filter),
        forall|i: int| 0 <= i < t.columns().len() ==> #[trigger] lookup(fields, t.columns()[i]) is Some,
    ensures
        statement_plan(HttpMethod::POST, t, fields, filter) is Some,
        ({
            let p = statement_plan(HttpMethod::POST, t, fields, filter)->0;
            &&& p.len() == 2
            &&& p[0].0 == insert_text(t.name@, t.columns().len())
            &&& p[0].1.len() == t.columns().len()
            &&& forall|i: int|
                0 <= i < t.columns().len() ==> #[trigger] p[0].1[i] == lookup(
                    fields,
                    t.columns()[i],
                )->0
            &&& p[1] == (last_row_text(t.name@), Seq::<Seq<char>>::empty())
        }),
{
    lemma_insert_bindings_all(t.columns(), fields);
}

proof fn lemma_insert_bindings_all(cols: Seq<Seq<char>>, fields: Pairs)
    requires
        forall|i: int| 0 <= i < cols.len() ==> #[trigger] lookup(fields, cols[i]) is Some,
    ensures
        insert_bindings(cols, fields) is Some,
        insert_bindings(cols, fields)->0.len() == cols.len(),
        forall|i: int|
            0 <= i < cols.len() ==> #[trigger] insert_bindings(cols, fields)->0[i] == lookup(
                fields,
                cols[i],
            )->0,
    decreases cols.len(),
{
    if cols.len() > 0 {
        let init = cols.drop_last();
        assert forall|i: int| 0 <= i < init.len() implies #[trigger] lookup(fields, init[i]) is Some by {
            assert(init[i] == cols[i]);
        }
        lemma_insert_bindings_all(init, fields);
        assert(lookup(fields, cols[cols.len() - 1]) is Some);
        let b = insert_bindings(cols, fields)->0;
        assert forall|i: int| 0 <= i < cols.len() implies #[trigger] b[i] == lookup(fields, cols[i])->0 by {
            if i < init.len() {
                assert(init[i] == cols[i]);
            }
        }
    }
}

proof fn lemma_insert_bindings_prefix(cols: Seq<Seq<char>>, fields: Pairs, k: int)
    requires
        0 <= k <= cols.len(),
        insert_bindings(cols.take(k), fields) is None,
    ensures
        insert_bindings(cols, fields) is None,
    decreases cols.len() - k,
{
    if k < cols.len() {
        assert(cols.take(k + 1).drop_last() =~= cols.take(k));
        lemma_insert_bindings_prefix(cols, fields, k + 1);
    } else {
        assert(cols.take(k) =~= cols);
    }
}

} // verus!
