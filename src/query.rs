//! Request decoding: the HTTP method, the query-string filters of a read and
//! the JSON `columns`/`filters` of a write, each validated against the schema.

use vstd::prelude::*;
use vstd::string::StringExecFns;
use vstd::utf8::{decode_utf8, valid_utf8};

use crate::json_calls::{
    body_section, entries_view, is_object_text, json_accepts, json_body_section, json_parses,
    json_top_object, section_view, utf8_text, JsonSection, SectionView,
};
use crate::mapping::{keys_of, lemma_put_unique, pairs_view, put, put_pair, unique_keys, Pairs};
use crate::routing::{split_uri_args, uri_args};
use crate::schema::SqlTableSchema;
use crate::text::{ascii_lowercase, chars_of, lower_seq, slice_chars, str_equal, string_of};

verus! {

/// The HTTP methods the API serves; every other verb is `INVALID`.
#[derive(Clone, Copy, Debug, PartialEq, Eq, Structural)]
pub enum HttpMethod {
    GET,
    POST,
    DELETE,
    PATCH,
    INVALID,
}

/// The method a verb names (verbs are upper case, as HTTP writes them).
pub open spec fn method_named(name: Seq<char>) -> HttpMethod {
    if name == "GET"@ {
        HttpMethod::GET
    } else if name == "POST"@ {
        HttpMethod::POST
    } else if name == "DELETE"@ {
        HttpMethod::DELETE
    } else if name == "PATCH"@ {
        HttpMethod::PATCH
    } else {
        HttpMethod::INVALID
    }
}

impl HttpMethod {
    /// Whether requests of this method carry a JSON body.
    pub open spec fn is_write(self) -> bool {
        self is POST || self is DELETE || self is PATCH
    }

    /// The method a verb names.
    pub fn from_name(name: &str) -> (r: HttpMethod)
        ensures
            r == method_named(name@),
    {
        if str_equal(name, "GET") {
            HttpMethod::GET
        } else if str_equal(name, "POST") {
            HttpMethod::POST
        } else if str_equal(name, "DELETE") {
            HttpMethod::DELETE
        } else if str_equal(name, "PATCH") {
            HttpMethod::PATCH
        } else {
            HttpMethod::INVALID
        }
    }
}

/// A failed request: a description, and whether the server (rather than the
/// client) is at fault.
#[derive(Debug)]
pub struct QueryErr(pub String, pub bool);

/// `r` failed with the client at fault.
pub open spec fn client_fault<T>(r: Result<T, QueryErr>) -> bool {
    r matches Err(e) && !e.1
}

/// `r` failed with the server at fault.
pub open spec fn server_fault<T>(r: Result<T, QueryErr>) -> bool {
    r matches Err(e) && e.1
}

impl QueryErr {
    pub(crate) fn client(msg: &str) -> (r: QueryErr)
        ensures
            !r.1,
    {
        QueryErr(String::from_str(msg), false)
    }

    pub(crate) fn server(msg: &str) -> (r: QueryErr)
        ensures
            r.1,
    {
        QueryErr(String::from_str(msg), true)
    }

    /// The description of the failure.
    pub fn description(&self) -> (r: String)
        ensures
            r@ == self.0@,
    {
        self.0.clone()
    }
}

/// A decoded request against one table: the method, the column values to
/// write and the filters that select rows.
pub struct Sqlite3Query<'a> {
    pub method: HttpMethod,
    pub table_schema: &'a SqlTableSchema,
    pub fields_data: Vec<(String, String)>,
    pub filter: Vec<(String, String)>,
}

impl<'a> Sqlite3Query<'a> {
    /// The column values as characters.
    pub open spec fn fields_view(&self) -> Pairs {
        pairs_view(self.fields_data@)
    }

    /// The filters as characters.
    pub open spec fn filter_view(&self) -> Pairs {
        pairs_view(self.filter@)
    }

    /// Every written column is declared, every filter names a declared
    /// column or `id`, and no column occurs twice in either mapping.
    pub open spec fn well_formed(&self) -> bool {
        &&& names_allowed(*self.table_schema, true, self.fields_view())
        &&& names_allowed(*self.table_schema, false, self.filter_view())
        &&& unique_keys(self.fields_view())
        &&& unique_keys(self.filter_view())
    }
}

// Query-string arguments of a read.

/// Splitting `s` at each `sep`: the pieces completed so far and the piece in
/// progress.
pub open spec fn split_state(s: Seq<char>, sep: char) -> (Seq<Seq<char>>, Seq<char>)
    decreases s.len(),
{
    if s.len() == 0 {
        (Seq::empty(), Seq::empty())
    } else {
        let prev = split_state(s.drop_last(), sep);
        if s.last() == sep {
            (prev.0.push(prev.1), Seq::empty())
        } else {
            (prev.0, prev.1.push(s.last()))
        }
    }
}

/// The pieces of `s` between occurrences of `sep` (always at least one).
pub open spec fn split_on(s: Seq<char>, sep: char) -> Seq<Seq<char>> {
    let st = split_state(s, sep);
    st.0.push(st.1)
}

/// Index of the first occurrence of `c` in `s`.
pub open spec fn first_index_of(s: Seq<char>, c: char) -> Option<int>
    decreases s.len(),
{
    if s.len() == 0 {
        None
    } else {
        match first_index_of(s.drop_last(), c) {
            Some(i) => Some(i),
            None => if s.last() == c {
                Some(s.len() - 1)
            } else {
                None
            },
        }
    }
}

/// Form encoding: each `+` stands for a space.
pub open spec fn plus_as_space(s: Seq<char>) -> Seq<char> {
    s.map_values(|c: char| if c == '+' { ' ' } else { c })
}

/// One `key=value` argument split at its first `=`: the key lower-cased and
/// the value with `+` read as space. An argument without `=` yields nothing.
pub open spec fn parse_arg(seg: Seq<char>) -> Option<(Seq<char>, Seq<char>)> {
    match first_index_of(seg, '=') {
        Some(i) => Some((lower_seq(seg.take(i)), plus_as_space(seg.skip(i + 1)))),
        None => None,
    }
}

/// `m` after reading one argument: kept only when it names a column of the
/// table (or `id`); a later argument for the same column replaces an earlier.
pub open spec fn add_arg(t: SqlTableSchema, m: Pairs, seg: Seq<char>) -> Pairs {
    match parse_arg(seg) {
        Some((k, v)) => if t.accepts(k) {
            put(m, k, v)
        } else {
            m
        },
        None => m,
    }
}

/// The filters read from a sequence of arguments.
pub open spec fn collect_args(t: SqlTableSchema, segs: Seq<Seq<char>>) -> Pairs
    decreases segs.len(),
{
    if segs.len() == 0 {
        Seq::empty()
    } else {
        add_arg(t, collect_args(t, segs.drop_last()), segs.last())
    }
}

/// The filters of a read of table `t` at request URI `uri`: its argument
/// string split at `&`, each argument at its first `=`.
pub open spec fn get_filters(t: SqlTableSchema, uri: Seq<char>) -> Pairs {
    collect_args(t, split_on(uri_args(uri), '&'))
}

/// Filters read from arguments name only columns of the table, once each.
pub proof fn lemma_collect_args_valid(t: SqlTableSchema, segs: Seq<Seq<char>>)
    ensures
        names_allowed(t, false, collect_args(t, segs)),
        unique_keys(collect_args(t, segs)),
    decreases segs.len(),
{
    if segs.len() > 0 {
        let m = collect_args(t, segs.drop_last());
        lemma_collect_args_valid(t, segs.drop_last());
        if let Some((k, v)) = parse_arg(segs.last()) {
            if t.accepts(k) {
                lemma_put_allowed(t, false, m, k, v);
                lemma_put_unique(m, k, v);
            }
        }
    }
}

/// An argument is split at its first `=`: for a key without `=`, whatever
/// follows (further `=` included) is the value.
pub proof fn lemma_arg_splits_at_first_eq(key: Seq<char>, value: Seq<char>)
    requires
        !key.contains('='),
    ensures
        parse_arg(key + seq!['='] + value) == Some((lower_seq(key), plus_as_space(value))),
{
    let s = key + seq!['='] + value;
    lemma_first_index_absent(key, '=');
    assert((key + seq!['=']).drop_last() =~= key);
    assert(first_index_of(key + seq!['='], '=') == Some(key.len() as int));
    lemma_first_index_prefix(s, key.len() as int + 1);
    assert(s.take(key.len() as int + 1) =~= key + seq!['=']);
    assert(s.take(key.len() as int) =~= key);
    assert(s.skip(key.len() as int + 1) =~= value);
}

proof fn lemma_first_index_absent(s: Seq<char>, c: char)
    requires
        !s.contains(c),
    ensures
        first_index_of(s, c) is None,
    decreases s.len(),
{
    if s.len() > 0 {
        assert(s.last() == s[s.len() - 1]);
        assert(!s.drop_last().contains(c)) by {
            if s.drop_last().contains(c) {
                let j = s.drop_last().index_of(c);
                assert(s[j] == c);
            }
        }
        lemma_first_index_absent(s.drop_last(), c);
    }
}

proof fn lemma_first_index_prefix(s: Seq<char>, k: int)
    requires
        0 <= k <= s.len(),
        first_index_of(s.take(k), '=') is Some,
    ensures
        first_index_of(s, '=') == first_index_of(s.take(k), '='),
    decreases s.len() - k,
{
    if k < s.len() {
        assert(s.take(k + 1).drop_last() =~= s.take(k));
        lemma_first_index_prefix(s, k + 1);
    } else {
        assert(s.take(k) =~= s);
    }
}

fn add_arg_exec(t: &SqlTableSchema, filters: &mut Vec<(String, String)>, seg: &Vec<char>)
    ensures
        pairs_view(final(filters)@) == add_arg(*t, pairs_view(old(filters)@), seg@),
{
    let mut eq: Option<usize> = None;
    let mut i: usize = 0;
    while i < seg.len()
        invariant
            i <= seg.len(),
            match eq {
                Some(k) => first_index_of(seg@.take(i as int), '=') == Some(k as int) && k < i,
                None => first_index_of(seg@.take(i as int), '=') is None,
            },
        decreases seg.len() - i,
    {
        assert(seg@.take(i + 1).drop_last() =~= seg@.take(i as int));
        if eq.is_none() && seg[i] == '=' {
            eq = Some(i);
        }
        i = i + 1;
    }
    assert(seg@.take(seg.len() as int) =~= seg@);
    if let Some(k) = eq {
        let key = string_of(&ascii_lowercase(&slice_chars(seg, 0, k)));
        let mut val: Vec<char> = Vec::new();
        let mut j: usize = k + 1;
        while j < seg.len()
            invariant
                k < seg.len(),
                k + 1 <= j <= seg.len(),
                val@ == plus_as_space(seg@.subrange(k + 1, j as int)),
            decreases seg.len() - j,
        {
            assert(plus_as_space(seg@.subrange(k + 1, j + 1)) =~= plus_as_space(
                seg@.subrange(k + 1, j as int),
            ).push(if seg@[j as int] == '+' { ' ' } else { seg@[j as int] }));
            if seg[j] == '+' {
                val.push(' ');
            } else {
                val.push(seg[j]);
            }
            j = j + 1;
        }
        assert(seg@.subrange(0, k as int) =~= seg@.take(k as int));
        assert(seg@.subrange(k + 1, seg.len() as int) =~= seg@.skip(k + 1));
        if t.field_exists(key.as_str()) {
            put_pair(filters, key, string_of(&val));
        }
    }
}

// JSON sections of a write.

/// Which names a section may use: `columns` only declared columns (the `id`
/// column is never written by a client), `filters` also `id`.
pub open spec fn name_allowed(t: SqlTableSchema, for_columns: bool, k: Seq<char>) -> bool {
    if for_columns {
        t.declares(k)
    } else {
        t.accepts(k)
    }
}

/// Every key of `m` is a name the section may use.
pub open spec fn names_allowed(t: SqlTableSchema, for_columns: bool, m: Pairs) -> bool {
    forall|i: int| 0 <= i < m.len() ==> #[trigger] name_allowed(t, for_columns, m[i].0)
}

/// Whether every key of `m` is a name the section may use.
pub fn keys_allowed(t: &SqlTableSchema, for_columns: bool, m: &Vec<(String, String)>) -> (r: bool)
    ensures
        r == names_allowed(*t, for_columns, pairs_view(m@)),
{
    let mut i: usize = 0;
    while i < m.len()
        invariant
            i <= m.len(),
            forall|j: int| 0 <= j < i ==> #[trigger] name_allowed(*t, for_columns, pairs_view(m@)[j].0),
        decreases m.len() - i,
    {
        let ok = if for_columns {
            t.has_column(m[i].0.as_str())
        } else {
            t.field_exists(m[i].0.as_str())
        };
        assert(pairs_view(m@)[i as int].0 == m@[i as int].0@);
        if !ok {
            assert(!name_allowed(*t, for_columns, pairs_view(m@)[i as int].0));
            return false;
        }
        i = i + 1;
    }
    true
}

/// Binding an allowed name keeps every name allowed.
pub proof fn lemma_put_allowed(t: SqlTableSchema, for_columns: bool, m: Pairs, k: Seq<char>, v: Seq<char>)
    requires
        names_allowed(t, for_columns, m),
        name_allowed(t, for_columns, k),
    ensures
        names_allowed(t, for_columns, put(m, k, v)),
{
    let r = put(m, k, v);
    assert forall|i: int| 0 <= i < r.len() implies #[trigger] name_allowed(t, for_columns, r[i].0) by {
        if keys_of(m).contains(k) {
            assert(name_allowed(t, for_columns, m[i].0));
        } else if i < m.len() {
            assert(name_allowed(t, for_columns, m[i].0));
        }
    }
}

/// The mapping a list of members gives, or `None` when a member is not a
/// string or names an unknown column.
pub open spec fn collect_entries(
    t: SqlTableSchema,
    for_columns: bool,
    es: Seq<(Seq<char>, Option<Seq<char>>)>,
) -> Option<Pairs>
    decreases es.len(),
{
    if es.len() == 0 {
        Some(Seq::empty())
    } else {
        match collect_entries(t, for_columns, es.drop_last()) {
            None => None,
            Some(m) => match es.last().1 {
                Some(v) => if name_allowed(t, for_columns, es.last().0) {
                    Some(put(m, es.last().0, v))
                } else {
                    None
                },
                None => None,
            },
        }
    }
}

/// The mapping a section gives: empty when absent, `None` (a client fault)
/// when it is not an object or one of its members is rejected.
pub open spec fn section_view_pairs(t: SqlTableSchema, for_columns: bool, v: SectionView) -> Option<Pairs> {
    match v {
        None => None,
        Some(None) => Some(Seq::empty()),
        Some(Some(es)) => collect_entries(t, for_columns, es),
    }
}

/// The mapping a section gives.
pub open spec fn section_pairs(t: SqlTableSchema, for_columns: bool, sec: JsonSection) -> Option<Pairs> {
    section_view_pairs(t, for_columns, section_view(sec))
}

/// The column values and the filters a JSON object body gives to a write of
/// table `t`, each `None` when refused.
pub open spec fn write_sections(t: SqlTableSchema, text: Seq<char>) -> (Option<Pairs>, Option<Pairs>) {
    (
        section_view_pairs(t, true, json_body_section(text, "columns"@)),
        section_view_pairs(t, false, json_body_section(text, "filters"@)),
    )
}

proof fn lemma_collect_entries_prefix(
    t: SqlTableSchema,
    for_columns: bool,
    es: Seq<(Seq<char>, Option<Seq<char>>)>,
    k: int,
)
    requires
        0 <= k <= es.len(),
        collect_entries(t, for_columns, es.take(k)) is None,
    ensures
        collect_entries(t, for_columns, es) is None,
    decreases es.len() - k,
{
    if k < es.len() {
        assert(es.take(k + 1).drop_last() =~= es.take(k));
        lemma_collect_entries_prefix(t, for_columns, es, k + 1);
    } else {
        assert(es.take(k) =~= es);
    }
}

/// A mapping read from members names only allowed columns, once each.
pub proof fn lemma_collect_entries_valid(
    t: SqlTableSchema,
    for_columns: bool,
    es: Seq<(Seq<char>, Option<Seq<char>>)>,
)
    requires
        collect_entries(t, for_columns, es) is Some,
    ensures
        names_allowed(t, for_columns, collect_entries(t, for_columns, es)->0),
        unique_keys(collect_entries(t, for_columns, es)->0),
    decreases es.len(),
{
    if es.len() > 0 {
        lemma_collect_entries_valid(t, for_columns, es.drop_last());
        let m = collect_entries(t, for_columns, es.drop_last())->0;
        lemma_put_allowed(t, for_columns, m, es.last().0, es.last().1->0);
        lemma_put_unique(m, es.last().0, es.last().1->0);
    }
}

/// The mapping a section gives, or a client fault.
pub fn section_to_pairs(t: &SqlTableSchema, for_columns: bool, sec: &JsonSection) -> (r: Result<
    Vec<(String, String)>,
    QueryErr,
>)
    ensures
        match section_pairs(*t, for_columns, *sec) {
            Some(m) => r matches Ok(v) && pairs_view(v@) == m,
            None => r matches Err(e) && !e.1,
        },
{
    match sec {
        JsonSection::Absent => Ok(Vec::new()),
        JsonSection::NotObject => Err(QueryErr::client("a section of the body is not an object")),
        JsonSection::Entries(v) => {
            let ghost es = entries_view(v@);
            let mut out: Vec<(String, String)> = Vec::new();
            let mut i: usize = 0;
            while i < v.len()
                invariant
                    i <= v.len(),
                    es == entries_view(v@),
                    *sec is Entries && sec->Entries_0@ == v@,
                    collect_entries(*t, for_columns, es.take(i as int)) == Some(pairs_view(out@)),
                decreases v.len() - i,
            {
                assert(es.take(i + 1).drop_last() =~= es.take(i as int));
                let ghost m = pairs_view(out@);
                match &v[i].1 {
                    None => {
                        proof {
                            lemma_collect_entries_prefix(*t, for_columns, es, i + 1);
                        }
                        return Err(QueryErr::client("a member of the body is not a string"));
                    },
                    Some(text) => {
                        let ok = if for_columns {
                            t.has_column(v[i].0.as_str())
                        } else {
                            t.field_exists(v[i].0.as_str())
                        };
                        if !ok {
                            assert(es[i as int].0 == v@[i as int].0@);
                            assert(!name_allowed(*t, for_columns, es[i as int].0));
                            proof {
                                lemma_collect_entries_prefix(*t, for_columns, es, i + 1);
                            }
                            return Err(QueryErr::client("the body names an unknown column"));
                        }
                        put_pair(&mut out, v[i].0.clone(), text.clone());
                    },
                }
                i = i + 1;
            }
            assert(es.take(v.len() as int) =~= es);
            Ok(out)
        },
    }
}

impl<'a> Sqlite3Query<'a> {
    /// The read of table `table` at request URI `uri`, filtered by the
    /// arguments of the URI that name columns of the table.
    pub fn from_get(uri: &str, table: &'a SqlTableSchema) -> (r: Self)
        ensures
            r.method == HttpMethod::GET,
            r.table_schema == table,
            r.filter_view() == get_filters(*table, uri@),
            r.fields_data@.len() == 0,
            r.well_formed(),
    {
        let (_path, args) = split_uri_args(String::from_str(uri));
        let cs = chars_of(args.as_str());
        let mut filters: Vec<(String, String)> = Vec::new();
        let mut cur: Vec<char> = Vec::new();
        let mut i: usize = 0;
        while i < cs.len()
            invariant
                i <= cs.len(),
                pairs_view(filters@) == collect_args(*table, split_state(cs@.take(i as int), '&').0),
                cur@ == split_state(cs@.take(i as int), '&').1,
            decreases cs.len() - i,
        {
            assert(cs@.take(i + 1).drop_last() =~= cs@.take(i as int));
            let ghost st = split_state(cs@.take(i as int), '&');
            if cs[i] == '&' {
                assert(st.0.push(st.1).drop_last() =~= st.0);
                add_arg_exec(table, &mut filters, &cur);
                cur = Vec::new();
            } else {
                cur.push(cs[i]);
            }
            i = i + 1;
        }
        assert(cs@.take(cs.len() as int) =~= cs@);
        let ghost st = split_state(cs@, '&');
        assert(st.0.push(st.1).drop_last() =~= st.0);
        add_arg_exec(table, &mut filters, &cur);
        proof {
            lemma_collect_args_valid(*table, split_on(args@, '&'));
        }
        let r = Sqlite3Query {
            method: HttpMethod::GET,
            table_schema: table,
            fields_data: Vec::new(),
            filter: filters,
        };
        assert(pairs_view(r.fields_data@) =~= Seq::empty());
        r
    }

    /// A request of `method` whose body held the sections `columns` and
    /// `filters`.
    pub fn from_sections(
        method: HttpMethod,
        columns: &JsonSection,
        filters: &JsonSection,
        table: &'a SqlTableSchema,
    ) -> (r: Result<Self, QueryErr>)
        ensures
            method is INVALID ==> client_fault(r),
            !(method is INVALID) ==> match (
                section_pairs(*table, true, *columns),
                section_pairs(*table, false, *filters),
            ) {
                (Some(c), Some(f)) => r matches Ok(q) && q.method == method && q.table_schema
                    == table && q.fields_view() == c && q.filter_view() == f && q.well_formed(),
                _ => client_fault(r),
            },
    {
        if method == HttpMethod::INVALID {
            return Err(QueryErr::client("unsupported method"));
        }
        let fields_data = match section_to_pairs(table, true, columns) {
            Ok(v) => v,
            Err(e) => {
                return Err(e);
            },
        };
        let filter = match section_to_pairs(table, false, filters) {
            Ok(v) => v,
            Err(e) => {
                return Err(e);
            },
        };
        proof {
            if columns is Entries {
                lemma_collect_entries_valid(*table, true, entries_view(columns->Entries_0@));
            }
            if filters is Entries {
                lemma_collect_entries_valid(*table, false, entries_view(filters->Entries_0@));
            }
        }
        Ok(Sqlite3Query { method, table_schema: table, fields_data, filter })
    }

    /// Decodes a request to `table`: its verb, its URI (whose arguments are
    /// the filters of a read) and its body (the JSON of a write).
    pub fn from_request(method_name: &str, uri: &str, body: Vec<u8>, table: &'a SqlTableSchema) -> (r:
        Result<Self, QueryErr>)
        ensures
            method_named(method_name@) is INVALID ==> client_fault(r),
            method_named(method_name@) is GET ==> (r matches Ok(q) && q.method == HttpMethod::GET
                && q.table_schema == table && q.filter_view() == get_filters(*table, uri@)
                && q.fields_data@.len() == 0),
            method_named(method_name@).is_write() && !valid_utf8(body@) ==> server_fault(r),
            method_named(method_name@).is_write() && valid_utf8(body@) && !json_accepts(
                decode_utf8(body@),
            ) ==> client_fault(r),
            method_named(method_name@).is_write() && valid_utf8(body@) && json_accepts(
                decode_utf8(body@),
            ) && !json_top_object(decode_utf8(body@)) ==> client_fault(r),
            method_named(method_name@).is_write() && valid_utf8(body@) && json_accepts(
                decode_utf8(body@),
            ) && json_top_object(decode_utf8(body@)) ==> match write_sections(
                *table,
                decode_utf8(body@),
            ) {
                (Some(c), Some(f)) => (r matches Ok(q) && q.fields_view() == c && q.filter_view()
                    == f),
                _ => client_fault(r),
            },
            server_fault(r) ==> method_named(method_name@).is_write() && !valid_utf8(body@),
            r matches Ok(q) ==> q.method == method_named(method_name@) && q.table_schema == table
                && q.well_formed(),
    {
        let method = HttpMethod::from_name(method_name);
        if method == HttpMethod::INVALID {
            return Err(QueryErr::client("unsupported method"));
        }
        if method == HttpMethod::GET {
            return Ok(Self::from_get(uri, table));
        }
        let text = match utf8_text(body) {
            Some(s) => s,
            None => {
                return Err(QueryErr::server("the request body is not UTF-8"));
            },
        };
        if !json_parses(text.as_str()) {
            return Err(QueryErr::client("the request body is not JSON"));
        }
        if !is_object_text(text.as_str()) {
            return Err(QueryErr::client("the request body is not a JSON object"));
        }
        let columns = body_section(text.as_str(), "columns");
        let filters = body_section(text.as_str(), "filters");
        Self::from_sections(method, &columns, &filters, table)
    }
}

} // verus!
