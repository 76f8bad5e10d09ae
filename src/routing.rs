//! Route table: URI splitting and exact-path matching of routes to schemas.

use vstd::prelude::*;
use vstd::string::StringExecFns;

use crate::schema::SqlTableSchema;
use crate::text::{chars_of, string_of};

verus! {

/// Index of the last occurrence of `c` in `s`.
pub open spec fn last_index_of(s: Seq<char>, c: char) -> Option<int>
    decreases s.len(),
{
    if s.len() == 0 {
        None
    } else if s.last() == c {
        Some(s.len() - 1)
    } else {
        last_index_of(s.drop_last(), c)
    }
}

/// The path part of a request URI: everything before its last `?`.
pub open spec fn uri_path(u: Seq<char>) -> Seq<char> {
    match last_index_of(u, '?') {
        Some(k) => u.take(k),
        None => u,
    }
}

/// The argument part of a request URI: everything after its last `?`.
pub open spec fn uri_args(u: Seq<char>) -> Seq<char> {
    match last_index_of(u, '?') {
        Some(k) => u.skip(k + 1),
        None => Seq::empty(),
    }
}

/// Splits a request URI at its last `?` into the path and the argument
/// string; without a `?` the arguments are empty.
pub fn split_uri_args(uri: String) -> (r: (String, String))
    ensures
        r.0@ == uri_path(uri@),
        r.1@ == uri_args(uri@),
{
    let cs = chars_of(uri.as_str());
    let mut last: Option<usize> = None;
    let mut i: usize = 0;
    while i < cs.len()
        invariant
            i <= cs.len(),
            cs@ == uri@,
            match last {
                Some(k) => last_index_of(cs@.take(i as int), '?') == Some(k as int) && k < i,
                None => last_index_of(cs@.take(i as int), '?') is None,
            },
        decreases cs.len() - i,
    {
        assert(cs@.take(i + 1).drop_last() =~= cs@.take(i as int));
        if cs[i] == '?' {
            last = Some(i);
        }
        i = i + 1;
    }
    assert(cs@.take(cs.len() as int) =~= cs@);
    match last {
        None => (uri, String::new()),
        Some(k) => {
            let mut base: Vec<char> = Vec::new();
            let mut j: usize = 0;
            while j < k
                invariant
                    j <= k < cs.len(),
                    base@ == cs@.take(j as int),
                decreases k - j,
            {
                base.push(cs[j]);
                j = j + 1;
            }
            let mut args: Vec<char> = Vec::new();
            let mut j: usize = k + 1;
            while j < cs.len()
                invariant
                    k + 1 <= j <= cs.len(),
                    args@ == cs@.subrange(k + 1, j as int),
                decreases cs.len() - j,
            {
                args.push(cs[j]);
                j = j + 1;
            }
            (string_of(&base), string_of(&args))
        },
    }
}

/// A request path bound to the schema of the table it serves.
pub trait Route {
    /// The exact path this route answers.
    spec fn path(&self) -> Seq<char>;

    /// The schema this route serves.
    spec fn schema(&self) -> SqlTableSchema;

    fn matches_uri(&self, uri: String) -> (r: bool)
        ensures
            r == (uri@ == self.path()),
    ;

    fn get_schema(&self) -> (r: &SqlTableSchema)
        ensures
            *r == self.schema(),
    ;
}

/// A route that matches one path exactly.
#[derive(Debug)]
pub struct BasicRoute {
    pub route: String,
    pub table_schema: SqlTableSchema,
}

impl BasicRoute {
    pub fn new(route: String, table_schema: SqlTableSchema) -> (r: Self)
        ensures
            r.route@ == route@,
            r.table_schema == table_schema,
    {
        Self { route, table_schema }
    }
}

impl Route for BasicRoute {
    open spec fn path(&self) -> Seq<char> {
        self.route@
    }

    open spec fn schema(&self) -> SqlTableSchema {
        self.table_schema
    }

    fn matches_uri(&self, uri: String) -> (r: bool) {
        uri == self.route
    }

    fn get_schema(&self) -> (r: &SqlTableSchema) {
        &self.table_schema
    }
}

/// Index of the first route, in registration order, whose path is `path`.
pub open spec fn first_route(routes: Seq<BasicRoute>, path: Seq<char>) -> Option<int>
    decreases routes.len(),
{
    if routes.len() == 0 {
        None
    } else {
        match first_route(routes.drop_last(), path) {
            Some(i) => Some(i),
            None => if routes.last().route@ == path {
                Some(routes.len() - 1)
            } else {
                None
            },
        }
    }
}

/// A match found in a prefix of the route table is the match of the table.
pub proof fn lemma_first_route_prefix(routes: Seq<BasicRoute>, path: Seq<char>, k: int)
    requires
        0 <= k <= routes.len(),
        first_route(routes.take(k), path) is Some,
    ensures
        first_route(routes, path) == first_route(routes.take(k), path),
    decreases routes.len() - k,
{
    if k < routes.len() {
        assert(routes.take(k + 1).drop_last() =~= routes.take(k));
        lemma_first_route_prefix(routes, path, k + 1);
    } else {
        assert(routes.take(k) =~= routes);
    }
}

/// The schema of the first route whose path equals `path`, or `None` when no
/// route matches.
pub fn match_route<'a>(routes: &'a Vec<BasicRoute>, path: &str) -> (r: Option<&'a SqlTableSchema>)
    ensures
        match first_route(routes@, path@) {
            Some(i) => r == Some(&routes@[i].table_schema),
            None => r is None,
        },
{
    let target = String::from_str(path);
    let mut i: usize = 0;
    while i < routes.len()
        invariant
            i <= routes.len(),
            target@ == path@,
            first_route(routes@.take(i as int), path@) is None,
        decreases routes.len() - i,
    {
        assert(routes@.take(i + 1).drop_last() =~= routes@.take(i as int));
        if routes[i].matches_uri(target.clone()) {
            proof {
                lemma_first_route_prefix(routes@, path@, i + 1);
            }
            return Some(routes[i].get_schema());
        }
        i = i + 1;
    }
    assert(routes@.take(routes.len() as int) =~= routes@);
    None
}

/// The schema that serves a request URI: the match of its path part, with
/// any argument string ignored.
pub fn route_for_uri<'a>(routes: &'a Vec<BasicRoute>, uri: &str) -> (r: Option<&'a SqlTableSchema>)
    ensures
        match first_route(routes@, uri_path(uri@)) {
            Some(i) => r == Some(&routes@[i].table_schema),
            None => r is None,
        },
{
    let (path, _args) = split_uri_args(String::from_str(uri));
    match_route(routes, path.as_str())
}

/// Appending characters other than `c` keeps the last occurrence of `c`.
proof fn lemma_last_index_append(a: Seq<char>, b: Seq<char>, c: char)
    requires
        !b.contains(c),
    ensures
        last_index_of(a + b, c) == last_index_of(a, c),
    decreases b.len(),
{
    if b.len() == 0 {
        assert(a + b =~= a);
    } else {
        assert((a + b).drop_last() =~= a + b.drop_last());
        assert(b.last() == b[b.len() - 1]);
        assert(!b.drop_last().contains(c)) by {
            if b.drop_last().contains(c) {
                let j = b.drop_last().index_of(c);
                assert(b[j] == c);
            }
        }
        lemma_last_index_append(a, b.drop_last(), c);
    }
}

/// Route matching depends on the path part of the URI alone: for a path and
/// an argument string that hold no `?`, the URI `path?args` is served by the
/// same route as `path`.
pub proof fn lemma_route_ignores_args(routes: Seq<BasicRoute>, path: Seq<char>, args: Seq<char>)
    requires
        !path.contains('?'),
        !args.contains('?'),
    ensures
        first_route(routes, uri_path(path + seq!['?'] + args)) == first_route(routes, uri_path(path)),
        uri_path(path + seq!['?'] + args) == path,
        uri_args(path + seq!['?'] + args) == args,
{
    let q = path + seq!['?'];
    lemma_last_index_append(seq![], path, '?');
    assert(Seq::<char>::empty() + path =~= path);
    assert(last_index_of(Seq::<char>::empty(), '?') is None);
    assert(q.drop_last() =~= path);
    assert(last_index_of(q, '?') == Some(path.len() as int));
    lemma_last_index_append(q, args, '?');
    assert((q + args).take(path.len() as int) =~= path);
    assert((q + args).skip(path.len() as int + 1) =~= args);
}

} // verus!
