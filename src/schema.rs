//! Declared tables: column types, table schemas and the DDL that creates them.

use vstd::prelude::*;
use vstd::string::StringExecFns;

use crate::text::{push_char, str_equal};

verus! {

/// Storage type of a declared column.
#[derive(Clone, Copy, Debug, PartialEq, Eq, Structural)]
pub enum SQLType {
    Null,
    Integer,
    Real,
    Text,
}

/// The SQL keyword that declares a column of type `t`.
pub open spec fn type_keyword(t: SQLType) -> Seq<char> {
    match t {
        SQLType::Null => "NULL"@,
        SQLType::Integer => "INTEGER"@,
        SQLType::Real => "REAL"@,
        SQLType::Text => "TEXT"@,
    }
}

impl SQLType {
    /// The SQL keyword of this type, as used in `CREATE TABLE`.
    pub fn keyword(&self) -> (r: &'static str)
        ensures
            r@ == type_keyword(*self),
    {
        match self {
            SQLType::Null => "NULL",
            SQLType::Integer => "INTEGER",
            SQLType::Real => "REAL",
            SQLType::Text => "TEXT",
        }
    }
}

/// The name of the implicit primary-key column of every table.
pub open spec fn id_column() -> Seq<char> {
    "id"@
}

pub open spec fn ident_start(c: char) -> bool {
    ('a' <= c && c <= 'z') || ('A' <= c && c <= 'Z') || c == '_'
}

pub open spec fn ident_char(c: char) -> bool {
    ident_start(c) || ('0' <= c && c <= '9')
}

/// A plain SQL identifier: a letter or `_`, then letters, digits or `_`.
pub open spec fn is_identifier(s: Seq<char>) -> bool {
    &&& s.len() > 0
    &&& ident_start(s[0])
    &&& forall|i: int| 1 <= i < s.len() ==> #[trigger] ident_char(s[i])
}

/// The declared name and typed columns of one table. Column order is the
/// order in which an `INSERT` supplies values.
#[derive(Debug)]
pub struct SqlTableSchema {
    pub name: String,
    pub fields: Vec<(String, SQLType)>,
}

impl SqlTableSchema {
    /// The declared column names, in declaration order.
    pub open spec fn columns(&self) -> Seq<Seq<char>> {
        self.fields@.map_values(|f: (String, SQLType)| f.0@)
    }

    /// The table name and every column name are plain SQL identifiers, no
    /// column is named `id`, and no column is declared twice.
    pub open spec fn well_formed(&self) -> bool {
        &&& is_identifier(self.name@)
        &&& forall|i: int|
            0 <= i < self.columns().len() ==> #[trigger] is_identifier(self.columns()[i])
                && self.columns()[i] != id_column()
        &&& forall|i: int, j: int|
            0 <= i < j < self.columns().len() ==> self.columns()[i] != self.columns()[j]
    }

    /// Whether `c` is a declared column.
    pub open spec fn declares(&self, c: Seq<char>) -> bool {
        self.columns().contains(c)
    }

    /// Whether `c` may name a column of this table in a request: a declared
    /// column or the implicit `id`.
    pub open spec fn accepts(&self, c: Seq<char>) -> bool {
        self.declares(c) || c == id_column()
    }

    /// Whether `field_name` is a declared column; the implicit `id` column
    /// always exists.
    pub fn field_exists(&self, field_name: &str) -> (r: bool)
        ensures
            r == self.accepts(field_name@),
    {
        self.has_column(field_name) || str_equal(field_name, "id")
    }

    /// Whether `c` is a declared column.
    pub fn has_column(&self, c: &str) -> (r: bool)
        ensures
            r == self.declares(c@),
    {
        let target = String::from_str(c);
        let mut i: usize = 0;
        while i < self.fields.len()
            invariant
                i <= self.fields.len(),
                target@ == c@,
                forall|j: int| 0 <= j < i ==> self.fields@[j].0@ != c@,
            decreases self.fields.len() - i,
        {
            if self.fields[i].0 == target {
                proof {
                    assert(self.columns()[i as int] == c@);
                }
                return true;
            }
            i = i + 1;
        }
        proof {
            if self.declares(c@) {
                let k = self.columns().index_of(c@);
                assert(self.fields@[k].0@ == c@);
            }
        }
        false
    }
}

/// A table to create in storage: its name and typed columns.
#[derive(Debug)]
pub struct Table {
    pub name: String,
    pub fields: Vec<(String, SQLType)>,
}

/// `, <col> <TYPE>` for each column, in order.
pub open spec fn column_defs(fields: Seq<(String, SQLType)>) -> Seq<char>
    decreases fields.len(),
{
    if fields.len() == 0 {
        Seq::empty()
    } else {
        column_defs(fields.drop_last()) + ", "@ + fields.last().0@ + seq![' '] + type_keyword(
            fields.last().1,
        )
    }
}

/// The statement that creates a table unless it exists: the implicit `id`
/// primary key first, then the declared columns in order.
pub open spec fn create_text(name: Seq<char>, fields: Seq<(String, SQLType)>) -> Seq<char> {
    "CREATE TABLE IF NOT EXISTS "@ + name + " (id INTEGER PRIMARY KEY"@ + column_defs(fields)
        + ");"@
}

impl Table {
    /// The `CREATE TABLE IF NOT EXISTS` statement for this table.
    pub fn generate_create_sql(&self) -> (r: String)
        ensures
            r@ == create_text(self.name@, self.fields@),
    {
        let mut statement = String::from_str("CREATE TABLE IF NOT EXISTS ");
        statement.append(self.name.as_str());
        statement.append(" (id INTEGER PRIMARY KEY");
        let ghost head = statement@;
        let mut i: usize = 0;
        while i < self.fields.len()
            invariant
                i <= self.fields.len(),
                statement@ == head + column_defs(self.fields@.take(i as int)),
            decreases self.fields.len() - i,
        {
            assert(self.fields@.take(i + 1).drop_last() =~= self.fields@.take(i as int));
            statement.append(", ");
            statement.append(self.fields[i].0.as_str());
            push_char(&mut statement, ' ');
            statement.append(self.fields[i].1.keyword());
            assert(statement@ =~= head + column_defs(self.fields@.take(i + 1)));
            i = i + 1;
        }
        assert(self.fields@.take(self.fields.len() as int) =~= self.fields@);
        statement.append(");");
        statement
    }
}

} // verus!
