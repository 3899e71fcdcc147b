//! Column values, rows and the per-field declarations that describe a record.
use vstd::prelude::*;

verus! {

/// The database type of a column, as far as this library maps it.
#[derive(PartialEq, Eq, Structural, Clone, Copy, Debug)]
pub enum ValueKind {
    Bool,
    SmallInt,
    Int,
    BigInt,
    Text,
}

/// One column value, as bound to a placeholder or read from a row.
#[derive(PartialEq, Eq, Debug)]
pub enum SqlValue {
    Null,
    Bool(bool),
    SmallInt(i16),
    Int(i32),
    BigInt(i64),
    Text(String),
}

/// Whether `v` is a value of a column of type `kind`; `NULL` only where the
/// column is optional.
pub open spec fn fits(v: SqlValue, kind: ValueKind, optional: bool) -> bool {
    match v {
        SqlValue::Null => optional,
        SqlValue::Bool(_) => kind == ValueKind::Bool,
        SqlValue::SmallInt(_) => kind == ValueKind::SmallInt,
        SqlValue::Int(_) => kind == ValueKind::Int,
        SqlValue::BigInt(_) => kind == ValueKind::BigInt,
        SqlValue::Text(_) => kind == ValueKind::Text,
    }
}

impl SqlValue {
    /// A copy of this value.
    pub fn copy(&self) -> (r: SqlValue)
        ensures
            r == *self,
    {
        match self {
            SqlValue::Null => SqlValue::Null,
            SqlValue::Bool(b) => SqlValue::Bool(*b),
            SqlValue::SmallInt(i) => SqlValue::SmallInt(*i),
            SqlValue::Int(i) => SqlValue::Int(*i),
            SqlValue::BigInt(i) => SqlValue::BigInt(*i),
            SqlValue::Text(s) => SqlValue::Text(s.clone()),
        }
    }

    /// Whether this value fits a column of type `kind`.
    pub fn fits(&self, kind: ValueKind, optional: bool) -> (r: bool)
        ensures
            r == fits(*self, kind, optional),
    {
        match self {
            SqlValue::Null => optional,
            SqlValue::Bool(_) => kind == ValueKind::Bool,
            SqlValue::SmallInt(_) => kind == ValueKind::SmallInt,
            SqlValue::Int(_) => kind == ValueKind::Int,
            SqlValue::BigInt(_) => kind == ValueKind::BigInt,
            SqlValue::Text(_) => kind == ValueKind::Text,
        }
    }
}

/// One named column of a row.
pub struct Column {
    pub name: String,
    pub value: SqlValue,
}

/// A row as returned by the database: named columns in result order.
pub struct Row {
    pub columns: Vec<Column>,
}

/// The value of the first column of `cols` named `name`.
pub open spec fn lookup(cols: Seq<Column>, name: Seq<char>) -> Option<SqlValue>
    decreases cols.len(),
{
    if cols.len() == 0 {
        None
    } else if cols[0].name@ == name {
        Some(cols[0].value)
    } else {
        lookup(cols.drop_first(), name)
    }
}

impl Row {
    /// The value of the column named `name` (the first, if several share it).
    pub fn try_get(&self, name: &str) -> (r: Option<&SqlValue>)
        ensures
            match r {
                Some(v) => lookup(self.columns@, name@) == Some(*v),
                None => lookup(self.columns@, name@) is None,
            },
    {
        let mut i: usize = 0;
        assert(self.columns@.subrange(0, self.columns@.len() as int) =~= self.columns@);
        while i < self.columns.len()
            invariant
                i <= self.columns@.len(),
                lookup(self.columns@, name@) == lookup(self.columns@.subrange(i as int, self.columns@.len() as int), name@),
            decreases self.columns@.len() - i,
        {
            proof {
                let tail = self.columns@.subrange(i as int, self.columns@.len() as int);
                assert(tail.drop_first() =~= self.columns@.subrange(i + 1, self.columns@.len() as int));
            }
            let name_i = self.columns[i].name.as_str();
            if string_eq(name_i, name) {
                return Some(&self.columns[i].value);
            }
            i = i + 1;
        }
        None
    }
}

/// Whether two texts are equal.
pub fn string_eq(a: &str, b: &str) -> (r: bool)
    ensures
        r == (a@ == b@),
{
    let n = a.unicode_len();
    let m = b.unicode_len();
    if n != m {
        return false;
    }
    let mut i: usize = 0;
    while i < n
        invariant
            n == a@.len(),
            m == b@.len(),
            n == m,
            i <= n,
            forall|k: int| 0 <= k < i ==> a@[k] == b@[k],
        decreases n - i,
    {
        if a.get_char(i) != b.get_char(i) {
            return false;
        }
        i = i + 1;
    }
    assert(a@ =~= b@);
    true
}

/// The PostgreSQL name of a column type.
pub open spec fn psql_type_name(kind: ValueKind) -> Seq<char> {
    match kind {
        ValueKind::Bool => "BOOL"@,
        ValueKind::SmallInt => "SMALLINT"@,
        ValueKind::Int => "INT"@,
        ValueKind::BigInt => "BIGINT"@,
        ValueKind::Text => "TEXT"@,
    }
}

/// The declaration of one field of a record type: its column name, whether it
/// may be `NULL`, its column type, and the markers attached to it.
pub struct EntityFieldDefinition {
    pub name: String,
    pub optional: bool,
    pub kind: ValueKind,
    pub markers: Vec<String>,
}

impl EntityFieldDefinition {
    /// The PostgreSQL name of the field's column type.
    pub fn psql_type(&self) -> (r: &'static str)
        ensures
            r@ == psql_type_name(self.kind),
    {
        match self.kind {
            ValueKind::Bool => "BOOL",
            ValueKind::SmallInt => "SMALLINT",
            ValueKind::Int => "INT",
            ValueKind::BigInt => "BIGINT",
            ValueKind::Text => "TEXT",
        }
    }
}

} // verus!
