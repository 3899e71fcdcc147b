//! The fluent query builder: filter, ordering and pagination compiled into
//! SQL, and the reading of what the database returns.
use vstd::prelude::*;
use crate::codegen::{insert_positions, key_positions};
use crate::entity::{
    bound, decode_error, decoded, decodes, delete_sql, insert_sql, update_bind_positions,
    update_sql, Entity, EntityModel,
};
use crate::error::Error;
use crate::strings::{
    comma, comma_join, decimal, decimal_string, join, join_strings, placeholder,
    placeholder_string, texts,
};
use crate::value::{EntityFieldDefinition, Row, SqlValue};

verus! {

/// Sort direction of one ordering clause.
#[derive(PartialEq, Eq, Structural, Clone, Copy, Debug)]
pub enum Ordering {
    ASC,
    DESC,
}

/// One ordering clause: a column and a direction.
pub struct DbSetOrdering {
    name: &'static str,
    ordering: Ordering,
}

/// A terminal operation called where the builder's state does not allow it.
#[derive(PartialEq, Eq, Structural, Clone, Copy, Debug)]
pub enum Misuse {
    /// A bulk delete or update was asked for without a filter.
    MissingFilter,
}

/// The keyword of a direction.
pub open spec fn direction(o: Ordering) -> Seq<char> {
    match o {
        Ordering::ASC => "ASC"@,
        Ordering::DESC => "DESC"@,
    }
}

/// The ordering clauses `column DIRECTION`, comma-joined.
pub open spec fn order_list(ordering: Seq<(Seq<char>, Ordering)>) -> Seq<char> {
    join(ordering.map_values(|o: (Seq<char>, Ordering)| o.0 + " "@ + direction(o.1)), comma())
}

/// The clause `keyword` followed by `text`, if there is one.
pub open spec fn clause(present: bool, keyword: Seq<char>, text: Seq<char>) -> Seq<Seq<char>> {
    if present {
        seq![keyword + text]
    } else {
        Seq::empty()
    }
}

/// The clauses of a read that are present, in SQL order.
pub open spec fn read_clauses(
    filter: Option<Seq<char>>,
    ordering: Seq<(Seq<char>, Ordering)>,
    limit: Option<nat>,
    offset: Option<nat>,
) -> Seq<Seq<char>> {
    clause(filter is Some, "WHERE "@, filter->Some_0)
        + clause(ordering.len() > 0, "ORDER BY "@, order_list(ordering))
        + clause(limit is Some, "LIMIT "@, decimal(limit->Some_0))
        + clause(offset is Some, "OFFSET "@, decimal(offset->Some_0))
}

/// `SELECT columns FROM table clauses;`, absent clauses left out.
pub open spec fn select_sql(columns: Seq<char>, table: Seq<char>, clauses: Seq<Seq<char>>) -> Seq<char> {
    "SELECT "@ + columns + " FROM "@ + table + " "@ + join(clauses, " "@) + ";"@
}

/// A builder with no filter, ordering, skip or take compiles to
/// `SELECT columns FROM table ;`: every clause is left out.
pub proof fn lemma_bare_select(columns: Seq<char>, table: Seq<char>)
    ensures
        select_sql(columns, table, read_clauses(None, Seq::empty(), None, None))
            == "SELECT "@ + columns + " FROM "@ + table + " ;"@,
{
    let none = read_clauses(None, Seq::empty(), None, None);
    assert(none =~= Seq::<Seq<char>>::empty());
    assert(join(none, " "@) =~= Seq::<char>::empty());
    assert(" "@ + join(none, " "@) + ";"@ =~= " ;"@) by {
        reveal_strlit(" ");
        reveal_strlit(";");
        reveal_strlit(" ;");
    }
    assert(select_sql(columns, table, none) =~= "SELECT "@ + columns + " FROM "@ + table + " ;"@);
}

/// A count as a natural number, if there is one.
pub open spec fn opt_nat(o: Option<usize>) -> Option<nat> {
    match o {
        Some(n) => Some(n as nat),
        None => None,
    }
}

/// The builder of the queries on one table of records of type `T`.
pub struct DbSet<T: Entity> {
    phantom: std::marker::PhantomData<T>,
    table_name: String,
    model: EntityModel,
    skip: Option<usize>,
    take: Option<usize>,
    filter: Option<(String, Vec<SqlValue>)>,
    ordering: Vec<DbSetOrdering>,
}

impl<T: Entity> DbSet<T> {
    /// The table's name.
    pub closed spec fn spec_table(&self) -> Seq<char> {
        self.table_name@
    }

    /// The record type's field declarations.
    pub closed spec fn spec_model(&self) -> Seq<EntityFieldDefinition> {
        self.model@
    }

    /// The number of rows to skip, if set.
    pub closed spec fn spec_skip(&self) -> Option<usize> {
        self.skip
    }

    /// The number of rows to take, if set.
    pub closed spec fn spec_take(&self) -> Option<usize> {
        self.take
    }

    /// The filter: a condition and the values of its placeholders, if set.
    pub closed spec fn spec_filter(&self) -> Option<(Seq<char>, Seq<SqlValue>)> {
        match self.filter {
            Some(f) => Some((f.0@, f.1@)),
            None => None,
        }
    }

    /// The ordering clauses, in the order they were added.
    pub closed spec fn spec_ordering(&self) -> Seq<(Seq<char>, Ordering)> {
        self.ordering@.map_values(|o: DbSetOrdering| (o.name@, o.ordering))
    }

    /// An empty builder on table `table_name` for records described by `model`
    /// (for a record type `T`, `T::model()`).
    pub fn new(table_name: String, model: EntityModel) -> (r: Self)
        ensures
            r.spec_table() == table_name@,
            r.spec_model() == model@,
            r.spec_skip() is None,
            r.spec_take() is None,
            r.spec_filter() is None,
            r.spec_ordering().len() == 0,
    {
        DbSet {
            phantom: std::marker::PhantomData,
            table_name,
            model,
            skip: None,
            take: None,
            filter: None,
            ordering: Vec::new(),
        }
    }

    /// The model of the record type.
    pub fn model(&self) -> (r: &EntityModel)
        ensures
            r@ == self.spec_model(),
    {
        &self.model
    }

    /// The table's name.
    pub fn table_name(&self) -> (r: &str)
        ensures
            r@ == self.spec_table(),
    {
        self.table_name.as_str()
    }

    /// Sets the number of rows to skip.
    pub fn skip(self, skip: usize) -> (r: Self)
        ensures
            r.spec_skip() == Some(skip),
            r.spec_take() == self.spec_take(),
            r.spec_filter() == self.spec_filter(),
            r.spec_ordering() == self.spec_ordering(),
            r.spec_table() == self.spec_table(),
            r.spec_model() == self.spec_model(),
    {
        let mut s = self;
        s.skip = Some(skip);
        s
    }

    /// Sets the number of rows to take.
    pub fn take(self, take: usize) -> (r: Self)
        ensures
            r.spec_take() == Some(take),
            r.spec_skip() == self.spec_skip(),
            r.spec_filter() == self.spec_filter(),
            r.spec_ordering() == self.spec_ordering(),
            r.spec_table() == self.spec_table(),
            r.spec_model() == self.spec_model(),
    {
        let mut s = self;
        s.take = Some(take);
        s
    }

    /// Appends the ordering clause `field ord`.
    pub fn order_by(self, field: &'static str, ord: Ordering) -> (r: Self)
        ensures
            r.spec_ordering() == self.spec_ordering().push((field@, ord)),
            r.spec_skip() == self.spec_skip(),
            r.spec_take() == self.spec_take(),
            r.spec_filter() == self.spec_filter(),
            r.spec_table() == self.spec_table(),
            r.spec_model() == self.spec_model(),
    {
        let mut s = self;
        let ghost before = s.ordering@;
        s.ordering.push(DbSetOrdering { name: field, ordering: ord });
        assert(s.spec_ordering() =~= before.map_values(|o: DbSetOrdering| (o.name@, o.ordering)).push((field@, ord)));
        s
    }

    /// Sets the filter, replacing any earlier one: a condition whose
    /// placeholders `$1`, `$2`, ... take `parms` in order.
    pub fn filter(self, filter: &str, parms: Vec<SqlValue>) -> (r: Self)
        ensures
            r.spec_filter() == Some((filter@, parms@)),
            r.spec_skip() == self.spec_skip(),
            r.spec_take() == self.spec_take(),
            r.spec_ordering() == self.spec_ordering(),
            r.spec_table() == self.spec_table(),
            r.spec_model() == self.spec_model(),
    {
        let mut s = self;
        s.filter = Some((String::from_str(filter), parms));
        s
    }

    /// Filters on the key: `key = $1` with `value`; the record type has
    /// exactly one key field.
    pub fn filter_pk(self, value: SqlValue) -> (r: Self)
        requires
            key_positions(self.spec_model()).len() == 1,
        ensures
            r.spec_filter() == Some((
                self.spec_model()[key_positions(self.spec_model())[0]].name@ + " = "@ + placeholder(1),
                seq![value],
            )),
            r.spec_skip() == self.spec_skip(),
            r.spec_take() == self.spec_take(),
            r.spec_ordering() == self.spec_ordering(),
            r.spec_table() == self.spec_table(),
            r.spec_model() == self.spec_model(),
    {
        let mut s = self;
        let key = s.model.key_name().unwrap();
        let mut cond = key.clone();
        cond.append(" = ");
        cond.append(placeholder_string(1).as_str());
        s.filter = Some((cond, vec![value]));
        assert(s.spec_filter()->Some_0.1 =~= seq![value]);
        s
    }

    /// Whether a filter is set.
    pub fn has_filter(&self) -> (r: bool)
        ensures
            r == self.spec_filter() is Some,
    {
        self.filter.is_some()
    }

    /// The ordering clauses as SQL text.
    fn order_text(&self) -> (r: String)
        ensures
            r@ == order_list(self.spec_ordering()),
    {
        let mut items: Vec<String> = Vec::new();
        let mut i: usize = 0;
        while i < self.ordering.len()
            invariant
                i <= self.ordering@.len(),
                texts(items@) == self.spec_ordering().subrange(0, i as int).map_values(
                    |o: (Seq<char>, Ordering)| o.0 + " "@ + direction(o.1),
                ),
            decreases self.ordering@.len() - i,
        {
            let o = &self.ordering[i];
            let mut item = String::from_str(o.name);
            item.append(" ");
            match o.ordering {
                Ordering::ASC => item.append("ASC"),
                Ordering::DESC => item.append("DESC"),
            }
            let ghost before = items@;
            assert(self.spec_ordering()[i as int] == (o.name@, o.ordering));
            assert(item@ == o.name@ + " "@ + direction(o.ordering));
            items.push(item);
            assert(texts(items@) =~= texts(before).push(o.name@ + " "@ + direction(o.ordering)));
            i = i + 1;
            assert(texts(items@) =~= self.spec_ordering().subrange(0, i as int).map_values(
                |o: (Seq<char>, Ordering)| o.0 + " "@ + direction(o.1),
            ));
        }
        assert(self.spec_ordering().subrange(0, i as int) =~= self.spec_ordering());
        comma_join(items.as_slice())
    }

    /// Compiles the read query and drains the filter. A single-row read asks
    /// for `LIMIT 1` and no offset; otherwise take and skip give `LIMIT` and
    /// `OFFSET`. The bound values are the filter's, or none.
    pub fn select_query(&mut self, single: bool) -> (r: (String, Vec<SqlValue>))
        ensures
            r.0@ == select_sql(
                crate::entity::select_columns(old(self).spec_model()),
                old(self).spec_table(),
                read_clauses(
                    match old(self).spec_filter() {
                        Some(f) => Some(f.0),
                        None => None,
                    },
                    old(self).spec_ordering(),
                    if single { Some(1nat) } else { opt_nat(old(self).spec_take()) },
                    if single { None } else { opt_nat(old(self).spec_skip()) },
                ),
            ),
            r.1@ == match old(self).spec_filter() {
                Some(f) => f.1,
                None => Seq::empty(),
            },
            final(self).spec_filter() is None,
            final(self).spec_skip() == old(self).spec_skip(),
            final(self).spec_take() == old(self).spec_take(),
            final(self).spec_ordering() == old(self).spec_ordering(),
            final(self).spec_table() == old(self).spec_table(),
            final(self).spec_model() == old(self).spec_model(),
    {
        let ghost filter = self.spec_filter();
        let mut parms: Vec<SqlValue> = Vec::new();
        let mut clauses: Vec<String> = Vec::new();
        let ghost spec_clauses = read_clauses(
            match filter {
                Some(f) => Some(f.0),
                None => None,
            },
            self.spec_ordering(),
            if single { Some(1nat) } else { opt_nat(self.spec_take()) },
            if single { None } else { opt_nat(self.spec_skip()) },
        );
        match self.filter.take() {
            Some(f) => {
                let mut c = String::from_str("WHERE ");
                c.append(f.0.as_str());
                clauses.push(c);
                parms = f.1;
            },
            None => {},
        }
        if self.ordering.len() > 0 {
            let mut c = String::from_str("ORDER BY ");
            c.append(self.order_text().as_str());
            clauses.push(c);
        }
        let limit = if single { Some(1usize) } else { self.take };
        let offset = if single { None } else { self.skip };
        match limit {
            Some(n) => {
                let mut c = String::from_str("LIMIT ");
                c.append(decimal_string(n).as_str());
                clauses.push(c);
            },
            None => {},
        }
        match offset {
            Some(n) => {
                let mut c = String::from_str("OFFSET ");
                c.append(decimal_string(n).as_str());
                clauses.push(c);
            },
            None => {},
        }
        assert(texts(clauses@) =~= spec_clauses);
        let mut q = String::from_str("SELECT ");
        q.append(self.model.sql_fields());
        q.append(" FROM ");
        q.append(self.table_name.as_str());
        q.append(" ");
        q.append(join_strings(clauses.as_slice(), " ").as_str());
        q.append(";");
        (q, parms)
    }

    /// Reads the answer to a single-row read, which holds at most one row:
    /// none gives `Ok(None)`; one gives the values decoded from it, in
    /// declaration order, or its decoding error.
    pub fn read_first(&self, rows: Vec<Row>) -> (r: Result<Option<Vec<SqlValue>>, Error>)
        requires
            rows@.len() <= 1,
        ensures
            rows@.len() == 0 ==> r matches Ok(None),
            rows@.len() == 1 ==> (r is Ok <==> decodes(self.spec_model(), rows@[0].columns@)),
            rows@.len() == 1 ==> (r matches Ok(v) ==> v matches Some(x)
                && x@ == decoded(self.spec_model(), rows@[0].columns@)),
            rows@.len() == 1 ==> (r matches Err(e) ==> decode_error(self.spec_model(), rows@[0].columns@, e)),
    {
        if rows.len() == 0 {
            Ok(None)
        } else {
            match self.model.decode_row(&rows[0]) {
                Ok(v) => Ok(Some(v)),
                Err(e) => Err(e),
            }
        }
    }

    /// Reads the row that an insert or update returns: the values decoded
    /// from it, in declaration order, or its decoding error.
    pub fn read_one(&self, rows: Vec<Row>) -> (r: Result<Vec<SqlValue>, Error>)
        requires
            rows@.len() == 1,
        ensures
            r is Ok <==> decodes(self.spec_model(), rows@[0].columns@),
            r matches Ok(v) ==> v@ == decoded(self.spec_model(), rows@[0].columns@),
            r matches Err(e) ==> decode_error(self.spec_model(), rows@[0].columns@, e),
    {
        self.model.decode_row(&rows[0])
    }

    /// Reads the rows of a list query: the values decoded from each row, in
    /// row order, or the decoding error of the first row that does not decode.
    pub fn read_all(&self, rows: Vec<Row>) -> (r: Result<Vec<Vec<SqlValue>>, Error>)
        ensures
            r is Ok <==> forall|k: int| 0 <= k < rows@.len() ==> #[trigger] decodes(self.spec_model(), rows@[k].columns@),
            r matches Ok(v) ==> v@.len() == rows@.len() && forall|k: int| 0 <= k < rows@.len()
                ==> (#[trigger] v@[k])@ == decoded(self.spec_model(), rows@[k].columns@),
            r matches Err(e) ==> exists|k: int| 0 <= k < rows@.len()
                && !decodes(self.spec_model(), rows@[k].columns@)
                && (forall|j: int| 0 <= j < k ==> #[trigger] decodes(self.spec_model(), rows@[j].columns@))
                && #[trigger] decode_error(self.spec_model(), rows@[k].columns@, e),
    {
        let mut out: Vec<Vec<SqlValue>> = Vec::new();
        let mut i: usize = 0;
        while i < rows.len()
            invariant
                i <= rows@.len(),
                out@.len() == i,
                forall|j: int| 0 <= j < i ==> #[trigger] decodes(self.spec_model(), rows@[j].columns@),
                forall|j: int| 0 <= j < i ==> (#[trigger] out@[j])@ == decoded(self.spec_model(), rows@[j].columns@),
            decreases rows@.len() - i,
        {
            match self.model.decode_row(&rows[i]) {
                Ok(v) => out.push(v),
                Err(e) => {
                    assert(decode_error(self.spec_model(), rows@[i as int].columns@, e));
                    return Err(e);
                },
            }
            i = i + 1;
        }
        Ok(out)
    }

    /// The answer of a strict single-row read: what was found, or `NoResult`.
    pub fn first_of<R>(found: Option<R>) -> (r: Result<R, Error>)
        ensures
            found matches Some(x) ==> r == Ok::<R, Error>(x),
            found is None ==> r matches Err(Error::NoResult),
    {
        match found {
            Some(x) => Ok(x),
            None => Err(Error::NoResult),
        }
    }

    /// Whether a single-row read found a row.
    pub fn any_of<R>(found: &Option<R>) -> (r: bool)
        ensures
            r == found is Some,
    {
        found.is_some()
    }

    /// Whether a delete removed exactly one row.
    pub fn deleted_one(count: u64) -> (r: bool)
        ensures
            r == (count == 1),
    {
        count == 1
    }

    /// The INSERT statement on this table for the record with field values
    /// `values` (in declaration order), bound to the insertable fields' values.
    pub fn insert_query(&self, values: &Vec<SqlValue>) -> (r: (String, Vec<SqlValue>))
        requires
            values@.len() == self.spec_model().len(),
        ensures
            r.0@ == "INSERT INTO "@ + self.spec_table() + insert_sql(self.spec_model()),
            r.1@ == bound(values@, insert_positions(self.spec_model())),
    {
        self.model.insert_query(self.table_name.as_str(), values)
    }

    /// The UPDATE statement on this table for the record with field values
    /// `values`, bound to the updatable fields' values and then the key
    /// fields' values.
    pub fn update_query(&self, values: &Vec<SqlValue>) -> (r: (String, Vec<SqlValue>))
        requires
            values@.len() == self.spec_model().len(),
        ensures
            r.0@ == "UPDATE "@ + self.spec_table() + update_sql(self.spec_model()),
            r.1@ == bound(values@, update_bind_positions(self.spec_model())),
    {
        self.model.update_query(self.table_name.as_str(), values)
    }

    /// The DELETE statement on this table for the record with field values
    /// `values`, bound to the key fields' values.
    pub fn delete_query(&self, values: &Vec<SqlValue>) -> (r: (String, Vec<SqlValue>))
        requires
            values@.len() == self.spec_model().len(),
        ensures
            r.0@ == "DELETE FROM "@ + self.spec_table() + delete_sql(self.spec_model()),
            r.1@ == bound(values@, key_positions(self.spec_model())),
    {
        self.model.delete_query(self.table_name.as_str(), values)
    }

    /// `DELETE FROM table WHERE key = $1;` with `value`; the record type has
    /// exactly one key field.
    pub fn delete_pk_query(&self, value: SqlValue) -> (r: (String, Vec<SqlValue>))
        requires
            key_positions(self.spec_model()).len() == 1,
        ensures
            r.0@ == "DELETE FROM "@ + self.spec_table() + " WHERE "@
                + self.spec_model()[key_positions(self.spec_model())[0]].name@ + " = "@
                + placeholder(1) + ";"@,
            r.1@ == seq![value],
    {
        let key = self.model.key_name().unwrap();
        let mut q = String::from_str("DELETE FROM ");
        q.append(self.table_name.as_str());
        q.append(" WHERE ");
        q.append(key.as_str());
        q.append(" = ");
        q.append(placeholder_string(1).as_str());
        q.append(";");
        let parms = vec![value];
        assert(parms@ =~= seq![value]);
        (q, parms)
    }

    /// `DELETE FROM table WHERE filter;` with the filter's values, draining
    /// the filter; without a filter, the `MissingFilter` misuse.
    pub fn exec_delete_query(&mut self) -> (r: Result<(String, Vec<SqlValue>), Misuse>)
        ensures
            old(self).spec_filter() is None <==> r matches Err(Misuse::MissingFilter),
            r matches Ok(q) ==> q.0@ == "DELETE FROM "@ + old(self).spec_table() + " WHERE "@
                + old(self).spec_filter()->Some_0.0 + ";"@
                && q.1@ == old(self).spec_filter()->Some_0.1,
            final(self).spec_filter() is None,
            final(self).spec_table() == old(self).spec_table(),
            final(self).spec_model() == old(self).spec_model(),
    {
        match self.filter.take() {
            None => Err(Misuse::MissingFilter),
            Some(f) => {
                let mut q = String::from_str("DELETE FROM ");
                q.append(self.table_name.as_str());
                q.append(" WHERE ");
                q.append(f.0.as_str());
                q.append(";");
                Ok((q, f.1))
            },
        }
    }

    /// `UPDATE table SET field = $n WHERE filter;` where `$n` follows the
    /// filter's placeholders, bound to the filter's values and then `value`;
    /// drains the filter. Without a filter, the `MissingFilter` misuse.
    pub fn update_field_query(&mut self, field: &str, value: SqlValue) -> (r: Result<(String, Vec<SqlValue>), Misuse>)
        requires
            old(self).spec_filter() matches Some(f) ==> f.1.len() < usize::MAX,
        ensures
            old(self).spec_filter() is None <==> r matches Err(Misuse::MissingFilter),
            r matches Ok(q) ==> q.0@ == "UPDATE "@ + old(self).spec_table() + " SET "@ + field@ + " = "@
                + placeholder(old(self).spec_filter()->Some_0.1.len() + 1) + " WHERE "@
                + old(self).spec_filter()->Some_0.0 + ";"@
                && q.1@ == old(self).spec_filter()->Some_0.1.push(value),
            final(self).spec_filter() is None,
            final(self).spec_table() == old(self).spec_table(),
            final(self).spec_model() == old(self).spec_model(),
    {
        match self.filter.take() {
            None => Err(Misuse::MissingFilter),
            Some(f) => {
                let mut parms = f.1;
                parms.push(value);
                let mut q = String::from_str("UPDATE ");
                q.append(self.table_name.as_str());
                q.append(" SET ");
                q.append(field);
                q.append(" = ");
                q.append(placeholder_string(parms.len()).as_str());
                q.append(" WHERE ");
                q.append(f.0.as_str());
                q.append(";");
                Ok((q, parms))
            },
        }
    }
}

} // verus!
