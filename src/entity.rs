//! The model of a record type: its field declarations, their classification
//! and SQL templates, and the decoding and binding of its values.
use vstd::prelude::*;
use crate::codegen::{
    classifies, delete_after, delete_template, get_codegen_data, insert_after, insert_positions,
    insert_template, ints, key_positions, lemma_selected_in_range, names, names_at,
    select_positions, update_after, update_positions, update_template, EntityCodeGenData,
    SqlTemplate,
};
use crate::error::Error;
use crate::strings::{comma, comma_join, join, texts};
use crate::value::{fits, lookup, Column, EntityFieldDefinition, Row, SqlValue};

verus! {

/// The SELECT column list: every field name, comma-joined.
pub open spec fn select_columns(fields: Seq<EntityFieldDefinition>) -> Seq<char> {
    join(names(fields), comma())
}

/// The INSERT text after the table name for `fields`.
pub open spec fn insert_sql(fields: Seq<EntityFieldDefinition>) -> Seq<char> {
    insert_after(names_at(fields, insert_positions(fields)), names(fields))
}

/// The UPDATE text after the table name for `fields`.
pub open spec fn update_sql(fields: Seq<EntityFieldDefinition>) -> Seq<char> {
    update_after(
        names_at(fields, update_positions(fields)),
        names_at(fields, key_positions(fields)),
        names(fields),
    )
}

/// The DELETE text after the table name for `fields`.
pub open spec fn delete_sql(fields: Seq<EntityFieldDefinition>) -> Seq<char> {
    delete_after(names_at(fields, key_positions(fields)))
}

/// The values bound for an UPDATE: updated fields, then key fields.
pub open spec fn update_bind_positions(fields: Seq<EntityFieldDefinition>) -> Seq<int> {
    update_positions(fields) + key_positions(fields)
}

/// The values at `pos`, in that order.
pub open spec fn bound(values: Seq<SqlValue>, pos: Seq<int>) -> Seq<SqlValue> {
    pos.map_values(|p: int| values[p])
}

/// The value that field `f` takes from a row: its column's value, if the
/// column is there and its value fits the field.
pub open spec fn field_value(f: EntityFieldDefinition, row: Seq<Column>) -> Option<SqlValue> {
    match lookup(row, f.name@) {
        Some(v) => if fits(v, f.kind, f.optional) {
            Some(v)
        } else {
            None
        },
        None => None,
    }
}

/// Every field takes a value from `row`.
pub open spec fn decodes(fields: Seq<EntityFieldDefinition>, row: Seq<Column>) -> bool {
    forall|i: int| 0 <= i < fields.len() ==> (#[trigger] field_value(fields[i], row)) is Some
}

/// The values that the fields take from `row`, in declaration order.
pub open spec fn decoded(fields: Seq<EntityFieldDefinition>, row: Seq<Column>) -> Seq<SqlValue> {
    Seq::new(fields.len(), |i: int| field_value(fields[i], row)->Some_0)
}

/// Field `i` is the first that takes no value from `row`.
pub open spec fn first_failure(fields: Seq<EntityFieldDefinition>, row: Seq<Column>, i: int) -> bool {
    &&& 0 <= i < fields.len()
    &&& field_value(fields[i], row) is None
    &&& forall|j: int| 0 <= j < i ==> (#[trigger] field_value(fields[j], row)) is Some
}

/// `values` is a record of `fields`: one fitting value per field.
pub open spec fn is_record(fields: Seq<EntityFieldDefinition>, values: Seq<SqlValue>) -> bool {
    &&& values.len() == fields.len()
    &&& forall|i: int| 0 <= i < fields.len()
        ==> fits(#[trigger] values[i], fields[i].kind, fields[i].optional)
}

/// No two fields share a name.
pub open spec fn distinct_names(fields: Seq<EntityFieldDefinition>) -> bool {
    forall|i: int, j: int| 0 <= i < j < fields.len() ==> fields[i].name@ != fields[j].name@
}

/// The result of decoding `row` for `fields`: the decoded values, or the
/// error naming the first field in declaration order that cannot be decoded.
pub open spec fn decode_result(fields: Seq<EntityFieldDefinition>, row: Seq<Column>, r: Result<Vec<SqlValue>, Error>) -> bool {
    match r {
        Ok(v) => decodes(fields, row) && v@ == decoded(fields, row),
        Err(e) => !decodes(fields, row) && decode_error(fields, row, e),
    }
}

/// A record type's field declarations with everything derived from them:
/// the classification, the SQL column list and templates, and the
/// positions of the bound values.
pub struct EntityModel {
    fields: Vec<EntityFieldDefinition>,
    data: EntityCodeGenData,
    sql_fields: String,
    insert: SqlTemplate,
    update: SqlTemplate,
    delete: SqlTemplate,
    insert_pos: Vec<usize>,
    update_pos: Vec<usize>,
    key_pos: Vec<usize>,
}

impl View for EntityModel {
    type V = Seq<EntityFieldDefinition>;

    closed spec fn view(&self) -> Seq<EntityFieldDefinition> {
        self.fields@
    }
}

impl EntityModel {
    #[verifier::type_invariant]
    spec fn well_formed(self) -> bool {
        let f = self.fields@;
        &&& f.len() <= usize::MAX / 2
        &&& classifies(self.data, f)
        &&& self.sql_fields@ == select_columns(f)
        &&& self.insert.before@ == "INSERT INTO "@
        &&& self.insert.after@ == insert_sql(f)
        &&& self.update.before@ == "UPDATE "@
        &&& self.update.after@ == update_sql(f)
        &&& self.delete.before@ == "DELETE FROM "@
        &&& self.delete.after@ == delete_sql(f)
        &&& ints(self.insert_pos@) == insert_positions(f)
        &&& ints(self.update_pos@) == update_bind_positions(f)
        &&& ints(self.key_pos@) == key_positions(f)
    }

    /// Builds the model of a record type with the field declarations `fields`.
    pub fn new(fields: Vec<EntityFieldDefinition>) -> (r: EntityModel)
        requires
            fields@.len() <= usize::MAX / 2,
        ensures
            r@ == fields@,
    {
        let data = get_codegen_data(fields.as_slice());
        let sql_fields = comma_join(data.query_fields.as_slice());
        proof {
            lemma_selected_in_range(fields@, "noupdate"@, false);
            lemma_selected_in_range(fields@, "key"@, true);
            assert(data.update_fields@.len() == texts(data.update_fields@).len());
            assert(data.key_fields@.len() == texts(data.key_fields@).len());
        }
        let insert = insert_template(&data);
        let update = update_template(&data);
        let delete = delete_template(&data);
        let insert_pos = select_positions(fields.as_slice(), "noinsert", false);
        let mut update_pos = select_positions(fields.as_slice(), "noupdate", false);
        let key_pos = select_positions(fields.as_slice(), "key", true);
        let mut tail = key_pos.clone();
        update_pos.append(&mut tail);
        assert(ints(update_pos@) =~= update_bind_positions(fields@));
        EntityModel {
            fields,
            data,
            sql_fields,
            insert,
            update,
            delete,
            insert_pos,
            update_pos,
            key_pos,
        }
    }

    /// The field declarations.
    pub fn fields(&self) -> (r: &Vec<EntityFieldDefinition>)
        ensures
            r@ == self@,
    {
        &self.fields
    }

    /// The classification of the fields.
    pub fn codegen_data(&self) -> (r: &EntityCodeGenData)
        ensures
            classifies(*r, self@),
    {
        proof { use_type_invariant(self); }
        &self.data
    }

    /// The SELECT column list.
    pub fn sql_fields(&self) -> (r: &str)
        ensures
            r@ == select_columns(self@),
    {
        proof { use_type_invariant(self); }
        self.sql_fields.as_str()
    }

    /// The INSERT template.
    pub fn insert_template(&self) -> (r: &SqlTemplate)
        ensures
            r.before@ == "INSERT INTO "@,
            r.after@ == insert_sql(self@),
    {
        proof { use_type_invariant(self); }
        &self.insert
    }

    /// The UPDATE template.
    pub fn update_template(&self) -> (r: &SqlTemplate)
        ensures
            r.before@ == "UPDATE "@,
            r.after@ == update_sql(self@),
    {
        proof { use_type_invariant(self); }
        &self.update
    }

    /// The DELETE template.
    pub fn delete_template(&self) -> (r: &SqlTemplate)
        ensures
            r.before@ == "DELETE FROM "@,
            r.after@ == delete_sql(self@),
    {
        proof { use_type_invariant(self); }
        &self.delete
    }

    /// The number of declared fields.
    pub fn len(&self) -> (r: usize)
        ensures
            r == self@.len(),
            r <= usize::MAX / 2,
    {
        proof { use_type_invariant(self); }
        self.fields.len()
    }

    /// The name of the key field, where there is exactly one.
    pub fn key_name(&self) -> (r: Option<&String>)
        ensures
            match r {
                Some(name) => key_positions(self@).len() == 1
                    && name@ == self@[key_positions(self@)[0]].name@,
                None => key_positions(self@).len() != 1,
            },
    {
        proof { use_type_invariant(self); }
        if self.key_pos.len() == 1 {
            assert(ints(self.key_pos@)[0] == self.key_pos@[0] as int);
            proof { lemma_selected_in_range(self@, "key"@, true); }
            Some(&self.fields[self.key_pos[0]].name)
        } else {
            None
        }
    }

    /// Decodes `row`: for each field in declaration order, its column's value,
    /// which must be present and fit the field; otherwise the error names the
    /// first field that fails.
    pub fn decode_row(&self, row: &Row) -> (r: Result<Vec<SqlValue>, Error>)
        ensures
            decode_result(self@, row.columns@, r),
    {
        let ghost cols = row.columns@;
        let ghost fs = self@;
        let mut out: Vec<SqlValue> = Vec::new();
        let mut i: usize = 0;
        while i < self.fields.len()
            invariant
                fs == self.fields@,
                cols == row.columns@,
                i <= fs.len(),
                forall|j: int| 0 <= j < i ==> (#[trigger] field_value(fs[j], cols)) is Some,
                out@ == Seq::new(i as nat, |j: int| field_value(fs[j], cols)->Some_0),
            decreases fs.len() - i,
        {
            let f = &self.fields[i];
            let got = row.try_get(f.name.as_str());
            let ok = match got {
                Some(v) => v.fits(f.kind, f.optional),
                None => false,
            };
            if !ok {
                let e = Error::Decode(f.name.clone());
                assert(first_failure(fs, cols, i as int));
                assert(e.is_decode_of(fs[i as int].name@));
                return Err(e);
            }
            let v = got.unwrap();
            out.push(v.copy());
            i = i + 1;
            assert(out@ =~= Seq::new(i as nat, |j: int| field_value(fs[j], cols)->Some_0));
        }
        assert(out@ =~= decoded(fs, cols));
        Ok(out)
    }

    /// The values of `values` at `pos`.
    fn bind(values: &Vec<SqlValue>, pos: &Vec<usize>) -> (r: Vec<SqlValue>)
        requires
            forall|i: int| 0 <= i < pos@.len() ==> #[trigger] pos@[i] < values@.len(),
        ensures
            r@ == bound(values@, ints(pos@)),
    {
        let mut r: Vec<SqlValue> = Vec::new();
        let mut i: usize = 0;
        while i < pos.len()
            invariant
                i <= pos@.len(),
                forall|k: int| 0 <= k < pos@.len() ==> #[trigger] pos@[k] < values@.len(),
                r@ == bound(values@, ints(pos@.subrange(0, i as int))),
            decreases pos@.len() - i,
        {
            r.push(values[pos[i]].copy());
            i = i + 1;
            assert(r@ =~= bound(values@, ints(pos@.subrange(0, i as int))));
        }
        assert(pos@.subrange(0, i as int) =~= pos@);
        r
    }

    /// Every position of `pos` is below the field count.
    proof fn lemma_positions(self, pos: Seq<usize>, tag: Seq<char>, present: bool)
        requires
            ints(pos) == crate::codegen::selected(self@, tag, present),
        ensures
            forall|i: int| 0 <= i < pos.len() ==> #[trigger] pos[i] < self@.len(),
    {
        lemma_selected_in_range(self@, tag, present);
        assert forall|i: int| 0 <= i < pos.len() implies #[trigger] pos[i] < self@.len() by {
            assert(ints(pos)[i] == pos[i] as int);
        }
    }

    /// The INSERT statement for table `table` and the values bound to it:
    /// those of the insertable fields, in declaration order.
    pub fn insert_query(&self, table: &str, values: &Vec<SqlValue>) -> (r: (String, Vec<SqlValue>))
        requires
            values@.len() == self@.len(),
        ensures
            r.0@ == "INSERT INTO "@ + table@ + insert_sql(self@),
            r.1@ == bound(values@, insert_positions(self@)),
    {
        proof {
            use_type_invariant(self);
            self.lemma_positions(self.insert_pos@, "noinsert"@, false);
        }
        (self.insert.render(table), Self::bind(values, &self.insert_pos))
    }

    /// The UPDATE statement for table `table` and the values bound to it:
    /// those of the updatable fields, then those of the key fields.
    pub fn update_query(&self, table: &str, values: &Vec<SqlValue>) -> (r: (String, Vec<SqlValue>))
        requires
            values@.len() == self@.len(),
        ensures
            r.0@ == "UPDATE "@ + table@ + update_sql(self@),
            r.1@ == bound(values@, update_bind_positions(self@)),
    {
        proof {
            use_type_invariant(self);
            lemma_selected_in_range(self@, "noupdate"@, false);
            lemma_selected_in_range(self@, "key"@, true);
            assert forall|i: int| 0 <= i < self.update_pos@.len() implies #[trigger] self.update_pos@[i] < values@.len() by {
                assert(ints(self.update_pos@)[i] == self.update_pos@[i] as int);
                let m = update_positions(self@).len() as int;
                assert(ints(self.update_pos@).len() == self.update_pos@.len());
                assert(update_bind_positions(self@).len() == m + key_positions(self@).len());
                if i < m {
                    assert(update_bind_positions(self@)[i] == update_positions(self@)[i]);
                } else {
                    assert(update_bind_positions(self@)[i] == key_positions(self@)[i - m]);
                }
            }
        }
        (self.update.render(table), Self::bind(values, &self.update_pos))
    }

    /// The DELETE statement for table `table` and the values bound to it:
    /// those of the key fields.
    pub fn delete_query(&self, table: &str, values: &Vec<SqlValue>) -> (r: (String, Vec<SqlValue>))
        requires
            values@.len() == self@.len(),
        ensures
            r.0@ == "DELETE FROM "@ + table@ + delete_sql(self@),
            r.1@ == bound(values@, key_positions(self@)),
    {
        proof {
            use_type_invariant(self);
            self.lemma_positions(self.key_pos@, "key"@, true);
        }
        (self.delete.render(table), Self::bind(values, &self.key_pos))
    }
}


/// `e` is the error that names the first field of `fields` that `row`
/// cannot give a value.
pub open spec fn decode_error(fields: Seq<EntityFieldDefinition>, row: Seq<Column>, e: Error) -> bool {
    exists|i: int| first_failure(fields, row, i) && #[trigger] e.is_decode_of(fields[i].name@)
}

/// Looking a name up finds the first column that has it.
proof fn lemma_lookup_first(cols: Seq<Column>, name: Seq<char>, k: int)
    requires
        0 <= k < cols.len(),
        cols[k].name@ == name,
        forall|j: int| 0 <= j < k ==> cols[j].name@ != name,
    ensures
        lookup(cols, name) == Some(cols[k].value),
    decreases k,
{
    if k > 0 {
        assert(cols[0].name@ != name);
        assert forall|j: int| 0 <= j < k - 1 implies cols.drop_first()[j].name@ != name by {
            assert(cols.drop_first()[j] == cols[j + 1]);
        }
        lemma_lookup_first(cols.drop_first(), name, k - 1);
    }
}

/// Round trip: a row that holds a record's values under its field names, in
/// declaration order, decodes to exactly those values; so the values bound
/// again for INSERT, UPDATE and DELETE are the record's own.
pub proof fn lemma_decode_round_trip(fields: Seq<EntityFieldDefinition>, values: Seq<SqlValue>, row: Seq<Column>)
    requires
        distinct_names(fields),
        is_record(fields, values),
        row.len() == fields.len(),
        forall|i: int| 0 <= i < row.len() ==> (#[trigger] row[i]).name@ == fields[i].name@ && row[i].value == values[i],
    ensures
        decodes(fields, row),
        decoded(fields, row) == values,
        bound(decoded(fields, row), insert_positions(fields)) == bound(values, insert_positions(fields)),
        bound(decoded(fields, row), update_bind_positions(fields)) == bound(values, update_bind_positions(fields)),
        bound(decoded(fields, row), key_positions(fields)) == bound(values, key_positions(fields)),
{
    assert forall|i: int| 0 <= i < fields.len() implies #[trigger] field_value(fields[i], row) == Some(values[i]) by {
        assert(row[i].name@ == fields[i].name@);
        assert forall|j: int| 0 <= j < i implies row[j].name@ != fields[i].name@ by {
            assert(row[j].name@ == fields[j].name@);
        }
        lemma_lookup_first(row, fields[i].name@, i);
        assert(fits(values[i], fields[i].kind, fields[i].optional));
    }
    assert(decoded(fields, row) =~= values);
}

/// A record type that can be stored in a table.
pub trait Entity: Sized {
    /// The model built from the type's field declarations.
    fn model() -> EntityModel;

    /// The value of the field at `index`, counting in declaration order.
    fn value_at(&self, index: usize) -> SqlValue;

    /// The record with the given field values, in declaration order.
    fn from_values(values: Vec<SqlValue>) -> Self;
}

/// The values of `obj`'s fields, in declaration order, as `T::value_at`
/// gives them; one per field of `model`, so they can be bound by the
/// builder's write queries.
pub fn values_of<T: Entity>(model: &EntityModel, obj: &T) -> (r: Vec<SqlValue>)
    ensures
        r@.len() == model@.len(),
{
    let n = model.len();
    let mut r: Vec<SqlValue> = Vec::new();
    let mut i: usize = 0;
    while i < n
        invariant
            i <= n,
            n == model@.len(),
            r@.len() == i,
        decreases n - i,
    {
        r.push(obj.value_at(i));
        i = i + 1;
    }
    r
}

} // verus!
