//! Field classification and the SQL templates derived from it.
use vstd::prelude::*;
use crate::strings::{
    comma, comma_join, contains, join, placeholder, placeholder_string, str_contains, texts,
};
use crate::value::EntityFieldDefinition;

verus! {

/// Field `f` carries a marker whose name contains `tag`.
pub open spec fn marked(f: EntityFieldDefinition, tag: Seq<char>) -> bool {
    exists|j: int| 0 <= j < f.markers@.len() && contains(#[trigger] f.markers@[j]@, tag)
}

/// The positions, in declaration order, of the fields whose `tag` marking is
/// `present`.
pub open spec fn selected(fields: Seq<EntityFieldDefinition>, tag: Seq<char>, present: bool) -> Seq<int>
    decreases fields.len(),
{
    if fields.len() == 0 {
        Seq::empty()
    } else {
        let rest = selected(fields.drop_last(), tag, present);
        if marked(fields.last(), tag) == present {
            rest.push(fields.len() - 1)
        } else {
            rest
        }
    }
}

/// Positions of the key fields: those with a marker containing "key".
pub open spec fn key_positions(fields: Seq<EntityFieldDefinition>) -> Seq<int> {
    selected(fields, "key"@, true)
}

/// Positions of the insertable fields: those without a marker containing "noinsert".
pub open spec fn insert_positions(fields: Seq<EntityFieldDefinition>) -> Seq<int> {
    selected(fields, "noinsert"@, false)
}

/// Positions of the updatable fields: those without a marker containing "noupdate".
pub open spec fn update_positions(fields: Seq<EntityFieldDefinition>) -> Seq<int> {
    selected(fields, "noupdate"@, false)
}

/// The names of all fields, in declaration order.
pub open spec fn names(fields: Seq<EntityFieldDefinition>) -> Seq<Seq<char>> {
    fields.map_values(|f: EntityFieldDefinition| f.name@)
}

/// The names of the fields at `pos`, in that order.
pub open spec fn names_at(fields: Seq<EntityFieldDefinition>, pos: Seq<int>) -> Seq<Seq<char>> {
    pos.map_values(|p: int| fields[p].name@)
}

/// The integers of a vector of positions.
pub open spec fn ints(v: Seq<usize>) -> Seq<int> {
    v.map_values(|p: usize| p as int)
}

/// The placeholders `$(offset + 1)` to `$(offset + len)`, in order.
pub open spec fn placeholders(len: nat, offset: nat) -> Seq<Seq<char>> {
    Seq::new(len, |i: int| placeholder((offset + i + 1) as nat))
}

/// The placeholders `$(offset + 1), ..., $(offset + len)`.
pub open spec fn args_list(len: nat, offset: nat) -> Seq<char> {
    join(placeholders(len, offset), comma())
}

/// `(k1, k2, ...) = ($(offset + 1), $(offset + 2), ...)`.
pub open spec fn key_constraint(keys: Seq<Seq<char>>, offset: nat) -> Seq<char> {
    "("@ + join(keys, comma()) + ") = ("@ + args_list(keys.len(), offset) + ")"@
}

/// The four ordered name lists that a record's field declarations give.
pub struct EntityCodeGenData {
    pub key_fields: Vec<String>,
    pub insert_fields: Vec<String>,
    pub update_fields: Vec<String>,
    pub query_fields: Vec<String>,
}

/// `data` holds exactly the classification of `fields`.
pub open spec fn classifies(data: EntityCodeGenData, fields: Seq<EntityFieldDefinition>) -> bool {
    &&& texts(data.key_fields@) == names_at(fields, key_positions(fields))
    &&& texts(data.insert_fields@) == names_at(fields, insert_positions(fields))
    &&& texts(data.update_fields@) == names_at(fields, update_positions(fields))
    &&& texts(data.query_fields@) == names(fields)
}

/// Every selected position is the position of a field.
pub proof fn lemma_selected_in_range(fields: Seq<EntityFieldDefinition>, tag: Seq<char>, present: bool)
    ensures
        selected(fields, tag, present).len() <= fields.len(),
        forall|i: int| 0 <= i < selected(fields, tag, present).len()
            ==> 0 <= #[trigger] selected(fields, tag, present)[i] < fields.len(),
    decreases fields.len(),
{
    if fields.len() > 0 {
        lemma_selected_in_range(fields.drop_last(), tag, present);
    }
}

/// A field's position is selected exactly when its marking is the one asked for.
pub proof fn lemma_selected_contains(fields: Seq<EntityFieldDefinition>, tag: Seq<char>, present: bool, i: int)
    requires
        0 <= i < fields.len(),
    ensures
        selected(fields, tag, present).contains(i) <==> (marked(fields[i], tag) == present),
    decreases fields.len(),
{
    let rest = selected(fields.drop_last(), tag, present);
    lemma_selected_in_range(fields.drop_last(), tag, present);
    if i < fields.len() - 1 {
        lemma_selected_contains(fields.drop_last(), tag, present, i);
        assert(fields.drop_last()[i] == fields[i]);
        if marked(fields.last(), tag) == present {
            assert(rest.push(fields.len() - 1).contains(i) <==> rest.contains(i)) by {
                if rest.push(fields.len() - 1).contains(i) {
                    let k = choose|k: int| 0 <= k < rest.len() + 1 && #[trigger] rest.push(fields.len() - 1)[k] == i;
                    assert(k < rest.len());
                    assert(rest[k] == i);
                }
                if rest.contains(i) {
                    let k = choose|k: int| 0 <= k < rest.len() && #[trigger] rest[k] == i;
                    assert(rest.push(fields.len() - 1)[k] == i);
                }
            }
        }
    } else {
        if marked(fields.last(), tag) == present {
            assert(rest.push(fields.len() - 1)[rest.len() as int] == i);
        } else {
            assert(!rest.contains(i)) by {
                if rest.contains(i) {
                    let k = choose|k: int| 0 <= k < rest.len() && #[trigger] rest[k] == i;
                    assert(rest[k] < fields.drop_last().len());
                }
            }
        }
    }
}

/// With distinct field names, a field's name is among the names at `pos`
/// exactly when its position is in `pos`.
pub proof fn lemma_name_at(fields: Seq<EntityFieldDefinition>, pos: Seq<int>, i: int)
    requires
        0 <= i < fields.len(),
        forall|a: int, b: int| 0 <= a < b < fields.len() ==> fields[a].name@ != fields[b].name@,
        forall|k: int| 0 <= k < pos.len() ==> 0 <= #[trigger] pos[k] < fields.len(),
    ensures
        names_at(fields, pos).contains(fields[i].name@) <==> pos.contains(i),
{
    if names_at(fields, pos).contains(fields[i].name@) {
        let k = choose|k: int| 0 <= k < names_at(fields, pos).len() && #[trigger] names_at(fields, pos)[k] == fields[i].name@;
        assert(fields[pos[k]].name@ == fields[i].name@);
        assert(pos[k] == i);
    }
    if pos.contains(i) {
        let k = choose|k: int| 0 <= k < pos.len() && #[trigger] pos[k] == i;
        assert(names_at(fields, pos)[k] == fields[i].name@);
    }
}

/// Which lists a field lands in. A field with a marker containing "key" is a
/// key field; one with a marker containing "noinsert" is not inserted; one
/// with a marker containing "noupdate" is not updated; a field with no markers
/// is inserted and updated and is no key. Every field is queried. Stated for
/// positions, and for names where the names are distinct.
pub proof fn lemma_classification_membership(fields: Seq<EntityFieldDefinition>, i: int)
    requires
        0 <= i < fields.len(),
    ensures
        key_positions(fields).contains(i) <==> marked(fields[i], "key"@),
        insert_positions(fields).contains(i) <==> !marked(fields[i], "noinsert"@),
        update_positions(fields).contains(i) <==> !marked(fields[i], "noupdate"@),
        fields[i].markers@.len() == 0 ==> {
            &&& !key_positions(fields).contains(i)
            &&& insert_positions(fields).contains(i)
            &&& update_positions(fields).contains(i)
        },
        names(fields).contains(fields[i].name@),
        (forall|a: int, b: int| 0 <= a < b < fields.len() ==> fields[a].name@ != fields[b].name@) ==> {
            &&& names_at(fields, key_positions(fields)).contains(fields[i].name@) <==> marked(fields[i], "key"@)
            &&& names_at(fields, insert_positions(fields)).contains(fields[i].name@) <==> !marked(fields[i], "noinsert"@)
            &&& names_at(fields, update_positions(fields)).contains(fields[i].name@) <==> !marked(fields[i], "noupdate"@)
        },
{
    lemma_selected_contains(fields, "key"@, true, i);
    lemma_selected_contains(fields, "noinsert"@, false, i);
    lemma_selected_contains(fields, "noupdate"@, false, i);
    assert(names(fields)[i] == fields[i].name@);
    if forall|a: int, b: int| 0 <= a < b < fields.len() ==> fields[a].name@ != fields[b].name@ {
        lemma_selected_in_range(fields, "key"@, true);
        lemma_selected_in_range(fields, "noinsert"@, false);
        lemma_selected_in_range(fields, "noupdate"@, false);
        lemma_name_at(fields, key_positions(fields), i);
        lemma_name_at(fields, insert_positions(fields), i);
        lemma_name_at(fields, update_positions(fields), i);
    }
}

/// The placeholders of the templates: the INSERT has one per insertable
/// column, `$1` to `$N`; the UPDATE has one per updatable column, `$1` to
/// `$M`, then one per key column, `$(M + 1)` to `$(M + K)`.
pub proof fn lemma_template_placeholders(ins: Seq<Seq<char>>, upd: Seq<Seq<char>>, keys: Seq<Seq<char>>, query: Seq<Seq<char>>)
    ensures
        insert_after(ins, query) == "("@ + join(ins, comma()) + ") VALUES ("@
            + join(placeholders(ins.len(), 0), comma()) + ") RETURNING "@ + join(query, comma()) + ";"@,
        update_after(upd, keys, query) == " SET ("@ + join(upd, comma()) + ") = ("@
            + join(placeholders(upd.len(), 0), comma()) + ") WHERE ("@ + join(keys, comma()) + ") = ("@
            + join(placeholders(keys.len(), upd.len()), comma()) + ")"@ + " RETURNING "@
            + join(query, comma()) + ";"@,
        placeholders(ins.len(), 0).len() == ins.len(),
        placeholders(upd.len(), 0).len() == upd.len(),
        placeholders(keys.len(), upd.len()).len() == keys.len(),
        forall|k: int| 0 <= k < ins.len() ==> #[trigger] placeholders(ins.len(), 0)[k] == placeholder((k + 1) as nat),
        forall|k: int| 0 <= k < upd.len() ==> #[trigger] placeholders(upd.len(), 0)[k] == placeholder((k + 1) as nat),
        forall|k: int| 0 <= k < keys.len()
            ==> #[trigger] placeholders(keys.len(), upd.len())[k] == placeholder((upd.len() + k + 1) as nat),
{
    let a = " SET ("@ + join(upd, comma()) + ") = ("@ + join(placeholders(upd.len(), 0), comma()) + ") WHERE "@;
    let kc = "("@ + join(keys, comma()) + ") = ("@ + join(placeholders(keys.len(), upd.len()), comma()) + ")"@;
    let tail = " RETURNING "@ + join(query, comma()) + ";"@;
    assert(update_after(upd, keys, query) =~= a + kc + tail);
    assert(a + kc + tail =~= " SET ("@ + join(upd, comma()) + ") = ("@
            + join(placeholders(upd.len(), 0), comma()) + ") WHERE ("@ + join(keys, comma()) + ") = ("@
            + join(placeholders(keys.len(), upd.len()), comma()) + ")"@ + " RETURNING "@
            + join(query, comma()) + ";"@) by {
        reveal_strlit(") WHERE ");
        reveal_strlit(") WHERE (");
        reveal_strlit("(");
    }
}

/// Whether field `f` carries a marker whose name contains `tag`.
fn has_marker(f: &EntityFieldDefinition, tag: &str) -> (r: bool)
    ensures
        r == marked(*f, tag@),
{
    let mut j: usize = 0;
    while j < f.markers.len()
        invariant
            j <= f.markers@.len(),
            forall|k: int| 0 <= k < j ==> !contains(#[trigger] f.markers@[k]@, tag@),
        decreases f.markers@.len() - j,
    {
        if str_contains(f.markers[j].as_str(), tag) {
            return true;
        }
        j = j + 1;
    }
    false
}

/// The positions of the fields whose `tag` marking is `present`.
pub fn select_positions(fields: &[EntityFieldDefinition], tag: &str, present: bool) -> (r: Vec<usize>)
    ensures
        ints(r@) == selected(fields@, tag@, present),
{
    let mut r: Vec<usize> = Vec::new();
    let mut i: usize = 0;
    while i < fields.len()
        invariant
            i <= fields@.len(),
            ints(r@) == selected(fields@.subrange(0, i as int), tag@, present),
        decreases fields@.len() - i,
    {
        let ghost before = r@;
        proof {
            let pre = fields@.subrange(0, i as int + 1);
            assert(pre.drop_last() =~= fields@.subrange(0, i as int));
            assert(pre.last() == fields@[i as int]);
        }
        if has_marker(&fields[i], tag) == present {
            r.push(i);
            assert(ints(r@) =~= ints(before).push(i as int));
        }
        i = i + 1;
    }
    assert(fields@.subrange(0, i as int) =~= fields@);
    r
}

/// The names of the fields at `pos`, in that order.
pub fn names_of(fields: &[EntityFieldDefinition], pos: &Vec<usize>) -> (r: Vec<String>)
    requires
        forall|i: int| 0 <= i < pos@.len() ==> #[trigger] pos@[i] < fields@.len(),
    ensures
        texts(r@) == names_at(fields@, ints(pos@)),
{
    let mut r: Vec<String> = Vec::new();
    let mut i: usize = 0;
    while i < pos.len()
        invariant
            i <= pos@.len(),
            forall|k: int| 0 <= k < pos@.len() ==> #[trigger] pos@[k] < fields@.len(),
            texts(r@) == names_at(fields@, ints(pos@.subrange(0, i as int))),
        decreases pos@.len() - i,
    {
        let p = pos[i];
        let ghost before = r@;
        r.push(fields[p].name.clone());
        proof {
            assert(r@ == before.push(fields@[p as int].name));
            assert(texts(r@) =~= texts(before).push(fields@[p as int].name@));
            assert(ints(pos@.subrange(0, i + 1)) =~= ints(pos@.subrange(0, i as int)).push(p as int));
        }
        i = i + 1;
        assert(texts(r@) =~= names_at(fields@, ints(pos@.subrange(0, i as int))));
    }
    assert(pos@.subrange(0, i as int) =~= pos@);
    r
}

/// Classifies `fields`: every field is queried; a field is a key if one of
/// its markers contains "key", insertable unless one contains "noinsert",
/// updatable unless one contains "noupdate". Each list keeps declaration order.
pub fn get_codegen_data(fields: &[EntityFieldDefinition]) -> (r: EntityCodeGenData)
    ensures
        classifies(r, fields@),
        r.query_fields@.len() == fields@.len(),
{
    let key_pos = select_positions(fields, "key", true);
    let insert_pos = select_positions(fields, "noinsert", false);
    let update_pos = select_positions(fields, "noupdate", false);
    proof {
        lemma_selected_in_range(fields@, "key"@, true);
        lemma_selected_in_range(fields@, "noinsert"@, false);
        lemma_selected_in_range(fields@, "noupdate"@, false);
    }
    assert forall|i: int| 0 <= i < key_pos@.len() implies #[trigger] key_pos@[i] < fields@.len() by {
        assert(ints(key_pos@)[i] == key_pos@[i] as int);
    }
    assert forall|i: int| 0 <= i < insert_pos@.len() implies #[trigger] insert_pos@[i] < fields@.len() by {
        assert(ints(insert_pos@)[i] == insert_pos@[i] as int);
    }
    assert forall|i: int| 0 <= i < update_pos@.len() implies #[trigger] update_pos@[i] < fields@.len() by {
        assert(ints(update_pos@)[i] == update_pos@[i] as int);
    }
    let mut query_fields: Vec<String> = Vec::new();
    let mut i: usize = 0;
    while i < fields.len()
        invariant
            i <= fields@.len(),
            texts(query_fields@) == names(fields@.subrange(0, i as int)),
        decreases fields@.len() - i,
    {
        let ghost before = query_fields@;
        query_fields.push(fields[i].name.clone());
        proof {
            assert(texts(query_fields@) =~= texts(before).push(fields@[i as int].name@));
            assert(fields@.subrange(0, i + 1) =~= fields@.subrange(0, i as int).push(fields@[i as int]));
        }
        i = i + 1;
        assert(texts(query_fields@) =~= names(fields@.subrange(0, i as int)));
    }
    assert(fields@.subrange(0, i as int) =~= fields@);
    EntityCodeGenData {
        key_fields: names_of(fields, &key_pos),
        insert_fields: names_of(fields, &insert_pos),
        update_fields: names_of(fields, &update_pos),
        query_fields,
    }
}

/// Writes `$(offset + 1), ..., $(offset + len)`.
pub fn generate_args_list(len: usize, offset: usize) -> (r: String)
    requires
        len + offset <= usize::MAX,
    ensures
        r@ == args_list(len as nat, offset as nat),
{
    let mut items: Vec<String> = Vec::new();
    let mut i: usize = 0;
    while i < len
        invariant
            i <= len,
            len + offset <= usize::MAX,
            texts(items@) == placeholders(i as nat, offset as nat),
        decreases len - i,
    {
        let ghost before = items@;
        let p = placeholder_string(offset + i + 1);
        items.push(p);
        assert(texts(items@) =~= texts(before).push(p@));
        i = i + 1;
        assert(texts(items@) =~= placeholders(i as nat, offset as nat));
    }
    comma_join(items.as_slice())
}

/// Writes `(k1, k2, ...) = ($(parm_offset + 1), $(parm_offset + 2), ...)`.
pub fn generate_key_constraint(keys: &[String], parm_offset: usize) -> (r: String)
    requires
        keys@.len() + parm_offset <= usize::MAX,
    ensures
        r@ == key_constraint(texts(keys@), parm_offset as nat),
{
    let mut r = String::from_str("(");
    let names = comma_join(keys);
    r.append(names.as_str());
    r.append(") = (");
    let args = generate_args_list(keys.len(), parm_offset);
    r.append(args.as_str());
    r.append(")");
    r
}

/// The INSERT text after the table name.
pub open spec fn insert_after(ins: Seq<Seq<char>>, query: Seq<Seq<char>>) -> Seq<char> {
    "("@ + join(ins, comma()) + ") VALUES ("@ + args_list(ins.len(), 0) + ") RETURNING "@
        + join(query, comma()) + ";"@
}

/// The UPDATE text after the table name: the updated columns take the first
/// placeholders, the key columns the ones after them.
pub open spec fn update_after(upd: Seq<Seq<char>>, keys: Seq<Seq<char>>, query: Seq<Seq<char>>) -> Seq<char> {
    " SET ("@ + join(upd, comma()) + ") = ("@ + args_list(upd.len(), 0) + ") WHERE "@
        + key_constraint(keys, upd.len()) + " RETURNING "@ + join(query, comma()) + ";"@
}

/// The DELETE text after the table name.
pub open spec fn delete_after(keys: Seq<Seq<char>>) -> Seq<char> {
    " WHERE "@ + key_constraint(keys, 0) + ";"@
}

/// SQL text with one deferred table name: `before`, the table, `after`.
pub struct SqlTemplate {
    pub before: String,
    pub after: String,
}

impl SqlTemplate {
    /// The statement for table `table`.
    pub fn render(&self, table: &str) -> (r: String)
        ensures
            r@ == self.before@ + table@ + self.after@,
    {
        let mut r = self.before.clone();
        r.append(table);
        r.append(self.after.as_str());
        r
    }

    /// The template written with `{}` where the table name goes.
    pub fn text(&self) -> (r: String)
        ensures
            r@ == self.before@ + "{}"@ + self.after@,
    {
        self.render("{}")
    }
}

/// The INSERT template: insertable columns, one placeholder each, returning
/// every queried column.
pub fn insert_template(data: &EntityCodeGenData) -> (r: SqlTemplate)
    ensures
        r.before@ == "INSERT INTO "@,
        r.after@ == insert_after(texts(data.insert_fields@), texts(data.query_fields@)),
{
    let mut after = String::from_str("(");
    after.append(comma_join(data.insert_fields.as_slice()).as_str());
    after.append(") VALUES (");
    after.append(generate_args_list(data.insert_fields.len(), 0).as_str());
    after.append(") RETURNING ");
    after.append(comma_join(data.query_fields.as_slice()).as_str());
    after.append(";");
    SqlTemplate { before: String::from_str("INSERT INTO "), after }
}

/// The UPDATE template: updatable columns set from the first placeholders,
/// rows chosen by the key columns bound to the placeholders after them.
pub fn update_template(data: &EntityCodeGenData) -> (r: SqlTemplate)
    requires
        data.update_fields@.len() + data.key_fields@.len() <= usize::MAX,
    ensures
        r.before@ == "UPDATE "@,
        r.after@ == update_after(
            texts(data.update_fields@),
            texts(data.key_fields@),
            texts(data.query_fields@),
        ),
{
    let m = data.update_fields.len();
    let mut after = String::from_str(" SET (");
    after.append(comma_join(data.update_fields.as_slice()).as_str());
    after.append(") = (");
    after.append(generate_args_list(m, 0).as_str());
    after.append(") WHERE ");
    after.append(generate_key_constraint(data.key_fields.as_slice(), m).as_str());
    after.append(" RETURNING ");
    after.append(comma_join(data.query_fields.as_slice()).as_str());
    after.append(";");
    SqlTemplate { before: String::from_str("UPDATE "), after }
}

/// The DELETE template: rows chosen by the key columns.
pub fn delete_template(data: &EntityCodeGenData) -> (r: SqlTemplate)
    ensures
        r.before@ == "DELETE FROM "@,
        r.after@ == delete_after(texts(data.key_fields@)),
{
    let keys = data.key_fields.as_slice();
    assert(keys@.len() == keys.len());
    let mut after = String::from_str(" WHERE ");
    after.append(generate_key_constraint(keys, 0).as_str());
    after.append(";");
    SqlTemplate { before: String::from_str("DELETE FROM "), after }
}

} // verus!
