//! The schemas of the replicated tables as the stream announced them, and
//! what changed between one announcement and the next.

use std::collections::HashMap;
use vstd::prelude::*;
use crate::message::{columns_view, CdcMessage, Column, ColumnView};
use crate::model::{ColumnDef, ColumnDefView, DataType};
use crate::types::{column_to_def, pg_type_to_data_type, spec_column_def, spec_pg_type_to_data_type};

verus! {

broadcast use vstd::std_specs::hash::group_hash_axioms;

/// What the cache knows of one table.
#[derive(Clone, Debug, PartialEq)]
pub struct SchemaCacheEntry {
    pub table_id: u32,
    pub namespace: String,
    pub name: String,
    pub columns: Vec<Column>,
}

/// What a [`SchemaCacheEntry`] holds, as mathematical data.
pub struct EntryView {
    pub table_id: u32,
    pub namespace: Seq<char>,
    pub name: Seq<char>,
    pub columns: Seq<ColumnView>,
}

impl View for SchemaCacheEntry {
    type V = EntryView;

    open spec fn view(&self) -> EntryView {
        EntryView {
            table_id: self.table_id,
            namespace: self.namespace@,
            name: self.name@,
            columns: columns_view(self.columns@),
        }
    }
}

/// A change of a column's type: the column's name, its type before and its
/// type after.
pub type ColumnChange = (String, DataType, DataType);

/// The difference between two schemas of a table.
#[derive(Clone, Debug, PartialEq)]
pub struct SchemaDelta {
    pub table_name: String,
    pub added_columns: Vec<ColumnDef>,
    pub dropped_columns: Vec<String>,
    pub changed_columns: Vec<ColumnChange>,
}

/// What a [`SchemaDelta`] holds, as mathematical data.
pub struct SchemaDeltaView {
    pub table_name: Seq<char>,
    pub added_columns: Seq<ColumnDefView>,
    pub dropped_columns: Seq<Seq<char>>,
    pub changed_columns: Seq<(Seq<char>, DataType, DataType)>,
}

impl SchemaDeltaView {
    /// Whether the delta reports no change at all.
    pub open spec fn is_empty(self) -> bool {
        &&& self.added_columns.len() == 0
        &&& self.dropped_columns.len() == 0
        &&& self.changed_columns.len() == 0
    }
}

impl View for SchemaDelta {
    type V = SchemaDeltaView;

    open spec fn view(&self) -> SchemaDeltaView {
        SchemaDeltaView {
            table_name: self.table_name@,
            added_columns: self.added_columns@.map_values(|d: ColumnDef| d@),
            dropped_columns: self.dropped_columns@.map_values(|s: String| s@),
            changed_columns: self.changed_columns@.map_values(
                |c: ColumnChange| (c.0@, c.1, c.2),
            ),
        }
    }
}

/// Whether one of `columns` is named `name`.
pub open spec fn has_column(columns: Seq<ColumnView>, name: Seq<char>) -> bool {
    exists|i: int| 0 <= i < columns.len() && (#[trigger] columns[i]).name == name
}

/// Whether one of `columns` has the name and the type of `column`: the
/// same type identifier and the same type modifier.
pub open spec fn has_same_column(columns: Seq<ColumnView>, column: ColumnView) -> bool {
    exists|i: int|
        0 <= i < columns.len() && (#[trigger] columns[i]).name == column.name
            && columns[i].type_id == column.type_id && columns[i].type_mod == column.type_mod
}

/// The index of the first of `columns` that is named `name`; their number
/// where none is.
pub open spec fn first_named(columns: Seq<ColumnView>, name: Seq<char>) -> int
    decreases columns.len(),
{
    if columns.len() == 0 || columns[0].name == name {
        0
    } else {
        1 + first_named(columns.skip(1), name)
    }
}

/// The logical type of a column.
pub open spec fn column_type(column: ColumnView) -> DataType {
    spec_pg_type_to_data_type(column.type_id, column.type_mod)
}

/// The columns of `new` whose names `old` does not have, as definitions,
/// in the order of `new`.
pub open spec fn added_columns(old: Seq<ColumnView>, new: Seq<ColumnView>) -> Seq<ColumnDefView>
    decreases new.len(),
{
    if new.len() == 0 {
        Seq::empty()
    } else if has_column(old, new.last().name) {
        added_columns(old, new.drop_last())
    } else {
        added_columns(old, new.drop_last()).push(spec_column_def(new.last()))
    }
}

/// The names of the columns of `old` that `new` does not have, in the
/// order of `old`.
pub open spec fn dropped_columns(old: Seq<ColumnView>, new: Seq<ColumnView>) -> Seq<Seq<char>>
    decreases old.len(),
{
    if old.len() == 0 {
        Seq::empty()
    } else if has_column(new, old.last().name) {
        dropped_columns(old.drop_last(), new)
    } else {
        dropped_columns(old.drop_last(), new).push(old.last().name)
    }
}

/// The columns of `new` that `old` has by name but not with the same type,
/// in the order of `new`: each with the type that the first column of that
/// name had in `old`, and with its type in `new`.
pub open spec fn changed_columns(old: Seq<ColumnView>, new: Seq<ColumnView>) -> Seq<
    (Seq<char>, DataType, DataType),
>
    decreases new.len(),
{
    if new.len() == 0 {
        Seq::empty()
    } else {
        let column = new.last();
        if has_column(old, column.name) && !has_same_column(old, column) {
            changed_columns(old, new.drop_last()).push(
                (
                    column.name,
                    column_type(old[first_named(old, column.name)]),
                    column_type(column),
                ),
            )
        } else {
            changed_columns(old, new.drop_last())
        }
    }
}

/// The difference between the schema `old` of a table and its schema
/// `new`.
pub open spec fn schema_delta(old: EntryView, new: EntryView) -> SchemaDeltaView {
    SchemaDeltaView {
        table_name: new.name,
        added_columns: added_columns(old.columns, new.columns),
        dropped_columns: dropped_columns(old.columns, new.columns),
        changed_columns: changed_columns(old.columns, new.columns),
    }
}

/// The schema that a message announces, if it is a Relation message.
pub open spec fn announced_schema(msg: CdcMessage) -> Option<EntryView> {
    match msg {
        CdcMessage::Relation { table_id, namespace, name, columns } => Some(
            EntryView {
                table_id,
                namespace: namespace@,
                name: name@,
                columns: columns_view(columns@),
            },
        ),
        _ => None,
    }
}

/// What a message does to the cache, and the delta that it gives rise to.
///
/// Only a Relation message counts. The first schema of a table is stored
/// and is no delta. A later one is compared with what is stored: where
/// nothing differs the cache stays as it is, and there is no delta; else
/// the new schema takes the place of the old, and the delta is reported.
pub open spec fn spec_update(cache: Map<u32, EntryView>, msg: CdcMessage) -> (
    Map<u32, EntryView>,
    Option<SchemaDeltaView>,
) {
    match announced_schema(msg) {
        None => (cache, None),
        Some(new) => if !cache.contains_key(new.table_id) {
            (cache.insert(new.table_id, new), None)
        } else {
            let delta = schema_delta(cache[new.table_id], new);
            if delta.is_empty() {
                (cache, None)
            } else {
                (cache.insert(new.table_id, new), Some(delta))
            }
        },
    }
}

proof fn lemma_first_named(columns: Seq<ColumnView>, name: Seq<char>, j: int)
    requires
        0 <= j <= columns.len(),
        forall|k: int| 0 <= k < j ==> (#[trigger] columns[k]).name != name,
        j < columns.len() ==> columns[j].name == name,
    ensures
        first_named(columns, name) == j,
    decreases columns.len(),
{
    if j > 0 {
        let rest = columns.skip(1);
        assert forall|k: int| 0 <= k < j - 1 implies (#[trigger] rest[k]).name != name by {
            assert(rest[k] == columns[k + 1]);
        }
        lemma_first_named(rest, name, j - 1);
    }
}

/// The index of the first column named `name`, if there is one.
fn find_named(columns: &Vec<Column>, name: &String) -> (r: Option<usize>)
    ensures
        match r {
            Some(j) => j < columns@.len() && columns@[j as int].name@ == name@ && j == first_named(
                columns_view(columns@),
                name@,
            ) && has_column(columns_view(columns@), name@),
            None => !has_column(columns_view(columns@), name@),
        },
{
    let ghost views = columns_view(columns@);
    let mut j: usize = 0;
    while j < columns.len()
        invariant
            j <= columns@.len(),
            views == columns_view(columns@),
            forall|k: int| 0 <= k < j ==> (#[trigger] views[k]).name != name@,
        decreases columns@.len() - j,
    {
        if columns[j].name == *name {
            proof {
                assert(views[j as int].name == name@);
                lemma_first_named(views, name@, j as int);
            }
            return Some(j);
        }
        j += 1;
    }
    None
}

/// Whether one of `columns` has the name and type of `column`.
fn contains_same(columns: &Vec<Column>, column: &Column) -> (r: bool)
    ensures
        r == has_same_column(columns_view(columns@), column@),
{
    let ghost views = columns_view(columns@);
    let mut j: usize = 0;
    while j < columns.len()
        invariant
            j <= columns@.len(),
            views == columns_view(columns@),
            forall|k: int|
                0 <= k < j ==> !((#[trigger] views[k]).name == column@.name && views[k].type_id
                    == column@.type_id && views[k].type_mod == column@.type_mod),
        decreases columns@.len() - j,
    {
        if columns[j].name == column.name && columns[j].type_id == column.type_id
            && columns[j].type_mod == column.type_mod {
            assert(views[j as int].name == column@.name);
            return true;
        }
        j += 1;
    }
    false
}

fn compute_added(old: &Vec<Column>, new: &Vec<Column>) -> (r: Vec<ColumnDef>)
    ensures
        r@.map_values(|d: ColumnDef| d@) == added_columns(
            columns_view(old@),
            columns_view(new@),
        ),
{
    let ghost olds = columns_view(old@);
    let ghost news = columns_view(new@);
    let mut out: Vec<ColumnDef> = Vec::new();
    let mut i: usize = 0;
    assert(out@.map_values(|d: ColumnDef| d@) =~= added_columns(olds, news.take(0)));
    while i < new.len()
        invariant
            i <= new@.len(),
            olds == columns_view(old@),
            news == columns_view(new@),
            out@.map_values(|d: ColumnDef| d@) == added_columns(olds, news.take(i as int)),
        decreases new@.len() - i,
    {
        proof {
            let longer = news.take(i + 1);
            assert(longer.drop_last() == news.take(i as int));
            assert(longer.last() == new@[i as int]@);
        }
        if find_named(old, &new[i].name).is_none() {
            let ghost before = out@.map_values(|d: ColumnDef| d@);
            let def = column_to_def(&new[i]);
            out.push(def);
            assert(out@.map_values(|d: ColumnDef| d@) =~= before.push(def@));
        }
        i += 1;
    }
    assert(news.take(news.len() as int) == news);
    out
}

fn compute_dropped(old: &Vec<Column>, new: &Vec<Column>) -> (r: Vec<String>)
    ensures
        r@.map_values(|s: String| s@) == dropped_columns(
            columns_view(old@),
            columns_view(new@),
        ),
{
    let ghost olds = columns_view(old@);
    let ghost news = columns_view(new@);
    let mut out: Vec<String> = Vec::new();
    let mut i: usize = 0;
    assert(out@.map_values(|s: String| s@) =~= dropped_columns(olds.take(0), news));
    while i < old.len()
        invariant
            i <= old@.len(),
            olds == columns_view(old@),
            news == columns_view(new@),
            out@.map_values(|s: String| s@) == dropped_columns(olds.take(i as int), news),
        decreases old@.len() - i,
    {
        proof {
            let longer = olds.take(i + 1);
            assert(longer.drop_last() == olds.take(i as int));
            assert(longer.last() == old@[i as int]@);
        }
        if find_named(new, &old[i].name).is_none() {
            let ghost before = out@.map_values(|s: String| s@);
            let name = old[i].name.clone();
            out.push(name);
            assert(out@.map_values(|s: String| s@) =~= before.push(name@));
        }
        i += 1;
    }
    assert(olds.take(olds.len() as int) == olds);
    out
}

fn compute_changed(old: &Vec<Column>, new: &Vec<Column>) -> (r: Vec<ColumnChange>)
    ensures
        r@.map_values(|c: ColumnChange| (c.0@, c.1, c.2)) == changed_columns(
            columns_view(old@),
            columns_view(new@),
        ),
{
    let ghost olds = columns_view(old@);
    let ghost news = columns_view(new@);
    let mut out: Vec<ColumnChange> = Vec::new();
    let mut i: usize = 0;
    assert(out@.map_values(|c: ColumnChange| (c.0@, c.1, c.2)) =~= changed_columns(
        olds,
        news.take(0),
    ));
    while i < new.len()
        invariant
            i <= new@.len(),
            olds == columns_view(old@),
            news == columns_view(new@),
            out@.map_values(|c: ColumnChange| (c.0@, c.1, c.2)) == changed_columns(
                olds,
                news.take(i as int),
            ),
        decreases new@.len() - i,
    {
        proof {
            let longer = news.take(i + 1);
            assert(longer.drop_last() == news.take(i as int));
            assert(longer.last() == new@[i as int]@);
        }
        match find_named(old, &new[i].name) {
            Some(j) => {
                if !contains_same(old, &new[i]) {
                    let ghost before = out@.map_values(|c: ColumnChange| (c.0@, c.1, c.2));
                    let change: ColumnChange = (
                        new[i].name.clone(),
                        pg_type_to_data_type(old[j].type_id, old[j].type_mod),
                        pg_type_to_data_type(new[i].type_id, new[i].type_mod),
                    );
                    out.push(change);
                    assert(out@.map_values(|c: ColumnChange| (c.0@, c.1, c.2)) =~= before.push(
                        (change.0@, change.1, change.2),
                    ));
                }
            },
            None => {},
        }
        i += 1;
    }
    assert(news.take(news.len() as int) == news);
    out
}

fn clone_columns(columns: &Vec<Column>) -> (r: Vec<Column>)
    ensures
        columns_view(r@) == columns_view(columns@),
{
    let mut out: Vec<Column> = Vec::new();
    let mut i: usize = 0;
    while i < columns.len()
        invariant
            i <= columns@.len(),
            out@.len() == i,
            forall|k: int| 0 <= k < i ==> (#[trigger] out@[k])@ == columns@[k]@,
        decreases columns@.len() - i,
    {
        out.push(
            Column {
                flags: columns[i].flags,
                name: columns[i].name.clone(),
                type_id: columns[i].type_id,
                type_mod: columns[i].type_mod,
            },
        );
        i += 1;
    }
    assert(columns_view(out@) =~= columns_view(columns@));
    out
}

/// The schemas of the tables seen so far, by table identifier.
pub struct SchemaCache {
    entries: HashMap<u32, SchemaCacheEntry>,
}

impl View for SchemaCache {
    type V = Map<u32, EntryView>;

    closed spec fn view(&self) -> Map<u32, EntryView> {
        Map::new(
            |table_id: u32| self.entries@.contains_key(table_id),
            |table_id: u32| EntryView { table_id, ..self.entries@[table_id]@ },
        )
    }
}

impl SchemaCache {
    /// Every entry stands under the identifier of the table that it
    /// describes.
    pub proof fn lemma_keyed_by_table(&self, table_id: u32)
        requires
            self@.contains_key(table_id),
        ensures
            self@[table_id].table_id == table_id,
    {
    }

    /// A cache that knows no table.
    pub fn new() -> (r: SchemaCache)
        ensures
            r@ == Map::<u32, EntryView>::empty(),
    {
        let r = SchemaCache { entries: HashMap::new() };
        assert(r@ =~= Map::<u32, EntryView>::empty());
        r
    }

    /// The columns of the table `table_id`, if the cache knows the table.
    pub fn get(&self, table_id: u32) -> (r: Option<&Vec<Column>>)
        ensures
            match r {
                Some(columns) => self@.contains_key(table_id) && columns_view(columns@)
                    == self@[table_id].columns,
                None => !self@.contains_key(table_id),
            },
    {
        match self.entries.get(&table_id) {
            Some(entry) => Some(&entry.columns),
            None => None,
        }
    }

    /// Takes note of a message and reports the change of schema that it
    /// brings, if any. A delta that is reported is never empty.
    pub fn update(&mut self, msg: &CdcMessage) -> (r: Option<SchemaDelta>)
        ensures
            final(self)@ == spec_update(old(self)@, *msg).0,
            match r {
                Some(delta) => spec_update(old(self)@, *msg).1 == Some(delta@)
                    && !delta@.is_empty(),
                None => spec_update(old(self)@, *msg).1 is None,
            },
    {
        match msg {
            CdcMessage::Relation { table_id, namespace, name, columns } => {
                let ghost new = announced_schema(*msg).unwrap();
                let delta = match self.entries.get(table_id) {
                    Some(known) => {
                        let delta = SchemaDelta {
                            table_name: name.clone(),
                            added_columns: compute_added(&known.columns, columns),
                            dropped_columns: compute_dropped(&known.columns, columns),
                            changed_columns: compute_changed(&known.columns, columns),
                        };
                        assert(delta@ == schema_delta(old(self)@[*table_id], new));
                        if delta.added_columns.len() == 0 && delta.dropped_columns.len() == 0
                            && delta.changed_columns.len() == 0 {
                            return None;
                        }
                        Some(delta)
                    },
                    None => None,
                };
                let entry = SchemaCacheEntry {
                    table_id: *table_id,
                    namespace: namespace.clone(),
                    name: name.clone(),
                    columns: clone_columns(columns),
                };
                assert(entry@ == new);
                self.entries.insert(*table_id, entry);
                assert(self@ =~= old(self)@.insert(*table_id, new));
                delta
            },
            _ => None,
        }
    }
}

/// A table's schema announced again as it stands brings no delta.
pub proof fn lemma_same_schema_no_delta(entry: EntryView)
    ensures
        schema_delta(entry, entry).is_empty(),
{
    lemma_no_delta_within(entry.columns, entry.columns.len() as int);
    assert(entry.columns.take(entry.columns.len() as int) == entry.columns);
}

proof fn lemma_no_delta_within(columns: Seq<ColumnView>, k: int)
    requires
        0 <= k <= columns.len(),
    ensures
        added_columns(columns, columns.take(k)).len() == 0,
        dropped_columns(columns.take(k), columns).len() == 0,
        changed_columns(columns, columns.take(k)).len() == 0,
    decreases k,
{
    if k > 0 {
        lemma_no_delta_within(columns, k - 1);
        let part = columns.take(k);
        assert(part.drop_last() == columns.take(k - 1));
        assert(part.last() == columns[k - 1]);
        assert(has_column(columns, columns[k - 1].name));
        assert(has_same_column(columns, columns[k - 1]));
    }
}

/// The first Relation message for a table stores its schema and brings no
/// delta.
pub proof fn lemma_first_relation_no_delta(cache: Map<u32, EntryView>, msg: CdcMessage)
    requires
        announced_schema(msg) matches Some(new) && !cache.contains_key(new.table_id),
    ensures
        spec_update(cache, msg).1 is None,
        spec_update(cache, msg).0 == cache.insert(
            announced_schema(msg).unwrap().table_id,
            announced_schema(msg).unwrap(),
        ),
{
}

/// A Relation message that repeats the one before it brings no delta and
/// leaves the cache as it is, whatever the cache held before the first of
/// the two.
pub proof fn lemma_repeated_relation_no_delta(cache: Map<u32, EntryView>, msg: CdcMessage)
    requires
        announced_schema(msg) is Some,
    ensures
        spec_update(spec_update(cache, msg).0, msg).1 is None,
        spec_update(spec_update(cache, msg).0, msg).0 == spec_update(cache, msg).0,
{
    let new = announced_schema(msg).unwrap();
    let once = spec_update(cache, msg).0;
    lemma_same_schema_no_delta(new);
    if cache.contains_key(new.table_id) {
        let known = cache[new.table_id];
        if schema_delta(known, new).is_empty() {
            // The cache kept the schema it had, against which `msg` has
            // just been found to bring no change.
            assert(once == cache);
        } else {
            assert(once[new.table_id] == new);
        }
    } else {
        assert(once[new.table_id] == new);
    }
}

/// A Relation message that adds exactly one column to the schema that the
/// cache holds brings a delta with that column as its one addition, and
/// with nothing dropped and nothing changed; and the cache takes the new
/// schema.
pub proof fn lemma_one_column_added(cache: Map<u32, EntryView>, msg: CdcMessage, column: ColumnView)
    requires
        announced_schema(msg) matches Some(new) && cache.contains_key(new.table_id) && new.columns
            == cache[new.table_id].columns.push(column) && !has_column(
            cache[new.table_id].columns,
            column.name,
        ),
    ensures
        spec_update(cache, msg).1 matches Some(delta) && delta.added_columns == seq![
            spec_column_def(column),
        ] && delta.dropped_columns.len() == 0 && delta.changed_columns.len() == 0,
        spec_update(cache, msg).0 == cache.insert(
            announced_schema(msg).unwrap().table_id,
            announced_schema(msg).unwrap(),
        ),
{
    let new = announced_schema(msg).unwrap();
    let olds = cache[new.table_id].columns;
    let news = new.columns;
    assert(news.drop_last() == olds);
    assert(news.last() == column);
    lemma_no_delta_within(olds, olds.len() as int);
    assert(olds.take(olds.len() as int) == olds);
    assert(added_columns(olds, news) =~= seq![spec_column_def(column)]);
    lemma_dropped_none_in_longer(olds, olds.len() as int, column);
}

proof fn lemma_dropped_none_in_longer(columns: Seq<ColumnView>, k: int, extra: ColumnView)
    requires
        0 <= k <= columns.len(),
    ensures
        dropped_columns(columns.take(k), columns.push(extra)).len() == 0,
    decreases k,
{
    if k > 0 {
        lemma_dropped_none_in_longer(columns, k - 1, extra);
        let part = columns.take(k);
        assert(part.drop_last() == columns.take(k - 1));
        assert(columns.push(extra)[k - 1].name == part.last().name);
    }
}

} // verus!
