//! The storage contract that the engine consumes, and an in-memory store
//! that fulfils it.

use vstd::prelude::*;
use vstd::map::*;
use crate::context::same_text;
use crate::data::{Row, ValueView};
use crate::error::SelectError;
use crate::statement::{Column, ColumnView};

verus! {

/// What a store holds of one table: its schema, whether its rows can be read,
/// and its rows, each under its key, in the order in which a scan enumerates
/// them.
pub struct TableModel<K> {
    pub columns: Seq<ColumnView>,
    pub rows: Seq<(K, Seq<ValueView>)>,
    pub readable: bool,
}

/// Whether the table called `name` can be scanned: the store knows it and
/// its rows can be read. A table whose schema is known may still be
/// unreadable.
pub open spec fn can_scan<K>(tables: Map<Seq<char>, TableModel<K>>, name: Seq<char>) -> bool {
    tables.contains_key(name) && tables[name].readable
}

/// Every row has as many values as the schema has columns.
pub open spec fn rows_fit<K>(rows: Seq<(K, Seq<ValueView>)>, columns: Seq<ColumnView>) -> bool {
    forall|i: int| 0 <= i < rows.len() ==> (#[trigger] rows[i]).1.len() == columns.len()
}

impl<K> TableModel<K> {
    /// The rows of the table line up with its schema.
    pub open spec fn well_formed(self) -> bool {
        rows_fit(self.rows, self.columns)
    }
}

/// Every table of a store has rows that line up with its schema.
pub open spec fn tables_well_formed<K>(tables: Map<Seq<char>, TableModel<K>>) -> bool {
    forall|name: Seq<char>| tables.contains_key(name) ==> (#[trigger] tables[name]).well_formed()
}

/// A storage backend, as far as a query needs one: schema lookup by table
/// name, and row scans that are pulled one row at a time.
///
/// `tables` is the content of the store for the time of a query: the tables
/// that it knows, each with its schema, and of each whether its rows can be
/// read. The engine never changes a store.
pub trait Store<K>: Sized {
    /// The state of a scan in progress.
    type Scan;

    /// The tables that the store knows, by name.
    spec fn tables(&self) -> Map<Seq<char>, TableModel<K>>;

    /// The rows that `scan` has yet to hand out.
    spec fn pending(&self, scan: &Self::Scan) -> Seq<(K, Seq<ValueView>)>;

    /// The schema of the table `table_name`.
    fn lookup_columns(&self, table_name: &String) -> (outcome: Result<Vec<Column>, SelectError>)
        ensures
            match outcome {
                Ok(columns) => {
                    &&& self.tables().contains_key(table_name@)
                    &&& columns.deep_view() == self.tables()[table_name@].columns
                },
                Err(e) => {
                    &&& !self.tables().contains_key(table_name@)
                    &&& e == SelectError::StorageUnavailable
                },
            },
    ;

    /// Starts a scan of the table `table_name`; fails where the table is
    /// unknown or its rows cannot be read. A scan enumerates no more rows
    /// than the machine can count.
    fn scan_rows(&self, table_name: &String) -> (outcome: Result<Self::Scan, SelectError>)
        ensures
            match outcome {
                Ok(scan) => {
                    &&& can_scan(self.tables(), table_name@)
                    &&& self.pending(&scan) == self.tables()[table_name@].rows
                    &&& self.pending(&scan).len() <= usize::MAX
                },
                Err(e) => {
                    &&& !can_scan(self.tables(), table_name@)
                    &&& e == SelectError::StorageUnavailable
                },
            },
    ;

    /// Pulls the next row of a scan, or nothing at its end.
    fn next_row(&self, scan: &mut Self::Scan) -> (entry: Option<(K, Row)>)
        ensures
            match entry {
                Some((key, row)) => {
                    &&& self.pending(old(scan)).len() > 0
                    &&& (key, row@) == self.pending(old(scan))[0]
                    &&& self.pending(final(scan)) == self.pending(old(scan)).drop_first()
                },
                None => {
                    &&& self.pending(old(scan)).len() == 0
                    &&& self.pending(final(scan)).len() == 0
                },
            },
    ;
}

/// One table of a [`MemoryStore`]. A table can be marked unreadable: its
/// schema is then still known, but its rows cannot be scanned.
pub struct MemoryTable<K> {
    pub name: String,
    pub columns: Vec<Column>,
    pub rows: Vec<(K, Row)>,
    pub readable: bool,
}

impl<K> MemoryTable<K> {
    /// The rows of the table, each with its key.
    pub open spec fn entries(&self) -> Seq<(K, Seq<ValueView>)> {
        Seq::new(self.rows.len() as nat, |i: int| (self.rows[i].0, self.rows[i].1@))
    }

    /// What the table holds.
    pub open spec fn model(&self) -> TableModel<K> {
        TableModel {
            columns: self.columns.deep_view(),
            rows: self.entries(),
            readable: self.readable,
        }
    }
}

/// The first position at or after `from` of a table called `name`.
pub open spec fn table_index_from<K>(tables: Seq<MemoryTable<K>>, name: Seq<char>, from: int) -> Option<
    int,
>
    decreases tables.len() - from,
{
    if from < 0 || from >= tables.len() {
        None
    } else if tables[from].name@ == name {
        Some(from)
    } else {
        table_index_from(tables, name, from + 1)
    }
}

/// A store that keeps its tables in memory. It takes in only rows that fit
/// the schema of their table. Where two tables were given the same name, the
/// one that came first is the one that is read.
pub struct MemoryStore<K> {
    pub tables: Vec<MemoryTable<K>>,
}

/// A scan of a [`MemoryStore`]: a table and the position of the next row.
pub struct MemoryScan {
    pub table: usize,
    pub position: usize,
}

impl<K> MemoryStore<K> {
    /// The position of the table called `name`.
    pub open spec fn index_of(&self, name: Seq<char>) -> Option<int> {
        table_index_from(self.tables@, name, 0)
    }

    /// The content of the store, by table name.
    pub open spec fn content(&self) -> Map<Seq<char>, TableModel<K>> {
        Map::new(
            |name: Seq<char>| self.index_of(name) is Some,
            |name: Seq<char>| self.tables@[self.index_of(name)->0].model(),
        )
    }

    /// Every row in the store lines up with the schema of its table.
    pub open spec fn well_formed(&self) -> bool {
        tables_well_formed(self.content())
    }

    /// An empty store.
    pub fn new() -> (store: Self)
        ensures
            store.content() == Map::<Seq<char>, TableModel<K>>::empty(),
            store.well_formed(),
    {
        let store = MemoryStore { tables: Vec::new() };
        assert(store.content() =~= Map::<Seq<char>, TableModel<K>>::empty());
        store
    }

    /// The position of the table called `name`.
    pub fn find_table(&self, name: &String) -> (position: Option<usize>)
        ensures
            match position {
                Some(i) => self.index_of(name@) == Some(i as int) && i < self.tables.len(),
                None => self.index_of(name@) is None,
            },
    {
        let mut i: usize = 0;
        while i < self.tables.len()
            invariant
                i <= self.tables.len(),
                self.index_of(name@) == table_index_from(self.tables@, name@, i as int),
            decreases self.tables.len() - i,
        {
            if same_text(&self.tables[i].name, name) {
                return Some(i);
            }
            i += 1;
        }
        None
    }

    /// Adds an empty, readable table called `name` with the given schema,
    /// unless the store already has a table of that name.
    pub fn create_table(&mut self, name: String, columns: Vec<Column>) -> (created: bool)
        ensures
            created == !old(self).content().contains_key(name@),
            created ==> final(self).content() == old(self).content().insert(
                name@,
                TableModel { columns: columns.deep_view(), rows: Seq::empty(), readable: true },
            ),
            !created ==> final(self).content() == old(self).content(),
            old(self).well_formed() ==> final(self).well_formed(),
    {
        match self.find_table(&name) {
            Some(_) => false,
            None => {
                let ghost before = self.tables@;
                let ghost added = name@;
                let table = MemoryTable { name, columns, rows: Vec::new(), readable: true };
                assert(table.entries() =~= Seq::empty());
                self.tables.push(table);
                proof {
                    let target = old(self).content().insert(
                        added,
                        TableModel { columns: columns.deep_view(), rows: Seq::empty(), readable: true },
                    );
                    assert_maps_equal!(self.content(), target, n => {
                        lemma_index_after_push(before, table, n, 0);
                        lemma_table_index_from(before, n, 0);
                        if table_index_from(before, n, 0) is Some {
                            let j = table_index_from(before, n, 0)->0;
                            assert(self.tables@[j] == before[j]);
                        } else if n == added {
                            assert(self.tables@[before.len() as int] == table);
                        }
                    });
                }
                true
            },
        }
    }

    /// Appends a row under `key` to the table called `table_name`, if the
    /// store has such a table and the row has one value for each of its
    /// columns.
    pub fn insert(&mut self, table_name: &String, key: K, row: Row) -> (inserted: bool)
        ensures
            inserted == (old(self).content().contains_key(table_name@) && row@.len() == old(
                self,
            ).content()[table_name@].columns.len()),
            inserted ==> final(self).content() == old(self).content().insert(
                table_name@,
                TableModel {
                    columns: old(self).content()[table_name@].columns,
                    rows: old(self).content()[table_name@].rows.push((key, row@)),
                    readable: old(self).content()[table_name@].readable,
                },
            ),
            !inserted ==> final(self).content() == old(self).content(),
            old(self).well_formed() ==> final(self).well_formed(),
    {
        match self.find_table(table_name) {
            None => false,
            Some(i) => {
                if row.len() != self.tables[i].columns.len() {
                    return false;
                }
                let ghost before = self.tables@;
                let mut table = self.tables.remove(i);
                let ghost entries = table.entries();
                table.rows.push((key, row));
                assert(table.entries() =~= entries.push((key, row@)));
                self.tables.insert(i, table);
                proof {
                    assert(self.tables@ =~= before.update(i as int, table));
                    let target = old(self).content().insert(
                        table_name@,
                        TableModel {
                            columns: old(self).content()[table_name@].columns,
                            rows: old(self).content()[table_name@].rows.push((key, row@)),
                            readable: old(self).content()[table_name@].readable,
                        },
                    );
                    lemma_table_index_from(before, table_name@, 0);
                    assert_maps_equal!(self.content(), target, n => {
                        lemma_index_after_update(before, i as int, table, n, 0);
                        lemma_table_index_from(before, n, 0);
                        if table_index_from(before, n, 0) is Some {
                            let j = table_index_from(before, n, 0)->0;
                            if j == i {
                                assert(n == table_name@);
                                assert(self.tables@[j] == table);
                            } else {
                                assert(self.tables@[j] == before[j]);
                            }
                        }
                    });
                }
                true
            },
        }
    }
}

/// A copy of a schema.
fn copy_columns(columns: &Vec<Column>) -> (copy: Vec<Column>)
    ensures
        copy.deep_view() == columns.deep_view(),
{
    let mut copy: Vec<Column> = Vec::new();
    let mut i: usize = 0;
    while i < columns.len()
        invariant
            i <= columns.len(),
            copy.len() == i,
            forall|j: int| 0 <= j < i ==> copy[j]@ == columns[j]@,
        decreases columns.len() - i,
    {
        copy.push(columns[i].clone());
        i += 1;
    }
    assert(copy.deep_view() =~= columns.deep_view());
    copy
}

impl<K: Copy> Store<K> for MemoryStore<K> {
    type Scan = MemoryScan;

    open spec fn tables(&self) -> Map<Seq<char>, TableModel<K>> {
        self.content()
    }

    open spec fn pending(&self, scan: &MemoryScan) -> Seq<(K, Seq<ValueView>)> {
        if scan.table < self.tables.len() && scan.position <= self.tables[scan.table as int].rows.len() {
            self.tables[scan.table as int].entries().skip(scan.position as int)
        } else {
            Seq::empty()
        }
    }

    fn lookup_columns(&self, table_name: &String) -> (outcome: Result<Vec<Column>, SelectError>) {
        match self.find_table(table_name) {
            Some(i) => Ok(copy_columns(&self.tables[i].columns)),
            None => Err(SelectError::StorageUnavailable),
        }
    }

    fn scan_rows(&self, table_name: &String) -> (outcome: Result<MemoryScan, SelectError>) {
        match self.find_table(table_name) {
            Some(i) => {
                if !self.tables[i].readable {
                    return Err(SelectError::StorageUnavailable);
                }
                let scan = MemoryScan { table: i, position: 0 };
                assert(self.pending(&scan) =~= self.tables[i as int].entries());
                Ok(scan)
            },
            None => Err(SelectError::StorageUnavailable),
        }
    }

    fn next_row(&self, scan: &mut MemoryScan) -> (entry: Option<(K, Row)>) {
        if scan.table < self.tables.len() {
            let table = &self.tables[scan.table];
            if scan.position < table.rows.len() {
                let stored = &table.rows[scan.position];
                let entry = (stored.0, stored.1.clone());
                scan.position += 1;
                assert(self.pending(scan) =~= self.pending(old(scan)).drop_first());
                Some(entry)
            } else {
                None
            }
        } else {
            None
        }
    }
}

/// What `table_index_from` finds is the first table of that name at or after
/// `from`, and it finds nothing only where there is none.
pub proof fn lemma_table_index_from<K>(tables: Seq<MemoryTable<K>>, name: Seq<char>, from: int)
    requires
        0 <= from,
    ensures
        match table_index_from(tables, name, from) {
            Some(i) => {
                &&& from <= i < tables.len()
                &&& tables[i].name@ == name
                &&& forall|j: int| from <= j < i ==> tables[j].name@ != name
            },
            None => forall|j: int| from <= j < tables.len() ==> tables[j].name@ != name,
        },
    decreases tables.len() - from,
{
    if from < tables.len() && tables[from].name@ != name {
        lemma_table_index_from(tables, name, from + 1);
    }
}

/// Where a table is found after another was added at the end.
pub proof fn lemma_index_after_push<K>(
    tables: Seq<MemoryTable<K>>,
    table: MemoryTable<K>,
    name: Seq<char>,
    from: int,
)
    requires
        0 <= from <= tables.len(),
    ensures
        table_index_from(tables.push(table), name, from) == (if table_index_from(tables, name, from) is Some {
            table_index_from(tables, name, from)
        } else if table.name@ == name {
            Some(tables.len() as int)
        } else {
            None
        }),
    decreases tables.len() - from,
{
    if from < tables.len() {
        assert(tables.push(table)[from] == tables[from]);
        if tables[from].name@ != name {
            lemma_index_after_push(tables, table, name, from + 1);
        }
    } else {
        assert(tables.push(table)[from] == table);
        assert(table_index_from(tables.push(table), name, from + 1) is None);
    }
}

/// Replacing a table by one of the same name moves no table.
pub proof fn lemma_index_after_update<K>(
    tables: Seq<MemoryTable<K>>,
    at: int,
    table: MemoryTable<K>,
    name: Seq<char>,
    from: int,
)
    requires
        0 <= at < tables.len(),
        tables[at].name@ == table.name@,
        0 <= from,
    ensures
        table_index_from(tables.update(at, table), name, from) == table_index_from(tables, name, from),
    decreases tables.len() - from,
{
    if from < tables.len() {
        if tables[from].name@ != name {
            lemma_index_after_update(tables, at, table, name, from + 1);
        }
    }
}

} // verus!
