//! A small record store: tables of rows, each table known by a one-byte id
//! and a name.

use vstd::prelude::*;

verus! {

#[derive(Debug, PartialEq)]
pub struct Table<T> {
    pub name: String,
    pub rows: Vec<T>,
}

#[derive(Debug, PartialEq, Eq)]
pub enum Error<'a> {
    TableNotFound(&'a str),
}

impl<T> Table<T> {
    pub fn new(name: String) -> (t: Table<T>)
        ensures
            t.name == name,
            t.rows@ == Seq::<T>::empty(),
    {
        Table { name, rows: Vec::new() }
    }

    pub fn insert(&mut self, row: T)
        ensures
            final(self).name == old(self).name,
            final(self).rows@ == old(self).rows@.push(row),
    {
        self.rows.push(row);
    }
}

/// The tables, each with its id; no id occurs twice.
#[derive(Debug)]
pub struct RecordDB<T> {
    ids: Vec<u8>,
    tables: Vec<Table<T>>,
}

/// The ids and names of the tables of a new store.
pub open spec fn initial_tables() -> Seq<(u8, Seq<char>)> {
    seq![
        (0x02u8, "ARTIST"@),
        (0x03u8, "ALBUM"@),
        (0x04u8, "TRACK"@),
        (0x0cu8, "KEY"@),
        (0x05u8, "PLAYLIST"@),
        (0x16u8, "HISTORY"@),
        (0x12u8, "SEARCH"@),
    ]
}

impl<T> RecordDB<T> {
    pub closed spec fn spec_ids(&self) -> Seq<u8> {
        self.ids@
    }

    pub closed spec fn spec_tables(&self) -> Seq<Table<T>> {
        self.tables@
    }

    /// Ids are distinct and each has a table.
    pub open spec fn wf(&self) -> bool {
        &&& self.spec_ids().len() == self.spec_tables().len()
        &&& forall|i: int, j: int|
            0 <= i < j < self.spec_ids().len() ==> self.spec_ids()[i] != self.spec_ids()[j]
    }

    /// The position of the table with `id`.
    pub open spec fn position(&self, id: u8) -> Option<int> {
        if exists|i: int| 0 <= i < self.spec_ids().len() && self.spec_ids()[i] == id {
            Some(choose|i: int| 0 <= i < self.spec_ids().len() && self.spec_ids()[i] == id)
        } else {
            None
        }
    }

    /// A store with the seven empty tables ARTIST (2), ALBUM (3), TRACK (4),
    /// KEY (0x0c), PLAYLIST (5), HISTORY (0x16) and SEARCH (0x12).
    pub fn new() -> (db: RecordDB<T>)
        ensures
            db.wf(),
            db.spec_ids().len() == 7,
            forall|i: int|
                0 <= i < 7 ==> db.spec_ids()[i] == #[trigger] initial_tables()[i].0
                    && db.spec_tables()[i].name@ == initial_tables()[i].1 && db.spec_tables()[i].rows@.len()
                    == 0,
    {
        let mut ids: Vec<u8> = Vec::new();
        let mut tables: Vec<Table<T>> = Vec::new();
        ids.push(0x02);
        tables.push(Table::new("ARTIST".to_string()));
        ids.push(0x03);
        tables.push(Table::new("ALBUM".to_string()));
        ids.push(0x04);
        tables.push(Table::new("TRACK".to_string()));
        ids.push(0x0c);
        tables.push(Table::new("KEY".to_string()));
        ids.push(0x05);
        tables.push(Table::new("PLAYLIST".to_string()));
        ids.push(0x16);
        tables.push(Table::new("HISTORY".to_string()));
        ids.push(0x12);
        tables.push(Table::new("SEARCH".to_string()));
        RecordDB { ids, tables }
    }

    fn find(&self, id: u8) -> (r: Option<usize>)
        requires
            self.wf(),
        ensures
            r is None <==> self.position(id) is None,
            r matches Some(i) ==> i < self.spec_ids().len() && self.position(id) == Some(i as int),
    {
        let mut i: usize = 0;
        while i < self.ids.len()
            invariant
                i <= self.ids@.len(),
                self.wf(),
                forall|j: int| 0 <= j < i ==> self.spec_ids()[j] != id,
            decreases self.ids@.len() - i,
        {
            if self.ids[i] == id {
                proof {
                    assert(self.spec_ids()[i as int] == id);
                    let k = choose|k: int| 0 <= k < self.spec_ids().len() && self.spec_ids()[k] == id;
                    assert(k == i);
                }
                return Some(i);
            }
            i = i + 1;
        }
        None
    }

    /// The table with `id`, or `TableNotFound`.
    pub fn table(&self, id: u8) -> (r: Result<&Table<T>, Error<'static>>)
        requires
            self.wf(),
        ensures
            self.position(id) is Some ==> (r is Ok && *r->Ok_0 == self.spec_tables()[self.position(id).unwrap()]),
            self.position(id) is None ==> r == Err::<&Table<T>, Error<'static>>(
                Error::TableNotFound("Table not found"),
            ),
    {
        match self.find(id) {
            Some(i) => {
                let t = &self.tables[i];
                assert(*t == self.tables@[i as int]);
                Ok(t)
            },
            None => Err(Error::TableNotFound("Table not found")),
        }
    }

    /// The table with `id` for changing, or `TableNotFound`.
    pub fn mut_table(&mut self, id: u8) -> (r: Result<Option<&mut Table<T>>, Error<'static>>)
        requires
            old(self).wf(),
        ensures
            match old(self).position(id) {
                Some(i) => r matches Ok(Some(t)) && *t == old(self).spec_tables()[i]
                    && final(self).spec_ids() == old(self).spec_ids() && final(self).spec_tables()
                    == old(self).spec_tables().update(i, *final(t)),
                None => r == Err::<Option<&mut Table<T>>, Error<'static>>(
                    Error::TableNotFound("Table not found"),
                ) && *final(self) == *old(self),
            },
    {
        match self.find(id) {
            Some(i) => Ok(Some(&mut self.tables[i])),
            None => Err(Error::TableNotFound("Table not found")),
        }
    }
}

} // verus!
