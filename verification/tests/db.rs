use termdj::rekordbox::db::{Error, RecordDB, Table};

#[derive(Debug, PartialEq)]
struct Row {
    value: String,
    path: String,
}

#[test]
fn can_fetch_tables() {
    let db: RecordDB<Row> = RecordDB::new();
    assert_eq!(Ok(&Table::new(String::from("ARTIST"))), db.table(0x02));
    assert_eq!(Ok(&Table::new(String::from("ALBUM"))), db.table(0x03));
    assert_eq!(Ok(&Table::new(String::from("TRACK"))), db.table(0x04));
}

#[test]
fn can_list_table() {
    let mut db = RecordDB::new();

    if let Ok(Some(table)) = db.mut_table(0x02) {
        table.insert(Row {
            value: "Jonas Liljestrand - Min bästa sång".to_string(),
            path: "/Users/jonas".to_string(),
        });
    }

    assert_eq!(
        db.table(0x02),
        Ok(&Table {
            name: String::from("ARTIST"),
            rows: vec![Row {
                value: "Jonas Liljestrand - Min bästa sång".to_string(),
                path: "/Users/jonas".to_string(),
            }]
        })
    );
}

#[test]
fn unknown_table_is_not_found() {
    let mut db: RecordDB<Row> = RecordDB::new();
    assert_eq!(db.table(0x01), Err(Error::TableNotFound("Table not found")));
    assert!(matches!(db.mut_table(0x07), Err(Error::TableNotFound("Table not found"))));
    assert_eq!(db.table(0x12).map(|t| t.name.clone()), Ok(String::from("SEARCH")));
    assert_eq!(db.table(0x16).map(|t| t.name.clone()), Ok(String::from("HISTORY")));
}
