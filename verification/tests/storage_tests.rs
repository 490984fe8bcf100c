use basaltsql::catalog::{Catalog, ColumnDef, TableSchema};
use basaltsql::storage::{Storage, StorageError};
use basaltsql::types::{DataType, Row, Value};

#[test]
fn register_and_lookup_table() {
    let mut catalog = Catalog::new();
    catalog.register_table("users", TableSchema::default());

    assert!(catalog.has_table("users"));
    assert!(!catalog.has_table("invalid"));
}

#[test]
fn insert_and_read_rows() {
    let mut storage = Storage::new();
    storage.create_table("t");
    storage.insert("t", Row::new(vec![])).unwrap();
    storage.insert("t", Row::new(vec![])).unwrap();
    assert_eq!(storage.rows("t").unwrap().len(), 2);
}

#[test]
fn errors_on_missing_table() {
    let storage = Storage::new();
    let err = storage.rows("ghost").unwrap_err();
    assert_eq!(
        err,
        StorageError::MissingTable {
            name: "ghost".into()
        }
    );
}

#[test]
fn create_table_is_idempotent_and_keeps_existing_rows() {
    let mut storage = Storage::new();
    storage.create_table("t");
    storage.insert("t", Row::new(vec![])).unwrap();
    storage.create_table("t");
    assert_eq!(storage.rows("t").unwrap().len(), 1);
}

#[test]
fn registering_again_replaces_the_schema() {
    let mut catalog = Catalog::new();
    catalog.register_table("t", TableSchema::default());
    let schema = TableSchema {
        columns: vec![ColumnDef {
            name: "id".into(),
            ty: DataType::Integer,
            nullable: false,
        }],
    };
    catalog.register_table("t", schema);
    assert_eq!(catalog.schema("t").unwrap().columns.len(), 1);
    assert!(catalog.schema("u").is_none());
}

#[test]
fn rows_keep_insertion_order_and_tables_are_separate() {
    let mut storage = Storage::new();
    storage.create_table("a");
    storage.create_table("b");
    storage.insert("a", Row::new(vec![Value::Integer(1)])).unwrap();
    storage.insert("b", Row::new(vec![Value::Integer(9)])).unwrap();
    storage.insert("a", Row::new(vec![Value::Integer(2)])).unwrap();
    assert_eq!(
        storage.rows("a").unwrap(),
        &[Row::new(vec![Value::Integer(1)]), Row::new(vec![Value::Integer(2)])][..]
    );
    assert_eq!(storage.rows("b").unwrap().len(), 1);
    assert_eq!(
        storage.insert("c", Row::new(vec![])),
        Err(StorageError::MissingTable { name: "c".into() })
    );
}

#[test]
fn rows_mut_and_replace_rows_write_the_table() {
    let mut storage = Storage::new();
    storage.create_table("t");
    storage.rows_mut("t").unwrap().push(Row::new(vec![Value::Null]));
    assert_eq!(storage.rows("t").unwrap().len(), 1);
    storage.replace_rows("t", vec![]).unwrap();
    assert_eq!(storage.rows("t").unwrap().len(), 0);
    assert!(storage.rows_mut("missing").is_err());
}

#[test]
fn the_last_registration_under_a_name_wins() {
    let mut catalog = Catalog::new();
    let one = |name: &str, ty| TableSchema {
        columns: vec![ColumnDef { name: name.into(), ty, nullable: true }],
    };
    catalog.register_table("t", one("a", DataType::Integer));
    catalog.register_table("u", one("b", DataType::Text));
    catalog.register_table("t", one("c", DataType::Boolean));
    let t = catalog.schema("t").unwrap();
    assert_eq!(t.columns.len(), 1);
    assert_eq!(t.columns[0].name, "c");
    assert_eq!(t.columns[0].ty, DataType::Boolean);
    assert_eq!(catalog.schema("u").unwrap().columns[0].name, "b");
    assert!(catalog.schema("v").is_none());
    assert!(!catalog.has_table("v"));
}
