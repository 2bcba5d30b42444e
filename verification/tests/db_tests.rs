use pi_sentinel::db::Db;
use pi_sentinel::db::DbError;
use pi_sentinel::db::DbType;
use pi_sentinel::db::DiskConnection;
use pi_sentinel::db::MemoryConnection;
use pi_sentinel::storage::Storage;
use pi_sentinel::storage::StorageType;

#[test]
fn memory_connection_stores_overwrites_and_deletes() {
    let mut conn = MemoryConnection::new();
    assert_eq!(conn.get("alpha"), Ok(None));
    assert_eq!(conn.put("alpha", vec![1, 2]), Ok(()));
    assert_eq!(conn.get("alpha"), Ok(Some(vec![1, 2])));
    assert_eq!(conn.put("alpha", vec![3]), Ok(()));
    assert_eq!(conn.get("alpha"), Ok(Some(vec![3])));
    assert_eq!(conn.delete("alpha"), Ok(()));
    assert_eq!(conn.get("alpha"), Ok(None));
    // Deleting an absent key changes nothing and still succeeds.
    assert_eq!(conn.delete("alpha"), Ok(()));
}

#[test]
fn queries_read_stored_values() {
    let mut conn = MemoryConnection::new();
    conn.put("alpha", vec![10, 20]).unwrap();
    let rows = conn.execute("GET alpha").unwrap();
    assert_eq!(rows.len(), 1);
    assert_eq!(rows[0].columns, vec![vec![10, 20]]);
    let empty = conn.execute("GET beta").unwrap();
    assert_eq!(empty.len(), 0);
}

#[test]
fn unknown_queries_are_refused() {
    let conn = MemoryConnection::new();
    assert!(matches!(conn.execute("LIST"), Err(DbError::QueryError)));
    assert!(matches!(conn.execute("PUT a b"), Err(DbError::QueryError)));
    assert!(matches!(conn.execute(""), Err(DbError::QueryError)));
    assert!(matches!(conn.execute("GET"), Err(DbError::QueryError)));
}

#[test]
fn disk_connection_keeps_its_path_and_state() {
    let mut conn = DiskConnection::at_path("chain.db".to_owned());
    assert_eq!(conn.path(), "chain.db");
    conn.put("head", vec![7]).unwrap();
    assert_eq!(conn.get("head"), Ok(Some(vec![7])));
    let rows = conn.execute("GET head").unwrap();
    assert_eq!(rows[0].columns, vec![vec![7]]);
}

#[test]
fn a_database_of_either_kind_serves_the_same_contract() {
    for db_type in [DbType::Memory, DbType::Disk] {
        let mut db = Db::new(db_type);
        assert_eq!(db.db_type, db_type);
        db.put("k", vec![1]).unwrap();
        assert_eq!(db.get("k"), Ok(Some(vec![1])));
        db.delete("k").unwrap();
        assert_eq!(db.get("k"), Ok(None));
    }
}

#[test]
fn storage_addresses_byte_keys_through_hex() {
    let mut storage = Storage::new(StorageType::Memory);
    assert_eq!(storage.storage_type, StorageType::Memory);
    storage.put(vec![0xbe, 0xef], vec![1, 2, 3]);
    assert_eq!(storage.get(vec![0xbe, 0xef]), Some(vec![1, 2, 3]));
    assert_eq!(storage.get(vec![0xbe]), None);
    // The byte key is spelled in hex for the connection underneath.
    assert_eq!(storage.db.get("beef"), Ok(Some(vec![1, 2, 3])));
}
