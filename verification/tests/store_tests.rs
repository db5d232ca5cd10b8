use isu_processor::CheckpointStore;
use isu_processor::ISUFile;
use isu_processor::ISUProcessor;

fn checkpoint(path: &str, pos: i64, index: i32, headers: &str, time: &str) -> ISUFile {
    ISUFile {
        path: path.to_string(),
        last_position_read: pos,
        last_index: index,
        headers: headers.to_string(),
        time: time.to_string(),
    }
}

#[test]
fn init_test() {
    let store = CheckpointStore::open_in_memory().unwrap();
    let isu = ISUProcessor::with_store(store);
    let result = isu.init();
    assert!(result.is_ok(), "{:?}", result.err());

    // the checkpoint table exists after init
    let name: String = isu
        .store
        .conn
        .query_row(
            "SELECT name FROM sqlite_master WHERE type='table' AND name='isu'",
            [],
            |row| row.get(0),
        )
        .unwrap();
    assert_eq!(name, "isu");
}

#[test]
fn init_is_not_destructive() {
    let mut store = CheckpointStore::open_in_memory().unwrap();
    store.init().unwrap();
    store
        .put(&checkpoint("test", 5, 1, "header1,header2", ""))
        .unwrap();
    // a second init keeps the stored row
    store.init().unwrap();
    let found = store.get("test").unwrap().unwrap();
    assert_eq!(found.last_position_read, 5);
    assert_eq!(found.headers, "header1,header2");
}

#[test]
fn save_file_test() {
    let mut store = CheckpointStore::open_in_memory().unwrap();
    store.init().unwrap();

    let result = store.put(&checkpoint("test", 0, 0, "header1, header2", ""));
    assert!(result.is_ok(), "{:?}", result.err());

    // saving the same path again upserts the existing record
    let result = store.put(&checkpoint("test", 0, 0, "header1, header2", ""));
    assert!(result.is_ok(), "{:?}", result.err());
}

#[test]
fn fetch_file_test() {
    let mut store = CheckpointStore::open_in_memory().unwrap();
    store.init().unwrap();

    store
        .put(&checkpoint("test", 0, 0, "header1,header2", ""))
        .unwrap();
    let result = store.get("test").unwrap();
    assert!(result.is_some());
    assert_eq!(result.unwrap().headers, String::from("header1,header2"));

    store
        .put(&checkpoint("test", 0, 0, "header3,header4", ""))
        .unwrap();
    let result = store.get("test").unwrap();
    assert!(result.is_some());
    assert_eq!(result.unwrap().headers, String::from("header3,header4"));
}

#[test]
fn upsert_leaves_exactly_one_row() {
    // two back-to-back saves for one path leave one record, the second write
    let mut store = CheckpointStore::open_in_memory().unwrap();
    store.init().unwrap();
    store
        .put(&checkpoint("a/path", 10, 1, "x,y", "t1"))
        .unwrap();
    store
        .put(&checkpoint("a/path", 20, 2, "x,y,z", "t2"))
        .unwrap();

    let count: i64 = store
        .conn
        .query_row("SELECT COUNT(*) FROM isu WHERE path = 'a/path'", [], |row| row.get(0))
        .unwrap();
    assert_eq!(count, 1);

    let found = store.get("a/path").unwrap().unwrap();
    assert_eq!(found.last_position_read, 20);
    assert_eq!(found.last_index, 2);
    assert_eq!(found.headers, "x,y,z");
    assert_eq!(found.time, "t2");
}

#[test]
fn fetch_missing_path_is_none_not_error() {
    let store = CheckpointStore::open_in_memory().unwrap();
    store.init().unwrap();
    let result = store.get("never/stored");
    assert!(result.is_ok());
    assert!(result.unwrap().is_none());
}
