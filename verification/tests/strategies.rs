use sql_array::db::{clear, init, DbError};
use sql_array::sqlite::{insert_array, insert_batched, insert_chunked, insert_one, query_array, query_one};
use sql_array::Row;

fn make_rows(n: i32) -> Vec<Row> {
    (0..n).map(|id| Row { id, name: format!("Row {}", id) }).collect()
}

fn scenario(insert: &dyn Fn(&mut rusqlite::Connection, &[Row]) -> Result<(), DbError>) {
    let mut db = init().unwrap();
    let rows = make_rows(200);

    insert(&mut db, &rows[..155]).unwrap();

    let expected: Vec<Row> =
        vec![
            Row { id: 51, name: format!("Row {}", 51) },
            Row { id: 52, name: format!("Row {}", 52) },
            Row { id: 53, name: format!("Row {}", 53) },
        ];
    let queried = query_one(&db, &[51, 52, 53]).unwrap();
    assert_eq!(queried, expected);
    let queried = query_array(&db, &[51, 52, 53]).unwrap();
    assert_eq!(queried, expected);

    clear(&mut db).unwrap();
    let all_ids: Vec<i32> = (0..200).collect();
    let after = query_one(&db, &all_ids).unwrap();
    assert!(after.is_empty());
}

#[test]
fn scenario_single_row() {
    scenario(&|db, rows| insert_one(db, rows));
}

#[test]
fn scenario_chunked_batch() {
    scenario(&|db, rows| insert_batched(db, rows));
}

#[test]
fn scenario_set_oriented() {
    scenario(&|db, rows| insert_array(db, rows));
}

#[test]
fn round_trip_all_strategies() {
    let rows = make_rows(7);
    let ids: Vec<i32> = (0..7).collect();
    let strategies: Vec<&dyn Fn(&mut rusqlite::Connection, &[Row]) -> Result<(), DbError>> =
        vec![
            &|db, rows| insert_one(db, rows),
            &|db, rows| insert_batched(db, rows),
            &|db, rows| insert_array(db, rows),
        ];
    for insert in strategies {
        let mut db = init().unwrap();
        insert(&mut db, &rows).unwrap();
        let queried = query_one(&db, &ids).unwrap();
        assert_eq!(queried, rows);
        let queried = query_array(&db, &ids).unwrap();
        assert_eq!(queried, rows);
    }
}

#[test]
fn chunked_non_multiple_sizes() {
    for (len, chunk) in [(10i32, 4usize), (3, 5), (8, 4), (1, 1), (9, 2)] {
        let rows = make_rows(len);
        let ids: Vec<i32> = (0..len).collect();
        let mut db = init().unwrap();
        insert_chunked(&mut db, &rows, chunk).unwrap();
        let queried = query_one(&db, &ids).unwrap();
        assert_eq!(queried, rows);
    }
}

#[test]
fn empty_input_is_safe() {
    let mut db = init().unwrap();
    insert_one(&mut db, &[]).unwrap();
    insert_batched(&mut db, &[]).unwrap();
    insert_array(&mut db, &[]).unwrap();
    assert!(query_one(&db, &[]).unwrap().is_empty());
    assert!(query_array(&db, &[]).unwrap().is_empty());
}

#[test]
fn query_strategies_agree() {
    let mut db = init().unwrap();
    let rows = make_rows(30);
    insert_batched(&mut db, &rows).unwrap();
    let ids = [17, 3, 3, 255, -1, 12];
    let a = query_one(&db, &ids).unwrap();
    let b = query_array(&db, &ids).unwrap();
    assert_eq!(a, b);
    let expected: Vec<Row> = vec![
        Row { id: 3, name: format!("Row {}", 3) },
        Row { id: 12, name: format!("Row {}", 12) },
        Row { id: 17, name: format!("Row {}", 17) },
    ];
    assert_eq!(a, expected);
}

#[test]
fn results_come_back_sorted() {
    let mut db = init().unwrap();
    let rows: Vec<Row> = vec![
        Row { id: 9, name: String::from("i") },
        Row { id: 1, name: String::from("a") },
        Row { id: 5, name: String::from("e") },
    ];
    insert_one(&mut db, &rows).unwrap();
    let queried = query_one(&db, &[9, 5, 1]).unwrap();
    let sorted: Vec<Row> = vec![
        Row { id: 1, name: String::from("a") },
        Row { id: 5, name: String::from("e") },
        Row { id: 9, name: String::from("i") },
    ];
    assert_eq!(queried, sorted);
}

#[test]
fn duplicate_id_aborts_whole_batch() {
    let strategies: Vec<&dyn Fn(&mut rusqlite::Connection, &[Row]) -> Result<(), DbError>> =
        vec![
            &|db, rows| insert_one(db, rows),
            &|db, rows| insert_batched(db, rows),
            &|db, rows| insert_array(db, rows),
        ];
    for insert in strategies {
        let mut db = init().unwrap();
        let first = make_rows(3);
        insert(&mut db, &first).unwrap();
        let batch: Vec<Row> = vec![
            Row { id: 10, name: String::from("new") },
            Row { id: 2, name: String::from("duplicate") },
            Row { id: 11, name: String::from("never") },
        ];
        let err = insert(&mut db, &batch).unwrap_err();
        assert!(matches!(err, DbError::Execution(_)));
        let ids: Vec<i32> = (0..20).collect();
        let queried = query_one(&db, &ids).unwrap();
        assert_eq!(queried, first);
    }
}

#[test]
fn clear_is_idempotent() {
    let mut db = init().unwrap();
    insert_one(&mut db, &make_rows(5)).unwrap();
    clear(&mut db).unwrap();
    clear(&mut db).unwrap();
    let queried = query_one(&db, &[0, 1, 2, 3, 4]).unwrap();
    assert!(queried.is_empty());
}
