//! The trusted boundary to the store.
//!
//! Everything the library asserts about the backend rests on the contracts in
//! this module: `rusqlite` is reached only through the wrappers below, and the
//! state of the working table is named by four uninterpreted spec functions
//! (current contents, committed snapshot, open-transaction flag, readiness).
//! Each wrapper's contract states no more of the backend than SQLite's
//! documented statement semantics: a statement either succeeds with its
//! documented effect or fails having changed nothing.

use vstd::prelude::*;
use crate::model::TableModel;
use crate::sqlite::{array_insert_sql, array_query_sql, insert_sql, query_sql};

verus! {

#[verifier::external_type_specification]
#[verifier::external_body]
pub struct ExConnection(rusqlite::Connection);

/// One positional SQL parameter: the library binds ids and name text only.
pub enum Param {
    Int(i64),
    Text(String),
}

/// One undecoded result row, exactly as the backend hands it back.
pub struct RawRow {
    pub id: i64,
    pub name: String,
}

/// A typed failure surfaced to the caller; no error is swallowed.
#[derive(Debug)]
pub enum DbError {
    /// The handle could not be established or the table not provisioned.
    Connection(String),
    /// A statement was rejected before execution.
    Statement(String),
    /// A statement failed during execution (e.g. a key-constraint violation).
    Execution(String),
    /// A returned row could not be decoded into the row model.
    Marshal(String),
}

/// The current contents of the working table, as a query sees them.
pub uninterp spec fn db_rows(db: rusqlite::Connection) -> TableModel;

/// The contents at the last commit point: what a rollback restores.
pub uninterp spec fn db_committed(db: rusqlite::Connection) -> TableModel;

/// Whether an explicit transaction is open on the handle.
pub uninterp spec fn db_in_txn(db: rusqlite::Connection) -> bool;

/// Whether the handle was produced by `init`: the working table exists and
/// the rarray table-valued function is registered.
pub uninterp spec fn db_ready(db: rusqlite::Connection) -> bool;

/// A parameter list of alternating id/text pairs, the binding order of a
/// multi-row `VALUES` insert.
pub open spec fn well_formed_params(ps: Seq<Param>) -> bool {
    &&& ps.len() % 2 == 0
    &&& forall|k: int|
        0 <= k < ps.len() ==> if k % 2 == 0 {
            (#[trigger] ps[k]) is Int
        } else {
            ps[k] is Text
        }
}

/// The (id, name) pairs encoded by an alternating parameter list.
pub open spec fn decoded_pairs(ps: Seq<Param>) -> Seq<(int, Seq<char>)> {
    Seq::new((ps.len() / 2) as nat, |k: int| (ps[2 * k]->Int_0 as int, ps[2 * k + 1]->Text_0@))
}

/// Every parameter is an integer id.
pub open spec fn all_int_params(ps: Seq<Param>) -> bool {
    forall|k: int| 0 <= k < ps.len() ==> (#[trigger] ps[k]) is Int
}

/// The ids bound by an all-integer parameter list.
pub open spec fn int_params(ps: Seq<Param>) -> Seq<int> {
    ps.map_values(|p: Param| p->Int_0 as int)
}

/// The (id, name) pairs encoded by two parallel columnar sequences.
pub open spec fn pairs_model(ids: Seq<i64>, names: Seq<String>) -> Seq<(int, Seq<char>)> {
    Seq::new(ids.len(), |k: int| (ids[k] as int, names[k]@))
}

/// What a query strategy's raw result must look like for the id list `ids`
/// against table `m`: each returned row is stored under a requested id with
/// its stored name, every requested id that is stored occurs, and ids are
/// pairwise distinct (the table keys them uniquely).
pub open spec fn raw_matches(m: TableModel, ids: Seq<int>, out: Seq<RawRow>) -> bool {
    &&& forall|k: int| 0 <= k < out.len() ==> {
        let r = #[trigger] out[k];
        &&& m.contains_key(r.id as int)
        &&& m[r.id as int] == r.name@
        &&& ids.contains(r.id as int)
    }
    &&& forall|i: int| #[trigger]
        ids.contains(i) && m.contains_key(i) ==> exists|k: int|
            0 <= k < out.len() && (#[trigger] out[k]).id == i
    &&& forall|k1: int, k2: int|
        0 <= k1 < k2 < out.len() ==> (#[trigger] out[k1]).id != (#[trigger] out[k2]).id
}

/// Relies on `rusqlite::Connection::open_in_memory`,
/// `rusqlite::vtab::array::load_module` and `rusqlite::Connection::execute`:
/// opens a fresh in-memory database, registers the rarray table-valued
/// function, and creates the empty working table
/// `test (id INTEGER PRIMARY KEY, name TEXT NOT NULL)` in autocommit mode.
#[verifier::external_body]
pub fn init() -> (r: Result<rusqlite::Connection, DbError>)
    ensures
        r matches Ok(db) ==> {
            &&& db_ready(db)
            &&& !db_in_txn(db)
            &&& db_rows(db) == Map::<int, Seq<char>>::empty()
            &&& db_committed(db) == Map::<int, Seq<char>>::empty()
        },
{
    let db = match rusqlite::Connection::open_in_memory() {
        Ok(db) => db,
        Err(e) => return Err(DbError::Connection(e.to_string())),
    };
    if let Err(e) = rusqlite::vtab::array::load_module(&db) {
        return Err(DbError::Connection(e.to_string()));
    }
    match db.execute("CREATE TABLE test (id INTEGER PRIMARY KEY, name TEXT NOT NULL);", []) {
        Ok(_) => Ok(db),
        Err(e) => Err(DbError::Connection(e.to_string())),
    }
}

/// Relies on `rusqlite::Connection::execute` with a `DELETE` statement in
/// autocommit mode: on success the working table is empty; a failed
/// statement changes nothing.
#[verifier::external_body]
pub fn clear(db: &mut rusqlite::Connection) -> (r: Result<(), DbError>)
    requires
        db_ready(*old(db)),
        !db_in_txn(*old(db)),
    ensures
        match r {
            Ok(()) => {
                &&& db_ready(*final(db)) && !db_in_txn(*final(db))
                &&& db_rows(*final(db)) == Map::<int, Seq<char>>::empty()
                &&& db_committed(*final(db)) == Map::<int, Seq<char>>::empty()
            },
            Err(_) => {
                &&& db_ready(*final(db)) && !db_in_txn(*final(db))
                &&& db_rows(*final(db)) == db_rows(*old(db))
                &&& db_committed(*final(db)) == db_committed(*old(db))
            },
        },
{
    match db.execute("DELETE FROM test;", []) {
        Ok(_) => Ok(()),
        Err(e) => Err(DbError::Execution(e.to_string())),
    }
}

/// Relies on `rusqlite::Connection::execute_batch` running `BEGIN;`: outside
/// a transaction it opens one and changes no data; a failed `BEGIN` leaves
/// the handle as it was.
#[verifier::external_body]
pub(crate) fn begin(db: &mut rusqlite::Connection) -> (r: Result<(), DbError>)
    requires
        db_ready(*old(db)),
        !db_in_txn(*old(db)),
    ensures
        match r {
            Ok(()) => {
                &&& db_ready(*final(db)) && db_in_txn(*final(db))
                &&& db_rows(*final(db)) == db_rows(*old(db))
                &&& db_committed(*final(db)) == db_rows(*old(db))
            },
            Err(_) => {
                &&& db_ready(*final(db)) && !db_in_txn(*final(db))
                &&& db_rows(*final(db)) == db_rows(*old(db))
                &&& db_committed(*final(db)) == db_committed(*old(db))
            },
        },
{
    match db.execute_batch("BEGIN;") {
        Ok(()) => Ok(()),
        Err(e) => Err(DbError::Execution(e.to_string())),
    }
}

/// Relies on `rusqlite::Connection::execute_batch` running `COMMIT;`: on
/// success the open transaction's writes become the committed state; on
/// failure nothing new is committed.
#[verifier::external_body]
pub(crate) fn commit(db: &mut rusqlite::Connection) -> (r: Result<(), DbError>)
    requires
        db_ready(*old(db)),
        db_in_txn(*old(db)),
    ensures
        match r {
            Ok(()) => {
                &&& db_ready(*final(db)) && !db_in_txn(*final(db))
                &&& db_rows(*final(db)) == db_rows(*old(db))
                &&& db_committed(*final(db)) == db_rows(*old(db))
            },
            Err(_) => {
                &&& db_ready(*final(db))
                &&& db_committed(*final(db)) == db_committed(*old(db))
            },
        },
{
    match db.execute_batch("COMMIT;") {
        Ok(()) => Ok(()),
        Err(e) => Err(DbError::Execution(e.to_string())),
    }
}

/// Relies on `rusqlite::Connection::execute_batch` running `ROLLBACK;`, with
/// any error ignored, as an RAII transaction guard would on early exit: an
/// open transaction is rolled back to the committed state; if none is open
/// the handle is already in autocommit, where visible and committed contents
/// coincide.
#[verifier::external_body]
pub(crate) fn rollback(db: &mut rusqlite::Connection)
    requires
        db_ready(*old(db)),
    ensures
        db_ready(*final(db)),
        !db_in_txn(*final(db)),
        db_rows(*final(db)) == db_committed(*old(db)),
        db_committed(*final(db)) == db_committed(*old(db)),
{
    let _ = db.execute_batch("ROLLBACK;");
}

/// Relies on `rusqlite::Connection::execute` running one multi-row `INSERT`
/// statement inside the open transaction: on success exactly the bound
/// (id, name) pairs are added; a failed statement (e.g. a duplicate id) is
/// backed out entirely and leaves the transaction open. Success implies no
/// key constraint was violated, i.e. the bound ids were fresh.
#[verifier::external_body]
pub(crate) fn exec_insert(
    db: &mut rusqlite::Connection,
    sql: &str,
    params: &Vec<Param>,
) -> (r: Result<(), DbError>)
    requires
        db_ready(*old(db)),
        db_in_txn(*old(db)),
        well_formed_params(params@),
        params@.len() >= 2,
        sql@ == insert_sql((params@.len() / 2) as nat),
    ensures
        match r {
            Ok(()) => {
                &&& db_ready(*final(db)) && db_in_txn(*final(db))
                &&& db_committed(*final(db)) == db_committed(*old(db))
                &&& crate::model::ids_fresh(db_rows(*old(db)), decoded_pairs(params@))
                &&& db_rows(*final(db)) == crate::model::with_rows(
                    db_rows(*old(db)),
                    decoded_pairs(params@),
                )
            },
            Err(_) => {
                &&& db_ready(*final(db)) && db_in_txn(*final(db))
                &&& db_committed(*final(db)) == db_committed(*old(db))
                &&& db_rows(*final(db)) == db_rows(*old(db))
            },
        },
{
    let vals = params.iter().map(|p| match p {
        Param::Int(i) => rusqlite::types::Value::Integer(*i),
        Param::Text(s) => rusqlite::types::Value::Text(s.clone()),
    });
    match db.execute(sql, rusqlite::params_from_iter(vals)) {
        Ok(_) => Ok(()),
        Err(e) => Err(DbError::Execution(e.to_string())),
    }
}

/// Relies on rusqlite's rarray table-valued function: the statement joins the
/// two bound arrays by rowid, so exactly the parallel (id, name) pairs are
/// inserted inside the open transaction; a failed statement is backed out
/// entirely and leaves the transaction open. Success implies the bound ids
/// were fresh.
#[verifier::external_body]
pub(crate) fn exec_insert_arrays(
    db: &mut rusqlite::Connection,
    sql: &str,
    ids: &Vec<i64>,
    names: &Vec<String>,
) -> (r: Result<(), DbError>)
    requires
        db_ready(*old(db)),
        db_in_txn(*old(db)),
        ids@.len() == names@.len(),
        ids@.len() >= 1,
        sql@ == array_insert_sql(),
    ensures
        match r {
            Ok(()) => {
                &&& db_ready(*final(db)) && db_in_txn(*final(db))
                &&& db_committed(*final(db)) == db_committed(*old(db))
                &&& crate::model::ids_fresh(db_rows(*old(db)), pairs_model(ids@, names@))
                &&& db_rows(*final(db)) == crate::model::with_rows(
                    db_rows(*old(db)),
                    pairs_model(ids@, names@),
                )
            },
            Err(_) => {
                &&& db_ready(*final(db)) && db_in_txn(*final(db))
                &&& db_committed(*final(db)) == db_committed(*old(db))
                &&& db_rows(*final(db)) == db_rows(*old(db))
            },
        },
{
    let a: Vec<rusqlite::types::Value> =
        ids.iter().map(|i| rusqlite::types::Value::Integer(*i)).collect();
    let b: Vec<rusqlite::types::Value> =
        names.iter().map(|s| rusqlite::types::Value::Text(s.clone())).collect();
    let a = rusqlite::vtab::array::Array::from(a);
    let b = rusqlite::vtab::array::Array::from(b);
    match db.execute(sql, (a, b)) {
        Ok(_) => Ok(()),
        Err(e) => Err(DbError::Execution(e.to_string())),
    }
}

/// Relies on `rusqlite::Statement::query_map` over one `SELECT ... WHERE id
/// IN (...)` statement: the rows handed back are exactly the stored rows
/// whose id is among the bound ids, each once, in unspecified order.
#[verifier::external_body]
pub(crate) fn query_rows(
    db: &rusqlite::Connection,
    sql: &str,
    params: &Vec<Param>,
) -> (r: Result<Vec<RawRow>, DbError>)
    requires
        db_ready(*db),
        all_int_params(params@),
        params@.len() >= 1,
        sql@ == query_sql(params@.len() as nat),
    ensures
        r matches Ok(v) ==> raw_matches(db_rows(*db), int_params(params@), v@),
{
    let vals = params.iter().map(|p| match p {
        Param::Int(i) => rusqlite::types::Value::Integer(*i),
        Param::Text(s) => rusqlite::types::Value::Text(s.clone()),
    });
    let mut stmt = db.prepare(sql).map_err(|e| DbError::Statement(e.to_string()))?;
    let iter = stmt
        .query_map(rusqlite::params_from_iter(vals), |row| {
            Ok(RawRow { id: row.get(0)?, name: row.get(1)? })
        })
        .map_err(|e| DbError::Execution(e.to_string()))?;
    iter.collect::<Result<Vec<RawRow>, _>>().map_err(|e| DbError::Execution(e.to_string()))
}

/// Relies on rusqlite's rarray table-valued function in one `SELECT ... WHERE
/// id IN rarray(?)` statement: the rows handed back are exactly the stored
/// rows whose id is in the bound array, each once, in unspecified order.
#[verifier::external_body]
pub(crate) fn query_rows_array(
    db: &rusqlite::Connection,
    sql: &str,
    ids: &Vec<i64>,
) -> (r: Result<Vec<RawRow>, DbError>)
    requires
        db_ready(*db),
        sql@ == array_query_sql(),
    ensures
        r matches Ok(v) ==> raw_matches(
            db_rows(*db),
            ids@.map_values(|i: i64| i as int),
            v@,
        ),
{
    let a: Vec<rusqlite::types::Value> =
        ids.iter().map(|i| rusqlite::types::Value::Integer(*i)).collect();
    let a = rusqlite::vtab::array::Array::from(a);
    let mut stmt = db.prepare(sql).map_err(|e| DbError::Statement(e.to_string()))?;
    let iter = stmt
        .query_map([a], |row| Ok(RawRow { id: row.get(0)?, name: row.get(1)? }))
        .map_err(|e| DbError::Execution(e.to_string()))?;
    iter.collect::<Result<Vec<RawRow>, _>>().map_err(|e| DbError::Execution(e.to_string()))
}

} // verus!
