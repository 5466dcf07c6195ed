//! The loader and query strategies against the SQLite backend.
//!
//! Every strategy runs inside one transaction: on success the whole batch is
//! committed, on any failure the transaction is rolled back and the table is
//! left exactly as it was. Query strategies return their rows sorted by the
//! row ordering, whatever order the backend produced them in.

use vstd::prelude::*;
use crate::Row;
use crate::sep_text;
use crate::separated;
use crate::db::{
    DbError, Param, RawRow, begin, commit, db_committed, db_in_txn, db_ready, db_rows,
    decoded_pairs, exec_insert, exec_insert_arrays, query_rows, query_rows_array, rollback,
    well_formed_params,
};
use crate::model::{
    TableModel, ids_fresh, ids_model, query_matches, rows_model, sorted_by_id, with_rows,
    lemma_fresh_split, lemma_with_rows_concat,
};

verus! {

/// The reference chunk size of the chunked-batch strategy.
pub const CHUNK_SIZE: usize = 50;

/// The text of a multi-row insert statement with `k` value tuples.
pub open spec fn insert_sql(k: nat) -> Seq<char> {
    "INSERT INTO test (id, name) VALUES "@ + sep_text("(?, ?)"@, k) + ";"@
}

/// The text of a query statement with `k` id placeholders.
pub open spec fn query_sql(k: nat) -> Seq<char> {
    "SELECT id, name FROM test WHERE id IN ("@ + sep_text("?"@, k) + ");"@
}

/// The text of the set-oriented insert statement: both columnar arrays are
/// bound at once and joined by position.
pub open spec fn array_insert_sql() -> Seq<char> {
    "INSERT INTO test (id, name) SELECT * FROM rarray(?) AS a CROSS JOIN rarray(?) AS b ON a.rowid = b.rowid;"@
}

/// The text of the set-oriented query statement: the id list is bound as one
/// relation-valued parameter.
pub open spec fn array_query_sql() -> Seq<char> {
    "SELECT id, name FROM test WHERE id IN rarray(?);"@
}

/// Builds the multi-row insert statement for `k` value tuples.
fn insert_sql_text(k: usize) -> (s: String)
    requires
        k >= 1,
    ensures
        s@ == insert_sql(k as nat),
{
    let mut s = String::from_str("INSERT INTO test (id, name) VALUES ");
    let ph = separated("(?, ?)", k);
    s.append(ph.as_str());
    s.append(";");
    s
}

/// Marshals `count` rows starting at `start` into the flat parameter list of
/// a multi-row insert: id then name, row by row, in order.
fn chunk_params(rows: &[Row], start: usize, count: usize) -> (params: Vec<Param>)
    requires
        start + count <= rows@.len(),
    ensures
        params@.len() == 2 * count,
        well_formed_params(params@),
        decoded_pairs(params@) == rows_model(rows@).subrange(
            start as int,
            start as int + count as int,
        ),
{
    let n = rows.len();
    let mut params: Vec<Param> = Vec::new();
    let mut j: usize = 0;
    while j < count
        invariant
            j <= count,
            n == rows@.len(),
            start + count <= rows@.len(),
            params@.len() == 2 * j,
            forall|k: int|
                0 <= k < params@.len() ==> if k % 2 == 0 {
                    (#[trigger] params@[k]) is Int
                } else {
                    params@[k] is Text
                },
            forall|k: int|
                0 <= k < j ==> (#[trigger] params@[2 * k])->Int_0 == rows@[start + k].id as i64
                    && params@[2 * k + 1]->Text_0@ == rows@[start + k].name@,
        decreases count - j,
    {
        let row = vstd::slice::slice_index_get(rows, start + j);
        params.push(Param::Int(row.id as i64));
        params.push(Param::Text(row.name.clone()));
        j = j + 1;
    }
    proof {
        assert(decoded_pairs(params@) =~= rows_model(rows@).subrange(
            start as int,
            start as int + count as int,
        ));
    }
    params
}

/// The single-row loader: one parameterized insert per row, all inside one
/// transaction. On success the table has gained exactly the given rows; on
/// any failure it is left unchanged. An empty row sequence succeeds without
/// touching the store.
#[verifier::loop_isolation(false)]
pub fn insert_one(db: &mut rusqlite::Connection, rows: &[Row]) -> (r: Result<(), DbError>)
    requires
        db_ready(*old(db)),
        !db_in_txn(*old(db)),
        db_rows(*old(db)) == db_committed(*old(db)),
    ensures
        db_ready(*final(db)),
        !db_in_txn(*final(db)),
        db_rows(*final(db)) == db_committed(*final(db)),
        r is Ok ==> ids_fresh(db_rows(*old(db)), rows_model(rows@)) && db_rows(*final(db)) == with_rows(
            db_rows(*old(db)),
            rows_model(rows@),
        ),
        r is Err ==> db_rows(*final(db)) == db_rows(*old(db)),
        rows@.len() == 0 ==> r is Ok,
{
    if rows.len() == 0 {
        proof {
            assert(rows_model(rows@) =~= Seq::<(int, Seq<char>)>::empty());
        }
        return Ok(());
    }
    let ghost m0 = db_rows(*old(db));
    if let Err(e) = begin(db) {
        return Err(e);
    }
    let sql = insert_sql_text(1);
    let mut i: usize = 0;
    while i < rows.len()
        invariant
            db_ready(*db),
            db_in_txn(*db),
            i <= rows@.len(),
            db_committed(*db) == m0,
            db_rows(*db) == with_rows(m0, rows_model(rows@).take(i as int)),
            ids_fresh(m0, rows_model(rows@).take(i as int)),
            sql@ == insert_sql(1),
        decreases rows@.len() - i,
    {
        let params = chunk_params(rows, i, 1);
        match exec_insert(db, sql.as_str(), &params) {
            Ok(()) => {}
            Err(e) => {
                rollback(db);
                return Err(e);
            }
        }
        proof {
            let rm = rows_model(rows@);
            assert(rm.take(i as int) + rm.subrange(i as int, i as int + 1) =~= rm.take(
                i as int + 1,
            ));
            lemma_with_rows_concat(m0, rm.take(i as int), rm.subrange(i as int, i as int + 1));
            lemma_fresh_split(m0, rm.take(i as int), rm.subrange(i as int, i as int + 1));
        }
        i = i + 1;
    }
    proof {
        assert(rows_model(rows@).take(rows@.len() as int) =~= rows_model(rows@));
    }
    match commit(db) {
        Ok(()) => Ok(()),
        Err(e) => {
            rollback(db);
            Err(e)
        }
    }
}

/// The chunked-batch loader with a caller-chosen chunk size: one multi-row
/// statement shape is built once and executed per full chunk, a second shape
/// sized to the remainder is executed once, and the remainder is skipped
/// entirely when empty. All executions share one transaction; on success the
/// table has gained exactly the given rows, on any failure it is unchanged.
#[verifier::loop_isolation(false)]
pub fn insert_chunked(db: &mut rusqlite::Connection, rows: &[Row], chunk_size: usize) -> (r:
    Result<(), DbError>)
    requires
        chunk_size >= 1,
        db_ready(*old(db)),
        !db_in_txn(*old(db)),
        db_rows(*old(db)) == db_committed(*old(db)),
    ensures
        db_ready(*final(db)),
        !db_in_txn(*final(db)),
        db_rows(*final(db)) == db_committed(*final(db)),
        r is Ok ==> ids_fresh(db_rows(*old(db)), rows_model(rows@)) && db_rows(*final(db))
            == with_rows(db_rows(*old(db)), rows_model(rows@)),
        r is Err ==> db_rows(*final(db)) == db_rows(*old(db)),
        rows@.len() == 0 ==> r is Ok,
{
    let n = rows.len();
    if n == 0 {
        proof {
            assert(rows_model(rows@) =~= Seq::<(int, Seq<char>)>::empty());
        }
        return Ok(());
    }
    let ghost m0 = db_rows(*old(db));
    if let Err(e) = begin(db) {
        return Err(e);
    }
    let full: usize = n / chunk_size;
    let rem: usize = n % chunk_size;
    proof {
        vstd::arithmetic::div_mod::lemma_fundamental_div_mod(n as int, chunk_size as int);
        vstd::arithmetic::div_mod::lemma_mod_bound(n as int, chunk_size as int);
        assert(n as int == chunk_size as int * full as int + rem as int);
        assert(full as int * chunk_size as int == chunk_size as int * full as int) by (nonlinear_arith);
        assert(full as int * chunk_size as int <= n as int);
    }
    let chunk_sql = insert_sql_text(chunk_size);
    let mut i: usize = 0;
    while i < full
        invariant
            i <= full,
            db_ready(*db),
            db_in_txn(*db),
            db_committed(*db) == m0,
            db_rows(*db) == with_rows(m0, rows_model(rows@).take(i as int * chunk_size as int)),
            ids_fresh(m0, rows_model(rows@).take(i as int * chunk_size as int)),
            chunk_sql@ == insert_sql(chunk_size as nat),
        decreases full - i,
    {
        proof {
            vstd::arithmetic::mul::lemma_mul_inequality(
                i as int + 1,
                full as int,
                chunk_size as int,
            );
            assert((i as int + 1) * chunk_size as int == i as int * chunk_size as int
                + chunk_size as int) by (nonlinear_arith);
        }
        let base = i * chunk_size;
        let params = chunk_params(rows, base, chunk_size);
        match exec_insert(db, chunk_sql.as_str(), &params) {
            Ok(()) => {}
            Err(e) => {
                rollback(db);
                return Err(e);
            }
        }
        proof {
            let rm = rows_model(rows@);
            let lo = i as int * chunk_size as int;
            let hi = (i as int + 1) * chunk_size as int;
            assert(rm.take(lo) + rm.subrange(lo, hi) =~= rm.take(hi));
            lemma_with_rows_concat(m0, rm.take(lo), rm.subrange(lo, hi));
            lemma_fresh_split(m0, rm.take(lo), rm.subrange(lo, hi));
        }
        i = i + 1;
    }
    let done = full * chunk_size;
    if rem > 0 {
        let rem_sql = insert_sql_text(rem);
        let params = chunk_params(rows, done, rem);
        match exec_insert(db, rem_sql.as_str(), &params) {
            Ok(()) => {}
            Err(e) => {
                rollback(db);
                return Err(e);
            }
        }
    }
    proof {
        let rm = rows_model(rows@);
        let d = full as int * chunk_size as int;
        if rem > 0 {
            assert(rm.take(d) + rm.subrange(d, n as int) =~= rm);
            lemma_with_rows_concat(m0, rm.take(d), rm.subrange(d, n as int));
            lemma_fresh_split(m0, rm.take(d), rm.subrange(d, n as int));
        } else {
            assert(rm.take(d) =~= rm);
        }
    }
    match commit(db) {
        Ok(()) => Ok(()),
        Err(e) => {
            rollback(db);
            Err(e)
        }
    }
}

/// The chunked-batch loader at the reference chunk size.
pub fn insert_batched(db: &mut rusqlite::Connection, rows: &[Row]) -> (r: Result<(), DbError>)
    requires
        db_ready(*old(db)),
        !db_in_txn(*old(db)),
        db_rows(*old(db)) == db_committed(*old(db)),
    ensures
        db_ready(*final(db)),
        !db_in_txn(*final(db)),
        db_rows(*final(db)) == db_committed(*final(db)),
        r is Ok ==> ids_fresh(db_rows(*old(db)), rows_model(rows@)) && db_rows(*final(db))
            == with_rows(db_rows(*old(db)), rows_model(rows@)),
        r is Err ==> db_rows(*final(db)) == db_rows(*old(db)),
        rows@.len() == 0 ==> r is Ok,
{
    insert_chunked(db, rows, CHUNK_SIZE)
}

/// The set-oriented loader: the rows are split into two parallel columnar
/// sequences (all ids, all names, order preserved) and inserted by one
/// statement that joins the bound arrays back into row tuples server-side.
/// On success the table has gained exactly the given rows; on any failure it
/// is unchanged.
#[verifier::loop_isolation(false)]
pub fn insert_array(db: &mut rusqlite::Connection, rows: &[Row]) -> (r: Result<(), DbError>)
    requires
        db_ready(*old(db)),
        !db_in_txn(*old(db)),
        db_rows(*old(db)) == db_committed(*old(db)),
    ensures
        db_ready(*final(db)),
        !db_in_txn(*final(db)),
        db_rows(*final(db)) == db_committed(*final(db)),
        r is Ok ==> ids_fresh(db_rows(*old(db)), rows_model(rows@)) && db_rows(*final(db))
            == with_rows(db_rows(*old(db)), rows_model(rows@)),
        r is Err ==> db_rows(*final(db)) == db_rows(*old(db)),
        rows@.len() == 0 ==> r is Ok,
{
    let n = rows.len();
    if n == 0 {
        proof {
            assert(rows_model(rows@) =~= Seq::<(int, Seq<char>)>::empty());
        }
        return Ok(());
    }
    let mut ids: Vec<i64> = Vec::new();
    let mut names: Vec<String> = Vec::new();
    let mut i: usize = 0;
    while i < n
        invariant
            i <= n,
            ids@.len() == i,
            names@.len() == i,
            forall|k: int|
                0 <= k < i ==> (#[trigger] ids@[k]) == rows@[k].id as i64 && names@[k]@
                    == rows@[k].name@,
        decreases n - i,
    {
        let row = vstd::slice::slice_index_get(rows, i);
        ids.push(row.id as i64);
        names.push(row.name.clone());
        i = i + 1;
    }
    proof {
        assert(crate::db::pairs_model(ids@, names@) =~= rows_model(rows@));
    }
    let ghost m0 = db_rows(*old(db));
    if let Err(e) = begin(db) {
        return Err(e);
    }
    let sql =
        "INSERT INTO test (id, name) SELECT * FROM rarray(?) AS a CROSS JOIN rarray(?) AS b ON a.rowid = b.rowid;";
    match exec_insert_arrays(db, sql, &ids, &names) {
        Ok(()) => {}
        Err(e) => {
            rollback(db);
            return Err(e);
        }
    }
    match commit(db) {
        Ok(()) => Ok(()),
        Err(e) => {
            rollback(db);
            Err(e)
        }
    }
}

/// Decodes one raw backend row into the row model: the stored id must fit
/// the model's id type, else the row is rejected as undecodable.
pub fn row_from_raw(raw: &RawRow) -> (r: Result<Row, DbError>)
    ensures
        r matches Ok(row) ==> row.id as int == raw.id as int && row.name@ == raw.name@,
        r is Err ==> !(i32::MIN <= raw.id as int <= i32::MAX),
{
    if raw.id >= i32::MIN as i64 && raw.id <= i32::MAX as i64 {
        Ok(Row { id: raw.id as i32, name: raw.name.clone() })
    } else {
        Err(DbError::Marshal(String::from_str("row id out of range")))
    }
}

/// Sorts rows with pairwise-distinct ids into increasing id order by
/// insertion; the result holds exactly the given rows.
#[verifier::loop_isolation(false)]
fn sort_rows(v: Vec<Row>) -> (r: Vec<Row>)
    requires
        forall|k1: int, k2: int|
            0 <= k1 < k2 < v@.len() ==> (#[trigger] v@[k1]).id != (#[trigger] v@[k2]).id,
    ensures
        sorted_by_id(r@),
        r@.len() == v@.len(),
        forall|k: int| 0 <= k < v@.len() ==> r@.contains(#[trigger] v@[k]),
        forall|k: int| 0 <= k < r@.len() ==> v@.contains(#[trigger] r@[k]),
{
    let ghost orig = v@;
    let mut rest = v;
    let mut out: Vec<Row> = Vec::new();
    while rest.len() > 0
        invariant
            rest@ == orig.take(rest@.len() as int),
            out@.len() + rest@.len() == orig.len(),
            sorted_by_id(out@),
            forall|k: int| rest@.len() <= k < orig.len() ==> out@.contains(#[trigger] orig[k]),
            forall|j: int|
                0 <= j < out@.len() ==> exists|k: int|
                    rest@.len() <= k < orig.len() && (#[trigger] out@[j]) == orig[k],
        decreases rest@.len(),
    {
        let ghost l = rest@.len() as int;
        let x = rest.pop().unwrap();
        proof {
            assert(orig.take(l).subrange(0, l - 1) =~= orig.take(l - 1));
            assert(x == orig[l - 1]);
        }
        let mut p: usize = 0;
        while p < out.len() && out[p].id < x.id
            invariant
                p <= out@.len(),
                forall|q: int| 0 <= q < p ==> (#[trigger] out@[q]).id < x.id,
            decreases out@.len() - p,
        {
            p = p + 1;
        }
        proof {
            if (p as int) < out@.len() {
                let k = choose|k: int| l <= k < orig.len() && out@[p as int] == orig[k];
                assert(out@[p as int].id != x.id);
                assert(out@[p as int].id > x.id);
            }
        }
        let ghost old_out = out@;
        out.insert(p, x);
        proof {
            old_out.insert_ensures(p as int, x);
            assert forall|j1: int, j2: int| 0 <= j1 < j2 < out@.len() implies (
            #[trigger] out@[j1]).id < (#[trigger] out@[j2]).id by {
                if j2 <= p as int {
                } else if j1 >= p as int {
                    if j1 == p as int {
                        assert(out@[j2] == old_out[j2 - 1]);
                    }
                } else {
                    assert(out@[j1] == old_out[j1]);
                }
            }
            assert forall|k: int| rest@.len() <= k < orig.len() implies out@.contains(
                #[trigger] orig[k],
            ) by {
                if k == l - 1 {
                    assert(out@[p as int] == orig[k]);
                } else {
                    let j = choose|j: int| 0 <= j < old_out.len() && old_out[j] == orig[k];
                    if j < p as int {
                        assert(out@[j] == orig[k]);
                    } else {
                        assert(out@[j + 1] == orig[k]);
                    }
                }
            }
            assert forall|j: int| 0 <= j < out@.len() implies exists|k: int|
                rest@.len() <= k < orig.len() && (#[trigger] out@[j]) == orig[k] by {
                if j == p as int {
                    assert(out@[j] == orig[l - 1]);
                } else if j < p as int {
                    assert(out@[j] == old_out[j]);
                } else {
                    assert(out@[j] == old_out[j - 1]);
                }
            }
        }
    }
    proof {
        assert forall|k: int| 0 <= k < orig.len() implies out@.contains(#[trigger] orig[k]) by {}
        assert forall|k: int| 0 <= k < out@.len() implies orig.contains(#[trigger] out@[k]) by {
            let j = choose|j: int| 0 <= j < orig.len() && out@[k] == orig[j];
            assert(orig[j] == out@[k]);
        }
    }
    out
}

/// Transfers the raw result characterisation through marshalling and
/// sorting: the sorted, decoded rows answer the query exactly.
proof fn lemma_query_transfer(
    m: TableModel,
    ids: Seq<int>,
    raw: Seq<RawRow>,
    decoded: Seq<Row>,
    out: Seq<Row>,
)
    requires
        crate::db::raw_matches(m, ids, raw),
        decoded.len() == raw.len(),
        forall|k: int|
            0 <= k < raw.len() ==> (#[trigger] decoded[k]).id as int == raw[k].id as int
                && decoded[k].name@ == raw[k].name@,
        out.len() == decoded.len(),
        sorted_by_id(out),
        forall|k: int| 0 <= k < decoded.len() ==> out.contains(#[trigger] decoded[k]),
        forall|k: int| 0 <= k < out.len() ==> decoded.contains(#[trigger] out[k]),
    ensures
        query_matches(m, ids, out),
{
    assert forall|k: int| 0 <= k < out.len() implies {
        let r = #[trigger] out[k];
        &&& m.contains_key(r.id as int)
        &&& m[r.id as int] == r.name@
        &&& ids.contains(r.id as int)
    } by {
        let j = choose|j: int| 0 <= j < decoded.len() && decoded[j] == out[k];
        assert(raw[j].id as int == out[k].id as int && raw[j].name@ == out[k].name@);
    }
    assert forall|i: int| #[trigger]
        ids.contains(i) && m.contains_key(i) implies exists|k: int|
        0 <= k < out.len() && (#[trigger] out[k]).id == i by {
        let k = choose|k: int| 0 <= k < raw.len() && (#[trigger] raw[k]).id == i;
        let j = choose|j: int| 0 <= j < out.len() && out[j] == decoded[k];
        assert(out[j].id as int == i);
        assert(out[j].id == i);
    }
    assert forall|k1: int, k2: int| 0 <= k1 < k2 < out.len() implies (#[trigger] out[k1]).id != (
    #[trigger] out[k2]).id by {
        assert(out[k1].id < out[k2].id);
    }
}

/// The placeholder-list query strategy: an `IN` predicate sized exactly to
/// the id count, the result marshalled into the row model and sorted by the
/// row ordering. An empty id list returns an empty result without touching
/// the store.
#[verifier::loop_isolation(false)]
pub fn query_one(db: &rusqlite::Connection, ids: &[i32]) -> (r: Result<Vec<Row>, DbError>)
    requires
        db_ready(*db),
    ensures
        r matches Ok(v) ==> query_matches(db_rows(*db), ids_model(ids@), v@) && sorted_by_id(v@),
        r matches Ok(v) ==> (ids@.len() == 0 ==> v@.len() == 0),
        ids@.len() == 0 ==> r is Ok,
{
    let n = ids.len();
    if n == 0 {
        let out: Vec<Row> = Vec::new();
        return Ok(out);
    }
    let mut params: Vec<Param> = Vec::new();
    let mut i: usize = 0;
    while i < n
        invariant
            i <= n,
            n == ids@.len(),
            params@.len() == i,
            forall|k: int| 0 <= k < i ==> (#[trigger] params@[k]) is Int,
            forall|k: int| 0 <= k < i ==> (#[trigger] params@[k])->Int_0 == ids@[k] as i64,
        decreases n - i,
    {
        let id = *vstd::slice::slice_index_get(ids, i);
        params.push(Param::Int(id as i64));
        i = i + 1;
    }
    proof {
        assert(crate::db::int_params(params@) =~= ids_model(ids@));
    }
    let mut sql = String::from_str("SELECT id, name FROM test WHERE id IN (");
    let ph = separated("?", n);
    sql.append(ph.as_str());
    sql.append(");");
    let raw = match query_rows(db, sql.as_str(), &params) {
        Ok(v) => v,
        Err(e) => return Err(e),
    };
    marshal_and_sort(db, Ghost(ids_model(ids@)), raw)
}

/// The set-oriented query strategy: the id list is bound as one
/// relation-valued parameter, with the same marshalling and ordering
/// postcondition as the placeholder-list strategy.
#[verifier::loop_isolation(false)]
pub fn query_array(db: &rusqlite::Connection, ids: &[i32]) -> (r: Result<Vec<Row>, DbError>)
    requires
        db_ready(*db),
    ensures
        r matches Ok(v) ==> query_matches(db_rows(*db), ids_model(ids@), v@) && sorted_by_id(v@),
        r matches Ok(v) ==> (ids@.len() == 0 ==> v@.len() == 0),
        ids@.len() == 0 ==> r is Ok,
{
    let n = ids.len();
    if n == 0 {
        let out: Vec<Row> = Vec::new();
        return Ok(out);
    }
    let mut bound: Vec<i64> = Vec::new();
    let mut i: usize = 0;
    while i < n
        invariant
            i <= n,
            n == ids@.len(),
            bound@.len() == i,
            forall|k: int| 0 <= k < i ==> (#[trigger] bound@[k]) == ids@[k] as i64,
        decreases n - i,
    {
        let id = *vstd::slice::slice_index_get(ids, i);
        bound.push(id as i64);
        i = i + 1;
    }
    proof {
        assert(bound@.map_values(|i: i64| i as int) =~= ids_model(ids@));
    }
    let sql = "SELECT id, name FROM test WHERE id IN rarray(?);";
    let raw = match query_rows_array(db, sql, &bound) {
        Ok(v) => v,
        Err(e) => return Err(e),
    };
    marshal_and_sort(db, Ghost(ids_model(ids@)), raw)
}

/// Decodes every raw row and sorts the result by the row ordering; shared
/// tail of both query strategies. It fails only when a raw row really is
/// undecodable (its id outside the row model's range): after a successful
/// backend read of in-range ids, post-processing never invents a failure.
#[verifier::loop_isolation(false)]
fn marshal_and_sort(db: &rusqlite::Connection, ids: Ghost<Seq<int>>, raw: Vec<RawRow>) -> (r:
    Result<Vec<Row>, DbError>)
    requires
        crate::db::raw_matches(db_rows(*db), ids@, raw@),
    ensures
        r matches Ok(v) ==> query_matches(db_rows(*db), ids@, v@) && sorted_by_id(v@),
        r is Err ==> exists|k: int|
            0 <= k < raw@.len() && !(i32::MIN <= (#[trigger] raw@[k]).id as int <= i32::MAX),
{
    let n = raw.len();
    let mut decoded: Vec<Row> = Vec::new();
    let mut i: usize = 0;
    while i < n
        invariant
            i <= n,
            n == raw@.len(),
            decoded@.len() == i,
            forall|k: int|
                0 <= k < i ==> (#[trigger] decoded@[k]).id as int == raw@[k].id as int
                    && decoded@[k].name@ == raw@[k].name@,
        decreases n - i,
    {
        let row = match row_from_raw(&raw[i]) {
            Ok(row) => row,
            Err(e) => {
                proof {
                    assert(!(i32::MIN <= raw@[i as int].id as int <= i32::MAX));
                }
                return Err(e);
            }
        };
        decoded.push(row);
        i = i + 1;
    }
    proof {
        assert forall|k1: int, k2: int| 0 <= k1 < k2 < decoded@.len() implies (
        #[trigger] decoded@[k1]).id != (#[trigger] decoded@[k2]).id by {
            assert(raw@[k1].id != raw@[k2].id);
        }
    }
    let out = sort_rows(decoded);
    proof {
        lemma_query_transfer(db_rows(*db), ids@, raw@, decoded@, out@);
    }
    Ok(out)
}

} // verus!
