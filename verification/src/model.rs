//! Mathematical model of the working table and of row sequences.
//!
//! The store is modelled as a map from id to name text. Loader strategies
//! extend that map; query strategies are characterised against it.

use vstd::prelude::*;
use crate::Row;

verus! {

/// Abstract contents of the working table: each stored id mapped to its name.
pub type TableModel = Map<int, Seq<char>>;

/// The model of one row: its id and the characters of its name.
pub open spec fn row_model(r: Row) -> (int, Seq<char>) {
    (r.id as int, r.name@)
}

/// The model of a row sequence, in order.
pub open spec fn rows_model(rs: Seq<Row>) -> Seq<(int, Seq<char>)> {
    rs.map_values(|r: Row| row_model(r))
}

/// An id sequence as mathematical integers.
pub open spec fn ids_model(ids: Seq<i32>) -> Seq<int> {
    ids.map_values(|i: i32| i as int)
}

/// The table after inserting the pairs of `ps` in order (later pairs win).
pub open spec fn with_rows(m: TableModel, ps: Seq<(int, Seq<char>)>) -> TableModel
    decreases ps.len(),
{
    if ps.len() == 0 {
        m
    } else {
        with_rows(m, ps.drop_last()).insert(ps.last().0, ps.last().1)
    }
}

/// No id of `ps` is already stored in `m`, and the ids of `ps` are pairwise
/// distinct: the condition under which a batch insert violates no key
/// constraint.
pub open spec fn ids_fresh(m: TableModel, ps: Seq<(int, Seq<char>)>) -> bool {
    &&& forall|k: int| 0 <= k < ps.len() ==> !m.contains_key((#[trigger] ps[k]).0)
    &&& forall|k1: int, k2: int|
        0 <= k1 < k2 < ps.len() ==> (#[trigger] ps[k1]).0 != (#[trigger] ps[k2]).0
}

/// Membership in the table after a batch insert: an id is stored afterwards
/// iff it was stored before or occurs in the batch, and ids outside the batch
/// keep their old name.
pub proof fn lemma_with_rows_lookup(m: TableModel, ps: Seq<(int, Seq<char>)>, i: int)
    ensures
        with_rows(m, ps).contains_key(i) <==> (m.contains_key(i) || exists|k: int|
            0 <= k < ps.len() && (#[trigger] ps[k]).0 == i),
        (forall|k: int| 0 <= k < ps.len() ==> (#[trigger] ps[k]).0 != i) ==> {
            &&& with_rows(m, ps).contains_key(i) == m.contains_key(i)
            &&& m.contains_key(i) ==> with_rows(m, ps)[i] == m[i]
        },
    decreases ps.len(),
{
    if ps.len() > 0 {
        lemma_with_rows_lookup(m, ps.drop_last(), i);
        assert(forall|k: int|
            0 <= k < ps.len() - 1 ==> (#[trigger] ps.drop_last()[k]) == ps[k]);
        if with_rows(m, ps).contains_key(i) && i != ps.last().0 && !m.contains_key(i) {
            let k = choose|k: int| 0 <= k < ps.drop_last().len() && (#[trigger] ps.drop_last()[k]).0 == i;
            assert(0 <= k < ps.len() && ps[k].0 == i);
        }
        if exists|k: int| 0 <= k < ps.len() && (#[trigger] ps[k]).0 == i {
            let k = choose|k: int| 0 <= k < ps.len() && (#[trigger] ps[k]).0 == i;
            if k < ps.len() - 1 {
                assert(ps.drop_last()[k].0 == i);
            }
        }
    }
}

/// After a batch insert with pairwise-distinct ids, each inserted id is
/// stored with exactly the name it was inserted with.
pub proof fn lemma_with_rows_value(m: TableModel, ps: Seq<(int, Seq<char>)>, k: int)
    requires
        0 <= k < ps.len(),
        forall|k1: int, k2: int|
            0 <= k1 < k2 < ps.len() ==> (#[trigger] ps[k1]).0 != (#[trigger] ps[k2]).0,
    ensures
        with_rows(m, ps).contains_key(ps[k].0),
        with_rows(m, ps)[ps[k].0] == ps[k].1,
    decreases ps.len(),
{
    if k == ps.len() - 1 {
    } else {
        assert(forall|j: int|
            0 <= j < ps.len() - 1 ==> (#[trigger] ps.drop_last()[j]) == ps[j]);
        lemma_with_rows_value(m, ps.drop_last(), k);
        assert(ps.last().0 != ps[k].0);
    }
}

/// Batch inserts compose: inserting `a + b` is inserting `a`, then `b`.
pub proof fn lemma_with_rows_concat(m: TableModel, a: Seq<(int, Seq<char>)>, b: Seq<(int, Seq<char>)>)
    ensures
        with_rows(m, a + b) == with_rows(with_rows(m, a), b),
    decreases b.len(),
{
    if b.len() == 0 {
        assert(a + b =~= a);
    } else {
        assert((a + b).drop_last() =~= a + b.drop_last());
        assert((a + b).last() == b.last());
        lemma_with_rows_concat(m, a, b.drop_last());
    }
}

/// Freshness splits across a concatenation: `a + b` is fresh for `m` exactly
/// when `a` is fresh for `m` and `b` is fresh for the table after `a`.
pub proof fn lemma_fresh_split(m: TableModel, a: Seq<(int, Seq<char>)>, b: Seq<(int, Seq<char>)>)
    ensures
        ids_fresh(m, a + b) <==> (ids_fresh(m, a) && ids_fresh(with_rows(m, a), b)),
{
    assert(forall|k: int| 0 <= k < a.len() ==> (#[trigger] (a + b)[k]) == a[k]);
    assert(forall|k: int|
        a.len() <= k < a.len() + b.len() ==> (#[trigger] (a + b)[k]) == b[k - a.len()]);
    if ids_fresh(m, a + b) {
        assert forall|k: int| 0 <= k < b.len() implies !with_rows(m, a).contains_key(
            (#[trigger] b[k]).0,
        ) by {
            lemma_with_rows_lookup(m, a, b[k].0);
            assert((a + b)[a.len() + k] == b[k]);
            if with_rows(m, a).contains_key(b[k].0) {
                if m.contains_key(b[k].0) {
                    assert(false);
                } else {
                    let j = choose|j: int| 0 <= j < a.len() && (#[trigger] a[j]).0 == b[k].0;
                    assert((a + b)[j] == a[j]);
                    assert((a + b)[j].0 == (a + b)[a.len() + k].0);
                    assert(false);
                }
            }
        }
        assert forall|k1: int, k2: int| 0 <= k1 < k2 < b.len() implies (#[trigger] b[k1]).0
            != (#[trigger] b[k2]).0 by {
            assert((a + b)[a.len() + k1] == b[k1]);
            assert((a + b)[a.len() + k2] == b[k2]);
        }
        assert forall|k: int| 0 <= k < a.len() implies !m.contains_key((#[trigger] a[k]).0) by {
            assert((a + b)[k] == a[k]);
        }
        assert forall|k1: int, k2: int| 0 <= k1 < k2 < a.len() implies (#[trigger] a[k1]).0
            != (#[trigger] a[k2]).0 by {
            assert((a + b)[k1] == a[k1]);
            assert((a + b)[k2] == a[k2]);
        }
    }
    if ids_fresh(m, a) && ids_fresh(with_rows(m, a), b) {
        assert forall|k: int| 0 <= k < (a + b).len() implies !m.contains_key(
            (#[trigger] (a + b)[k]).0,
        ) by {
            if k >= a.len() {
                lemma_with_rows_lookup(m, a, b[k - a.len()].0);
                assert(!with_rows(m, a).contains_key(b[k - a.len()].0));
            }
        }
        assert forall|k1: int, k2: int|
            0 <= k1 < k2 < (a + b).len() implies (#[trigger] (a + b)[k1]).0 != (#[trigger] (a
            + b)[k2]).0 by {
            if k1 < a.len() && k2 >= a.len() {
                lemma_with_rows_lookup(m, a, a[k1].0);
                if a[k1].0 == b[k2 - a.len()].0 {
                    assert(exists|j: int| 0 <= j < a.len() && (#[trigger] a[j]).0 == a[k1].0);
                    assert(with_rows(m, a).contains_key(b[k2 - a.len()].0));
                    assert(false);
                }
            }
        }
    }
}

/// Rows in strictly increasing id order; with pairwise-distinct ids this is
/// the (id, name) ordering of the row model.
pub open spec fn sorted_by_id(rs: Seq<Row>) -> bool {
    forall|k1: int, k2: int|
        0 <= k1 < k2 < rs.len() ==> (#[trigger] rs[k1]).id < (#[trigger] rs[k2]).id
}

/// What a query strategy must return for the id set `ids` against table `m`:
/// every returned row is stored under a requested id with its stored name,
/// every requested id that is stored is returned, and no id is returned
/// twice. Together with `sorted_by_id` this pins the result sequence down
/// completely.
pub open spec fn query_matches(m: TableModel, ids: Seq<int>, out: Seq<Row>) -> bool {
    &&& forall|k: int| 0 <= k < out.len() ==> {
        let r = #[trigger] out[k];
        &&& m.contains_key(r.id as int)
        &&& m[r.id as int] == r.name@
        &&& ids.contains(r.id as int)
    }
    &&& forall|i: int| #[trigger]
        ids.contains(i) && m.contains_key(i) ==> exists|k: int|
            0 <= k < out.len() && (#[trigger] out[k]).id == i
    &&& forall|k1: int, k2: int|
        0 <= k1 < k2 < out.len() ==> (#[trigger] out[k1]).id != (#[trigger] out[k2]).id
}

/// The ids of a row sequence, in order.
pub open spec fn row_ids(rs: Seq<Row>) -> Seq<int> {
    rs.map_values(|r: Row| r.id as int)
}

/// Two strictly increasing integer sequences with the same members are
/// equal.
proof fn lemma_strict_sorted_same_membership(x: Seq<int>, y: Seq<int>)
    requires
        forall|k1: int, k2: int| 0 <= k1 < k2 < x.len() ==> #[trigger] x[k1] < #[trigger] x[k2],
        forall|k1: int, k2: int| 0 <= k1 < k2 < y.len() ==> #[trigger] y[k1] < #[trigger] y[k2],
        forall|i: int| x.contains(i) <==> y.contains(i),
    ensures
        x =~= y,
    decreases x.len(),
{
    if x.len() == 0 {
        if y.len() > 0 {
            assert(y.contains(y[0]));
            assert(false);
        }
    } else {
        assert(x.contains(x[0]));
        assert(y.contains(x[0]));
        assert(y.len() > 0);
        let j = choose|j: int| 0 <= j < y.len() && y[j] == x[0];
        if j > 0 {
            assert(y[0] < y[j]);
        }
        assert(y[0] <= x[0]);
        assert(y.contains(y[0]));
        assert(x.contains(y[0]));
        let k = choose|k: int| 0 <= k < x.len() && x[k] == y[0];
        if k > 0 {
            assert(x[0] < x[k]);
        }
        assert(x[0] <= y[0]);
        assert(x[0] == y[0]);
        let xt = x.drop_first();
        let yt = y.drop_first();
        assert forall|i: int| xt.contains(i) implies yt.contains(i) by {
            let k = choose|k: int| 0 <= k < xt.len() && xt[k] == i;
            assert(x[k + 1] == i);
            assert(i > x[0]);
            assert(x.contains(i));
            let j = choose|j: int| 0 <= j < y.len() && y[j] == i;
            assert(j != 0);
            assert(yt[j - 1] == i);
        }
        assert forall|i: int| yt.contains(i) implies xt.contains(i) by {
            let k = choose|k: int| 0 <= k < yt.len() && yt[k] == i;
            assert(y[k + 1] == i);
            assert(i > y[0]);
            assert(y.contains(i));
            let j = choose|j: int| 0 <= j < x.len() && x[j] == i;
            assert(j != 0);
            assert(xt[j - 1] == i);
        }
        lemma_strict_sorted_same_membership(xt, yt);
        assert forall|k: int| 0 <= k < x.len() implies x[k] == y[k] by {
            if k > 0 {
                assert(xt[k - 1] == yt[k - 1]);
            }
        }
    }
}

/// Query strategy equivalence: against one table state and one id list, any
/// two sorted results that answer the query are the same sequence of ids and
/// names.
pub proof fn lemma_query_deterministic(m: TableModel, ids: Seq<int>, a: Seq<Row>, b: Seq<Row>)
    requires
        query_matches(m, ids, a),
        sorted_by_id(a),
        query_matches(m, ids, b),
        sorted_by_id(b),
    ensures
        a.len() == b.len(),
        forall|k: int|
            0 <= k < a.len() ==> (#[trigger] a[k]).id == b[k].id && a[k].name@ == b[k].name@,
{
    let ai = a.map_values(|r: Row| r.id as int);
    let bi = b.map_values(|r: Row| r.id as int);
    assert forall|i: int| ai.contains(i) implies bi.contains(i) by {
        let k = choose|k: int| 0 <= k < ai.len() && ai[k] == i;
        assert(a[k].id as int == i);
        assert(ids.contains(i) && m.contains_key(i));
        let j = choose|j: int| 0 <= j < b.len() && (#[trigger] b[j]).id == i;
        assert(bi[j] == i);
    }
    assert forall|i: int| bi.contains(i) implies ai.contains(i) by {
        let k = choose|k: int| 0 <= k < bi.len() && bi[k] == i;
        assert(b[k].id as int == i);
        assert(ids.contains(i) && m.contains_key(i));
        let j = choose|j: int| 0 <= j < a.len() && (#[trigger] a[j]).id == i;
        assert(ai[j] == i);
    }
    lemma_strict_sorted_same_membership(ai, bi);
    assert forall|k: int| 0 <= k < a.len() implies (#[trigger] a[k]).id == b[k].id && a[k].name@
        == b[k].name@ by {
        assert(ai[k] == bi[k]);
        assert(a[k].id == b[k].id);
        assert(a[k].name@ == m[a[k].id as int]);
        assert(b[k].name@ == m[b[k].id as int]);
    }
}

/// Round trip: rows with pairwise-distinct ids inserted into an empty table
/// and queried back by their full id set come back as exactly those rows —
/// the same length, and the same (id, name) pairs in both directions — in
/// sorted id order.
pub proof fn lemma_round_trip(rows: Seq<Row>, out: Seq<Row>)
    requires
        ids_fresh(Map::empty(), rows_model(rows)),
        query_matches(with_rows(Map::empty(), rows_model(rows)), row_ids(rows), out),
        sorted_by_id(out),
    ensures
        out.len() == rows.len(),
        forall|j: int|
            0 <= j < out.len() ==> exists|k: int|
                0 <= k < rows.len() && (#[trigger] out[j]).id == rows[k].id && out[j].name@
                    == rows[k].name@,
        forall|k: int|
            0 <= k < rows.len() ==> exists|j: int|
                0 <= j < out.len() && (#[trigger] rows[k]).id == out[j].id && rows[k].name@
                    == out[j].name@,
{
    let rm = rows_model(rows);
    let m = with_rows(Map::<int, Seq<char>>::empty(), rm);
    assert forall|i: int| #[trigger] m.contains_key(i) implies exists|k: int|
        0 <= k < rows.len() && rows[k].id as int == i by {
        lemma_with_rows_lookup(Map::empty(), rm, i);
        let k = choose|k: int| 0 <= k < rm.len() && (#[trigger] rm[k]).0 == i;
        assert(rows[k].id as int == i);
    }
    assert forall|k: int| 0 <= k < rows.len() implies m.contains_key(
        #[trigger] rows[k].id as int,
    ) && m[rows[k].id as int] == rows[k].name@ by {
        lemma_with_rows_value(Map::empty(), rm, k);
        assert(rm[k].0 == rows[k].id as int && rm[k].1 == rows[k].name@);
    }
    assert forall|j: int| 0 <= j < out.len() implies exists|k: int|
        0 <= k < rows.len() && (#[trigger] out[j]).id == rows[k].id && out[j].name@
            == rows[k].name@ by {
        assert(m.contains_key(out[j].id as int));
        let k = choose|k: int| 0 <= k < rows.len() && (#[trigger] rows[k]).id as int == out[j].id
            as int;
        assert(m[rows[k].id as int] == rows[k].name@);
        assert(out[j].name@ == m[out[j].id as int]);
        assert(out[j].id == rows[k].id && out[j].name@ == rows[k].name@);
    }
    assert forall|k: int| 0 <= k < rows.len() implies exists|j: int|
        0 <= j < out.len() && (#[trigger] rows[k]).id == out[j].id && rows[k].name@
            == out[j].name@ by {
        let i = rows[k].id as int;
        assert(row_ids(rows)[k] == i);
        assert(row_ids(rows).contains(i));
        assert(m.contains_key(i));
        let j = choose|j: int| 0 <= j < out.len() && (#[trigger] out[j]).id == i;
        assert(out[j].name@ == m[i]);
        assert(rows[k].name@ == m[i]);
    }
    let oi = out.map_values(|r: Row| r.id as int);
    let ri = row_ids(rows);
    assert(oi.no_duplicates()) by {
        assert forall|k1: int, k2: int|
            0 <= k1 < oi.len() && 0 <= k2 < oi.len() && k1 != k2 implies oi[k1] != oi[k2] by {
            assert(out[k1].id != out[k2].id);
        }
    }
    assert(ri.no_duplicates()) by {
        assert forall|k1: int, k2: int|
            0 <= k1 < ri.len() && 0 <= k2 < ri.len() && k1 != k2 implies ri[k1] != ri[k2] by {
            assert(rm[k1].0 != rm[k2].0);
            assert(rm[k1].0 == rows[k1].id as int && rm[k2].0 == rows[k2].id as int);
        }
    }
    assert forall|i: int| oi.contains(i) implies ri.contains(i) by {
        let j = choose|j: int| 0 <= j < oi.len() && oi[j] == i;
        let k = choose|k: int|
            0 <= k < rows.len() && (#[trigger] out[j]).id == rows[k].id && out[j].name@
                == rows[k].name@;
        assert(ri[k] == i);
    }
    assert forall|i: int| ri.contains(i) implies oi.contains(i) by {
        let k = choose|k: int| 0 <= k < ri.len() && ri[k] == i;
        let j = choose|j: int|
            0 <= j < out.len() && (#[trigger] rows[k]).id == out[j].id && rows[k].name@
                == out[j].name@;
        assert(oi[j] == i);
    }
    assert(oi.to_set() =~= ri.to_set());
    oi.unique_seq_to_set();
    ri.unique_seq_to_set();
    assert(out.len() == rows.len());
}

} // verus!
