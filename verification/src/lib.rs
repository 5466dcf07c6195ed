//! Bulk transfer of rows into and out of a relational store.
//!
//! Three loader strategies (single-row, chunked-batch, set-oriented) and two
//! query strategies (placeholder list, set-oriented) move `Row` records in and
//! out of a working table. The SQL placeholder text, the chunk plan, the
//! parameter marshalling and the deterministic ordering of query results are
//! verified; the store itself is reached through a small set of trusted
//! wrappers around `rusqlite`.

use vstd::prelude::*;

pub mod chunk;
pub mod db;
pub mod model;
pub mod sqlite;
pub mod text;

verus! {

/// One record moved between memory and the store: a caller-assigned unique id
/// and a text payload. Ordered first by id, then by name, so query results
/// can be returned deterministically.
#[derive(Debug, Clone)]
pub struct Row {
    pub id: i32,
    pub name: String,
}

impl PartialEq for Row {
    fn eq(&self, other: &Row) -> (r: bool) {
        self.id == other.id && self.name == other.name
    }
}

impl vstd::std_specs::cmp::PartialEqSpecImpl for Row {
    open spec fn obeys_eq_spec() -> bool {
        true
    }

    open spec fn eq_spec(&self, other: &Row) -> bool {
        self.id == other.id && self.name@ == other.name@
    }
}

/// Text consisting of `n` copies of `s` separated by `", "`.
pub open spec fn sep_text(s: Seq<char>, n: nat) -> Seq<char>
    decreases n,
{
    if n == 0 {
        Seq::empty()
    } else if n == 1 {
        s
    } else {
        sep_text(s, (n - 1) as nat) + ", "@ + s
    }
}

/// Builds `n` copies of `s` separated by `", "`; the shape of a SQLite
/// placeholder list (`s == "?"` or `s == "(?, ?)"`).
pub fn separated(s: &str, n: usize) -> (r: String)
    ensures
        r@ == sep_text(s@, n as nat),
        n == 0 ==> r@ == Seq::<char>::empty(),
{
    let mut l = String::new();
    let mut i: usize = 0;
    while i < n
        invariant
            i <= n,
            l@ == sep_text(s@, i as nat),
        decreases n - i,
    {
        if i > 0 {
            l.append(", ");
        }
        l.append(s);
        proof {
            if i == 0 {
                assert(Seq::<char>::empty() + s@ =~= s@);
            }
        }
        i = i + 1;
    }
    l
}

} // verus!
