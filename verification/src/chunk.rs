//! The chunk planner: a row sequence split into fixed-size full chunks plus
//! a remainder shorter than the chunk size.

use vstd::prelude::*;
use crate::Row;

verus! {

/// The full chunks of `s` at chunk size `c`: consecutive slices of exactly
/// `c` rows, in original order; `floor(len / c)` of them.
pub open spec fn full_chunks(s: Seq<Row>, c: nat) -> Seq<Seq<Row>>
    decreases s.len(),
{
    if c < 1 || s.len() < c {
        Seq::empty()
    } else {
        seq![s.take(c as int)] + full_chunks(s.skip(c as int), c)
    }
}

/// The remainder of `s` after all full chunks of size `c`: the trailing
/// slice of length `len mod c`, possibly empty.
pub open spec fn chunk_remainder(s: Seq<Row>, c: nat) -> Seq<Row>
    decreases s.len(),
{
    if c < 1 || s.len() < c {
        s
    } else {
        chunk_remainder(s.skip(c as int), c)
    }
}

/// Chunk completeness: the full chunks concatenated, followed by the
/// remainder, reconstruct the original sequence exactly, in order.
pub proof fn lemma_chunks_reconstruct(s: Seq<Row>, c: nat)
    requires
        c >= 1,
    ensures
        full_chunks(s, c).flatten() + chunk_remainder(s, c) == s,
    decreases s.len(),
{
    if s.len() < c {
        assert(full_chunks(s, c).flatten() =~= Seq::<Row>::empty());
        assert(full_chunks(s, c).flatten() + chunk_remainder(s, c) =~= s);
    } else {
        let head = s.take(c as int);
        let tail = s.skip(c as int);
        lemma_chunks_reconstruct(tail, c);
        let rest = full_chunks(tail, c);
        assert((seq![head] + rest).drop_first() =~= rest);
        assert((seq![head] + rest).first() == head);
        assert(full_chunks(s, c).flatten() == head + rest.flatten());
        assert(head + rest.flatten() + chunk_remainder(tail, c) =~= head + (rest.flatten()
            + chunk_remainder(tail, c)));
        assert(head + tail =~= s);
        assert(full_chunks(s, c).flatten() + chunk_remainder(s, c) =~= s);
    }
}

/// The remainder is always shorter than the chunk size.
pub proof fn lemma_remainder_short(s: Seq<Row>, c: nat)
    requires
        c >= 1,
    ensures
        chunk_remainder(s, c).len() < c,
    decreases s.len(),
{
    if s.len() >= c {
        lemma_remainder_short(s.skip(c as int), c);
    }
}

/// The shape of the plan: `floor(len / c)` full chunks of exactly `c` rows
/// each, and a remainder of exactly `len mod c` rows.
pub proof fn lemma_chunk_counts(s: Seq<Row>, c: nat)
    requires
        c >= 1,
    ensures
        full_chunks(s, c).len() == s.len() as int / c as int,
        forall|i: int|
            0 <= i < full_chunks(s, c).len() ==> (#[trigger] full_chunks(s, c)[i]).len() == c,
        chunk_remainder(s, c).len() == s.len() as int % c as int,
    decreases s.len(),
{
    if s.len() < c {
        vstd::arithmetic::div_mod::lemma_basic_div(s.len() as int, c as int);
        vstd::arithmetic::div_mod::lemma_small_mod(s.len(), c);
    } else {
        let tail = s.skip(c as int);
        lemma_chunk_counts(tail, c);
        vstd::arithmetic::div_mod::lemma_div_plus_one(tail.len() as int, c as int);
        vstd::arithmetic::div_mod::lemma_mod_sub_multiples_vanish(s.len() as int, c as int);
        let whole = full_chunks(s, c);
        let rest = full_chunks(tail, c);
        assert(whole == seq![s.take(c as int)] + rest);
        assert forall|i: int| 0 <= i < whole.len() implies (#[trigger] whole[i]).len() == c by {
            if i == 0 {
                assert(whole[0] == s.take(c as int));
            } else {
                assert(whole[i] == rest[i - 1]);
            }
        }
    }
}

} // verus!
