use vstd::prelude::*;
use vstd::arithmetic::div_mod::{lemma_fundamental_div_mod, lemma_mod_bound};
use vstd::arithmetic::mul::{lemma_mul_inequality, lemma_mul_is_distributive_add};
use vstd::math::min;

verus! {

/// Relies on num_cpus::get: the number of logical cores available to
/// the process, documented to always be at least one.
#[verifier::external_body]
pub fn worker_count() -> (n: usize)
    ensures
        1 <= n,
{
    num_cpus::get()
}

/// Chunk size for a target list: the ceiling of `len / workers`.
pub open spec fn chunk_size_spec(len: nat, workers: nat) -> nat
    recommends
        workers >= 1,
{
    ((len + workers - 1) as int / workers as int) as nat
}

/// A sequence cut into consecutive chunks of `cs` elements, the last
/// chunk holding whatever remains.
pub open spec fn spec_chunks(s: Seq<String>, cs: nat) -> Seq<Seq<String>>
    decreases s.len(),
    when cs >= 1
{
    if s.len() == 0 {
        Seq::empty()
    } else if s.len() <= cs {
        seq![s]
    } else {
        seq![s.take(cs as int)] + spec_chunks(s.skip(cs as int), cs)
    }
}

/// The chunks handed to the workers: consecutive runs of the ceiling
/// chunk size, none of them empty.
pub open spec fn spec_partition(s: Seq<String>, workers: nat) -> Seq<Seq<String>> {
    if s.len() == 0 {
        Seq::empty()
    } else {
        spec_chunks(s, chunk_size_spec(s.len(), workers))
    }
}

/// The ceiling chunk size is positive for a non-empty list.
proof fn lemma_cs_pos(len: nat, workers: nat)
    requires
        workers >= 1,
        len >= 1,
    ensures
        chunk_size_spec(len, workers) >= 1,
{
    lemma_fundamental_div_mod((len + workers - 1) as int, workers as int);
    lemma_mod_bound((len + workers - 1) as int, workers as int);
    let q = (len + workers - 1) as int / workers as int;
    if q <= 0 {
        assert(workers * q <= 0) by (nonlinear_arith)
            requires workers >= 1, q <= 0;
        assert(false);
    }
}

proof fn lemma_chunks_props(s: Seq<String>, cs: nat)
    requires
        cs >= 1,
    ensures
        spec_chunks(s, cs).flatten() == s,
        forall|i: int|
            0 <= i < spec_chunks(s, cs).len() ==> 1 <= (#[trigger] spec_chunks(s, cs)[i]).len()
                <= cs,
        spec_chunks(s, cs).len() * cs < s.len() + cs,
    decreases s.len(),
{
    let cks = spec_chunks(s, cs);
    if s.len() == 0 {
        assert(cks.flatten() =~= s);
        assert(cks.len() * cs == 0) by (nonlinear_arith)
            requires cks.len() == 0;
    } else if s.len() <= cs {
        assert(cks == seq![s]);
        assert(cks.flatten() =~= s) by {
            assert(cks.drop_first().flatten() =~= Seq::<String>::empty());
        }
        assert(cks.len() * cs == cs) by (nonlinear_arith)
            requires cks.len() == 1;
    } else {
        let head = s.take(cs as int);
        let tail = s.skip(cs as int);
        lemma_chunks_props(tail, cs);
        let rest = spec_chunks(tail, cs);
        assert(cks == seq![head] + rest);
        assert(cks.drop_first() =~= rest);
        assert(cks.flatten() == head + rest.flatten());
        assert(head + tail =~= s);
        assert(cks.flatten() =~= s);
        assert(cks.len() == rest.len() + 1);
        assert(cks.len() * cs == rest.len() * cs + cs) by (nonlinear_arith)
            requires cks.len() == rest.len() + 1;
        assert(forall|i: int|
            0 <= i < cks.len() ==> 1 <= (#[trigger] cks[i]).len() <= cs) by {
            assert forall|i: int| 0 <= i < cks.len() implies 1 <= (#[trigger] cks[i]).len()
                <= cs by {
                if i > 0 {
                    assert(cks[i] == rest[i - 1]);
                }
            }
        }
    }
}

/// The ceiling chunk size times the worker count covers the whole
/// list.
proof fn lemma_ceil_covers(len: nat, workers: nat)
    requires
        workers >= 1,
    ensures
        workers * chunk_size_spec(len, workers) >= len,
{
    let cs = chunk_size_spec(len, workers) as int;
    lemma_fundamental_div_mod((len + workers - 1) as int, workers as int);
    lemma_mod_bound((len + workers - 1) as int, workers as int);
}

/// The partition law: the chunks concatenate back to exactly the full
/// target list (disjoint and total, every target exactly once), no
/// chunk is empty or larger than the ceiling chunk size, and there
/// are at most `workers` chunks.
pub proof fn lemma_partition_covers(s: Seq<String>, workers: nat)
    requires
        workers >= 1,
    ensures
        spec_partition(s, workers).flatten() == s,
        forall|i: int|
            0 <= i < spec_partition(s, workers).len() ==> 1 <= (#[trigger] spec_partition(
                s,
                workers,
            )[i]).len() <= chunk_size_spec(s.len(), workers),
        spec_partition(s, workers).len() <= workers,
{
    let cs = chunk_size_spec(s.len(), workers);
    if s.len() == 0 {
        assert(spec_partition(s, workers).flatten() =~= s);
    } else {
        lemma_cs_pos(s.len(), workers);
        lemma_chunks_props(s, cs);
        lemma_ceil_covers(s.len(), workers);
        let n = spec_chunks(s, cs).len();
        if n > workers {
            lemma_mul_inequality(workers as int + 1, n as int, cs as int);
            lemma_mul_is_distributive_add(cs as int, workers as int, 1);
            assert((workers + 1) * cs == cs * (workers + 1)) by (nonlinear_arith);
            assert(n * cs >= cs * workers + cs);
            assert(cs * workers == workers * cs) by (nonlinear_arith);
            assert(false);
        }
    }
}

proof fn lemma_chunks_contiguous(s: Seq<String>, cs: nat)
    requires
        cs >= 1,
    ensures
        forall|i: int|
            0 <= i < spec_chunks(s, cs).len() ==> #[trigger] spec_chunks(s, cs)[i] == s.subrange(
                i * cs,
                min((i + 1) * cs, s.len() as int),
            ),
    decreases s.len(),
{
    let cks = spec_chunks(s, cs);
    if s.len() == 0 {
    } else if s.len() <= cs {
        assert forall|i: int| 0 <= i < cks.len() implies #[trigger] cks[i] == s.subrange(
            i * cs,
            min((i + 1) * cs, s.len() as int),
        ) by {
            assert(i == 0);
            assert(s.subrange(0, min(cs as int, s.len() as int)) =~= s);
        }
    } else {
        let tail = s.skip(cs as int);
        lemma_chunks_contiguous(tail, cs);
        assert forall|i: int| 0 <= i < cks.len() implies #[trigger] cks[i] == s.subrange(
            i * cs,
            min((i + 1) * cs, s.len() as int),
        ) by {
            if i == 0 {
                assert(s.take(cs as int) =~= s.subrange(0, min(cs as int, s.len() as int)));
            } else {
                assert(cks[i] == spec_chunks(tail, cs)[i - 1]);
                lemma_chunks_props(tail, cs);
                let n = spec_chunks(tail, cs).len() as int;
                let a = (i - 1) * cs;
                let b = min(i * cs, tail.len() as int);
                assert(a + cs == i * cs && i * cs + cs == (i + 1) * cs) by (nonlinear_arith)
                    requires a == (i - 1) * cs;
                assert(0 <= a) by (nonlinear_arith)
                    requires a == (i - 1) * cs, i >= 1, cs >= 0;
                assert(a <= (n - 1) * cs) by (nonlinear_arith)
                    requires a == (i - 1) * cs, i - 1 <= n - 1, cs >= 0;
                assert((n - 1) * cs < tail.len()) by (nonlinear_arith)
                    requires n * cs < tail.len() + cs;
                assert(spec_chunks(tail, cs)[i - 1] == tail.subrange(a, b));
                assert(tail.subrange(a, b) =~= s.subrange(a + cs, b + cs));
                assert(b + cs == min((i + 1) * cs, s.len() as int));
            }
        }
    }
}

/// The chunks are contiguous and mutually disjoint: chunk `i` is
/// exactly the run of the target list from `i` times the chunk size
/// up to the next chunk's start (or the list's end), so no target
/// lies in two chunks.
pub proof fn lemma_partition_contiguous(s: Seq<String>, workers: nat)
    requires
        workers >= 1,
    ensures
        forall|i: int|
            0 <= i < spec_partition(s, workers).len() ==> #[trigger] spec_partition(s, workers)[i]
                == s.subrange(
                i * chunk_size_spec(s.len(), workers),
                min((i + 1) * chunk_size_spec(s.len(), workers), s.len() as int),
            ),
{
    if s.len() > 0 {
        lemma_cs_pos(s.len(), workers);
        lemma_chunks_contiguous(s, chunk_size_spec(s.len(), workers));
    }
}

/// Cut the target list into consecutive chunks, one per worker, of
/// the ceiling chunk size; workers beyond the list's end receive no
/// chunk.
pub fn partition(targets: Vec<String>, workers: usize) -> (chunks: Vec<Vec<String>>)
    requires
        1 <= workers,
        targets@.len() + workers <= usize::MAX,
    ensures
        chunks@.map_values(|c: Vec<String>| c@) == spec_partition(targets@, workers as nat),
{
    let ghost orig = targets@;
    let len = targets.len();
    let mut chunks: Vec<Vec<String>> = Vec::new();
    if len == 0 {
        proof {
            assert(chunks@.map_values(|c: Vec<String>| c@) =~= spec_partition(
                orig,
                workers as nat,
            ));
        }
        return chunks;
    }
    let cs: usize = (len + workers - 1) / workers;
    proof {
        assert(cs == chunk_size_spec(orig.len(), workers as nat));
        lemma_cs_pos(orig.len(), workers as nat);
    }
    let mut rest = targets;
    while rest.len() > cs
        invariant
            cs == chunk_size_spec(orig.len(), workers as nat),
            1 <= cs,
            1 <= rest@.len(),
            spec_chunks(orig, cs as nat) == chunks@.map_values(|c: Vec<String>| c@)
                + spec_chunks(rest@, cs as nat),
        decreases rest@.len(),
    {
        let ghost pre = rest@;
        let tail = rest.split_off(cs);
        proof {
            assert(rest@ == pre.take(cs as int));
            assert(tail@ == pre.skip(cs as int));
        }
        let ghost done = chunks@.map_values(|c: Vec<String>| c@);
        chunks.push(rest);
        proof {
            assert(chunks@.map_values(|c: Vec<String>| c@) =~= done.push(pre.take(cs as int)));
            assert(done + spec_chunks(pre, cs as nat) =~= done.push(pre.take(cs as int))
                + spec_chunks(pre.skip(cs as int), cs as nat));
        }
        rest = tail;
    }
    let ghost done = chunks@.map_values(|c: Vec<String>| c@);
    let ghost last = rest@;
    chunks.push(rest);
    proof {
        assert(chunks@.map_values(|c: Vec<String>| c@) =~= done.push(last));
        assert(spec_chunks(last, cs as nat) =~= seq![last]);
        assert(done + seq![last] =~= done.push(last));
    }
    chunks
}

} // verus!
