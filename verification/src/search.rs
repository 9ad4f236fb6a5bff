use vstd::prelude::*;

verus! {

/// The pattern occurs in the data starting exactly at offset `i`.
pub open spec fn is_match_at(data: Seq<u8>, pat: Seq<u8>, i: int) -> bool {
    0 <= i && i + pat.len() <= data.len() && data.subrange(i, i + pat.len()) == pat
}

/// The ascending offsets below `n` at which the pattern occurs.
pub open spec fn offsets_up_to(data: Seq<u8>, pat: Seq<u8>, n: nat) -> Seq<int>
    decreases n,
{
    if n == 0 {
        Seq::empty()
    } else {
        let prev = offsets_up_to(data, pat, (n - 1) as nat);
        if is_match_at(data, pat, n - 1) {
            prev.push(n - 1)
        } else {
            prev
        }
    }
}

/// Every offset at which the pattern occurs in the data, in ascending
/// order.
pub open spec fn match_offsets(data: Seq<u8>, pat: Seq<u8>) -> Seq<int> {
    if pat.len() <= data.len() {
        offsets_up_to(data, pat, (data.len() - pat.len() + 1) as nat)
    } else {
        Seq::empty()
    }
}

/// A pattern longer than the data yields no matches at all, never an
/// error.
pub proof fn lemma_long_pattern_no_match(data: Seq<u8>, pat: Seq<u8>)
    requires
        pat.len() > data.len(),
    ensures
        match_offsets(data, pat) == Seq::<int>::empty(),
{
}

proof fn lemma_offsets_up_to_props(data: Seq<u8>, pat: Seq<u8>, n: nat)
    ensures
        forall|k: int|
            0 <= k < offsets_up_to(data, pat, n).len() ==> 0 <= #[trigger] offsets_up_to(
                data,
                pat,
                n,
            )[k] < n && is_match_at(data, pat, offsets_up_to(data, pat, n)[k]),
        forall|i: int| 0 <= i < n && is_match_at(data, pat, i) ==> offsets_up_to(
            data,
            pat,
            n,
        ).contains(i),
        forall|k1: int, k2: int|
            0 <= k1 < k2 < offsets_up_to(data, pat, n).len() ==> offsets_up_to(data, pat, n)[k1]
                < offsets_up_to(data, pat, n)[k2],
    decreases n,
{
    if n > 0 {
        lemma_offsets_up_to_props(data, pat, (n - 1) as nat);
        let prev = offsets_up_to(data, pat, (n - 1) as nat);
        let cur = offsets_up_to(data, pat, n);
        assert forall|i: int| 0 <= i < n && is_match_at(data, pat, i) implies cur.contains(i) by {
            if i < n - 1 {
                assert(prev.contains(i));
                let w = choose|w: int| 0 <= w < prev.len() && prev[w] == i;
                assert(cur[w] == i);
            } else {
                assert(cur.last() == i);
            }
        }
    }
}

/// The match-offset list is exact: it holds nothing but offsets at
/// which the pattern occurs, it misses none of them, and it is
/// strictly ascending.
pub proof fn lemma_match_offsets_exact(data: Seq<u8>, pat: Seq<u8>)
    requires
        pat.len() >= 1,
    ensures
        forall|k: int|
            0 <= k < match_offsets(data, pat).len() ==> is_match_at(
                data,
                pat,
                #[trigger] match_offsets(data, pat)[k],
            ),
        forall|i: int| is_match_at(data, pat, i) ==> match_offsets(data, pat).contains(i),
        forall|k1: int, k2: int|
            0 <= k1 < k2 < match_offsets(data, pat).len() ==> match_offsets(data, pat)[k1]
                < match_offsets(data, pat)[k2],
{
    if pat.len() <= data.len() {
        let n = (data.len() - pat.len() + 1) as nat;
        lemma_offsets_up_to_props(data, pat, n);
    }
}

fn matches_at(data: &Vec<u8>, pat: &Vec<u8>, i: usize) -> (r: bool)
    requires
        i + pat@.len() <= data@.len(),
    ensures
        r == is_match_at(data@, pat@, i as int),
{
    let n = data.len();
    let mut k: usize = 0;
    while k < pat.len()
        invariant
            i + pat@.len() <= data@.len(),
            n == data@.len(),
            0 <= k <= pat@.len(),
            forall|j: int| 0 <= j < k ==> data@[i + j] == pat@[j],
        decreases pat@.len() - k,
    {
        if data[i + k] != pat[k] {
            proof {
                if is_match_at(data@, pat@, i as int) {
                    assert(data@.subrange(i as int, i + pat@.len())[k as int] == pat@[k as int]);
                }
            }
            return false;
        }
        k += 1;
    }
    proof {
        assert(data@.subrange(i as int, i + pat@.len()) =~= pat@);
    }
    true
}

/// Brute-force scan for every occurrence of the pattern, reporting
/// the starting offsets in ascending order.
pub fn find_offsets(data: &Vec<u8>, pat: &Vec<u8>) -> (r: Vec<usize>)
    requires
        pat@.len() >= 1,
    ensures
        r@.map_values(|u: usize| u as int) == match_offsets(data@, pat@),
{
    let mut r: Vec<usize> = Vec::new();
    if pat.len() > data.len() {
        proof {
            assert(r@.map_values(|u: usize| u as int) =~= match_offsets(data@, pat@));
        }
        return r;
    }
    let n = data.len();
    let last = n - pat.len();
    let mut i: usize = 0;
    while i <= last
        invariant
            pat@.len() >= 1,
            pat@.len() <= data@.len(),
            n == data@.len(),
            last == data@.len() - pat@.len(),
            0 <= i <= last + 1,
            r@.map_values(|u: usize| u as int) == offsets_up_to(data@, pat@, i as nat),
        decreases last + 1 - i,
    {
        let ghost pre = r@;
        if matches_at(data, pat, i) {
            r.push(i);
            proof {
                assert(r@.map_values(|u: usize| u as int) =~= pre.map_values(|u: usize| u as int)
                    .push(i as int));
            }
        }
        i += 1;
    }
    r
}

/// Copy one section's raw bytes out of the file image; the caller
/// has already checked that the extent lies within the file.
pub fn section_bytes(bytes: &Vec<u8>, off: usize, size: usize) -> (r: Vec<u8>)
    requires
        off + size <= bytes@.len(),
    ensures
        r@ == bytes@.subrange(off as int, off as int + size as int),
{
    let mut r: Vec<u8> = Vec::new();
    let n = bytes.len();
    let mut k: usize = 0;
    while k < size
        invariant
            off + size <= bytes@.len(),
            n == bytes@.len(),
            0 <= k <= size,
            r@ == bytes@.subrange(off as int, off as int + k as int),
        decreases size - k,
    {
        let ghost pre = r@;
        r.push(bytes[off + k]);
        k += 1;
        proof {
            assert(r@ =~= bytes@.subrange(off as int, off as int + k as int));
        }
    }
    r
}

} // verus!
