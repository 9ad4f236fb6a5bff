use vstd::prelude::*;

verus! {

/// What `str::to_lowercase` returns for a given character sequence;
/// the mapping depends on the characters alone.
pub uninterp spec fn lower_of(s: Seq<char>) -> Seq<char>;

/// Relies on str::to_lowercase: returns the lowercase equivalent of
/// the string, a function of its characters alone.
#[verifier::external_body]
pub(crate) fn fold_case(s: &str) -> (r: String)
    ensures
        r@ == lower_of(s@),
{
    s.to_lowercase()
}

/// Holds when `needle` occurs contiguously inside `hay`.
pub open spec fn contains_seq(hay: Seq<char>, needle: Seq<char>) -> bool {
    exists|i: int|
        0 <= i && i + needle.len() <= hay.len() && #[trigger] hay.subrange(i, i + needle.len())
            == needle
}

/// Relies on str::contains with a &str pattern: true exactly when the
/// pattern occurs as a contiguous substring.
#[verifier::external_body]
pub(crate) fn str_contains(hay: &str, needle: &str) -> (r: bool)
    ensures
        r == contains_seq(hay@, needle@),
{
    hay.contains(needle)
}

/// Whether a table name satisfies the search pattern: exact substring
/// containment when `match_case` is set, containment of the
/// case-folded pattern in the case-folded name otherwise.
pub open spec fn name_matches(name: Seq<char>, pattern: Seq<char>, match_case: bool) -> bool {
    if match_case {
        contains_seq(name, pattern)
    } else {
        contains_seq(lower_of(name), lower_of(pattern))
    }
}

/// Test one name against the pattern under the chosen case policy.
pub fn check_name(name: &str, pattern: &str, match_case: bool) -> (r: bool)
    ensures
        r == name_matches(name@, pattern@, match_case),
{
    if match_case {
        str_contains(name, pattern)
    } else {
        let folded_name = fold_case(name);
        let folded_pattern = fold_case(pattern);
        str_contains(folded_name.as_str(), folded_pattern.as_str())
    }
}

/// Holds when some string in `names` has exactly the characters `s`.
pub open spec fn seq_has_name(names: Seq<String>, s: Seq<char>) -> bool {
    exists|i: int| 0 <= i < names.len() && names[i]@ == s
}

/// Append `s` to `names` unless an equal string is already there;
/// report whether it was appended.
pub fn add_if_missing(names: &mut Vec<String>, s: &str) -> (added: bool)
    ensures
        added == !seq_has_name(old(names)@, s@),
        added ==> final(names)@.len() == old(names)@.len() + 1
            && final(names)@.subrange(0, old(names)@.len() as int) == old(names)@
            && final(names)@.last()@ == s@,
        !added ==> final(names)@ == old(names)@,
{
    let owned: String = s.to_owned();
    let mut i: usize = 0;
    while i < names.len()
        invariant
            0 <= i <= names@.len(),
            owned@ == s@,
            *names == *old(names),
            forall|k: int| 0 <= k < i ==> names@[k]@ != s@,
        decreases names@.len() - i,
    {
        if names[i] == owned {
            return false;
        }
        i += 1;
    }
    names.push(owned);
    proof {
        assert(final(names)@.subrange(0, old(names)@.len() as int) =~= old(names)@);
    }
    true
}

/// The distinct names of `names` that satisfy the pattern, in
/// first-seen order: each matching name is kept exactly once.
pub open spec fn dedup_matches(names: Seq<Seq<char>>, pattern: Seq<char>, match_case: bool) -> Seq<
    Seq<char>,
>
    decreases names.len(),
{
    if names.len() == 0 {
        Seq::empty()
    } else {
        let prev = dedup_matches(names.drop_last(), pattern, match_case);
        if name_matches(names.last(), pattern, match_case) && !prev.contains(names.last()) {
            prev.push(names.last())
        } else {
            prev
        }
    }
}

/// Every entry of the deduplicated match list is distinct and
/// satisfies the pattern, and every matching name of the table is
/// present: the same matching name occurring several times is counted
/// exactly once.
pub proof fn lemma_dedup_matches_distinct(
    names: Seq<Seq<char>>,
    pattern: Seq<char>,
    match_case: bool,
)
    ensures
        forall|a: int, b: int|
            0 <= a < b < dedup_matches(names, pattern, match_case).len() ==> dedup_matches(
                names,
                pattern,
                match_case,
            )[a] != dedup_matches(names, pattern, match_case)[b],
        forall|a: int|
            0 <= a < dedup_matches(names, pattern, match_case).len() ==> name_matches(
                dedup_matches(names, pattern, match_case)[a],
                pattern,
                match_case,
            ),
        forall|i: int|
            0 <= i < names.len() && name_matches(names[i], pattern, match_case) ==> dedup_matches(
                names,
                pattern,
                match_case,
            ).contains(names[i]),
    decreases names.len(),
{
    if names.len() > 0 {
        lemma_dedup_matches_distinct(names.drop_last(), pattern, match_case);
        let prev = dedup_matches(names.drop_last(), pattern, match_case);
        let whole = dedup_matches(names, pattern, match_case);
        assert forall|i: int|
            0 <= i < names.len() && name_matches(
                names[i],
                pattern,
                match_case,
            ) implies whole.contains(names[i]) by {
            if i < names.len() - 1 {
                assert(names.drop_last()[i] == names[i]);
                assert(prev.contains(names[i]));
                let w = choose|w: int| 0 <= w < prev.len() && prev[w] == names[i];
                assert(whole[w] == names[i]);
            } else {
                if prev.contains(names.last()) {
                    let w = choose|w: int| 0 <= w < prev.len() && prev[w] == names.last();
                    assert(whole[w] == names[i]);
                } else {
                    assert(whole.last() == names[i]);
                }
            }
        }
    }
}

} // verus!
