use vstd::prelude::*;

verus! {

/// The first index at or after `from` whose element satisfies `p`, or -1 if none does.
pub open spec fn first_index_from<A>(s: Seq<A>, p: spec_fn(A) -> bool, from: int) -> int
    decreases s.len() - from,
{
    if from < 0 || from >= s.len() {
        -1
    } else if p(s[from]) {
        from
    } else {
        first_index_from(s, p, from + 1)
    }
}

/// The first index whose element satisfies `p`, or -1 if none does.
pub open spec fn first_index<A>(s: Seq<A>, p: spec_fn(A) -> bool) -> int {
    first_index_from(s, p, 0)
}

/// The first index, when there is one, is in range, satisfies `p`, and no
/// element before it (from `from` on) does; when there is none, no element
/// from `from` on satisfies `p`.
pub proof fn lemma_first_index_found<A>(s: Seq<A>, p: spec_fn(A) -> bool, from: int)
    requires
        0 <= from,
    ensures
        first_index_from(s, p, from) == -1 || (from <= first_index_from(s, p, from) < s.len()
            && p(s[first_index_from(s, p, from)])),
        first_index_from(s, p, from) == -1 ==> forall|j: int| from <= j < s.len() ==> !p(s[j]),
        forall|j: int| from <= j < first_index_from(s, p, from) ==> !p(s[j]),
    decreases s.len() - from,
{
    if from < s.len() && !p(s[from]) {
        lemma_first_index_found(s, p, from + 1);
    }
}

/// Appending a satisfying element to a sequence with none makes it the first.
pub proof fn lemma_first_index_push<A>(s: Seq<A>, x: A, p: spec_fn(A) -> bool, from: int)
    requires
        0 <= from <= s.len(),
        forall|j: int| from <= j < s.len() ==> !p(#[trigger] s[j]),
        p(x),
    ensures
        first_index_from(s.push(x), p, from) == s.len(),
    decreases s.len() - from,
{
    if from < s.len() {
        assert(s.push(x)[from] == s[from]);
        lemma_first_index_push(s, x, p, from + 1);
    } else {
        assert(s.push(x)[from] == x);
    }
}

/// Appending an element that does not satisfy `p` changes no first index.
pub proof fn lemma_first_index_push_other<A>(s: Seq<A>, x: A, p: spec_fn(A) -> bool, from: int)
    requires
        0 <= from,
        !p(x),
    ensures
        first_index_from(s.push(x), p, from) == first_index_from(s, p, from),
    decreases s.len() - from,
{
    if from < s.len() {
        assert(s.push(x)[from] == s[from]);
        if !p(s[from]) {
            lemma_first_index_push_other(s, x, p, from + 1);
        }
    } else if from == s.len() {
        assert(s.push(x)[from] == x);
        assert(first_index_from(s.push(x), p, from + 1) == -1);
    }
}

/// Replacing an element by one that satisfies `p` exactly when it did changes
/// no first index.
pub proof fn lemma_first_index_update<A>(s: Seq<A>, k: int, x: A, p: spec_fn(A) -> bool, from: int)
    requires
        0 <= from,
        0 <= k < s.len(),
        p(x) == p(s[k]),
    ensures
        first_index_from(s.update(k, x), p, from) == first_index_from(s, p, from),
    decreases s.len() - from,
{
    if from < s.len() {
        assert(p(s.update(k, x)[from]) == p(s[from]));
        if !p(s[from]) {
            lemma_first_index_update(s, k, x, p, from + 1);
        }
    }
}

} // verus!
