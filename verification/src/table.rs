use vstd::prelude::*;

verus! {

/// The index of the first element satisfying `p`, or `-1` if none does.
pub open spec fn first_match<T>(s: Seq<T>, p: spec_fn(T) -> bool) -> int
    decreases s.len(),
{
    if s.len() == 0 {
        -1
    } else if p(s[0]) {
        0
    } else if first_match(s.drop_first(), p) < 0 {
        -1
    } else {
        first_match(s.drop_first(), p) + 1
    }
}

/// What [`first_match`] means: a nonnegative result is the position of a
/// match with none before it, and `-1` means no element matches.
pub proof fn lemma_first_match_props<T>(s: Seq<T>, p: spec_fn(T) -> bool)
    ensures
        first_match(s, p) >= 0 ==> first_match(s, p) < s.len() && p(s[first_match(s, p)]),
        forall|j: int| 0 <= j < first_match(s, p) ==> !p(s[j]),
        first_match(s, p) == -1 ==> forall|j: int| 0 <= j < s.len() ==> !p(s[j]),
        first_match(s, p) >= -1,
    decreases s.len(),
{
    if s.len() > 0 && !p(s[0]) {
        lemma_first_match_props(s.drop_first(), p);
        let r = first_match(s.drop_first(), p);
        if r >= 0 {
            assert(s.drop_first()[r] == s[r + 1]);
        }
        assert forall|j: int| 0 <= j < first_match(s, p) implies !p(s[j]) by {
            if j > 0 {
                assert(s.drop_first()[j - 1] == s[j]);
            }
        }
        if first_match(s, p) == -1 {
            assert forall|j: int| 0 <= j < s.len() implies !p(s[j]) by {
                if j > 0 {
                    assert(s.drop_first()[j - 1] == s[j]);
                }
            }
        }
    }
}

/// An element that matches with none before it is where [`first_match`]
/// points.
pub proof fn lemma_first_match_is<T>(s: Seq<T>, p: spec_fn(T) -> bool, i: int)
    requires
        0 <= i < s.len(),
        p(s[i]),
        forall|j: int| 0 <= j < i ==> !p(s[j]),
    ensures
        first_match(s, p) == i,
    decreases s.len(),
{
    if i > 0 {
        assert(forall|j: int| 0 <= j < s.drop_first().len() ==> s.drop_first()[j] == s[j + 1]);
        assert(s.drop_first()[i - 1] == s[i]);
        lemma_first_match_is(s.drop_first(), p, i - 1);
    }
}

/// Two sequences on which `p` agrees pointwise have the same first match.
pub proof fn lemma_first_match_same<T>(s1: Seq<T>, s2: Seq<T>, p: spec_fn(T) -> bool)
    requires
        s1.len() == s2.len(),
        forall|j: int| 0 <= j < s1.len() ==> p(s1[j]) == p(s2[j]),
    ensures
        first_match(s1, p) == first_match(s2, p),
    decreases s1.len(),
{
    if s1.len() > 0 {
        assert(forall|j: int| 0 <= j < s1.drop_first().len() ==> s1.drop_first()[j] == s1[j + 1]);
        assert(forall|j: int| 0 <= j < s2.drop_first().len() ==> s2.drop_first()[j] == s2[j + 1]);
        lemma_first_match_same(s1.drop_first(), s2.drop_first(), p);
    }
}

/// Appending an element changes the first match only where nothing matched
/// before and the new element does.
pub proof fn lemma_first_match_push<T>(s: Seq<T>, p: spec_fn(T) -> bool, x: T)
    ensures
        first_match(s, p) >= 0 ==> first_match(s.push(x), p) == first_match(s, p),
        first_match(s, p) < 0 && p(x) ==> first_match(s.push(x), p) == s.len(),
        first_match(s, p) < 0 && !p(x) ==> first_match(s.push(x), p) == -1,
    decreases s.len(),
{
    lemma_first_match_props(s, p);
    if first_match(s, p) >= 0 {
        lemma_first_match_is(s.push(x), p, first_match(s, p));
    } else if p(x) {
        assert(s.push(x)[s.len() as int] == x);
        lemma_first_match_is(s.push(x), p, s.len() as int);
    } else {
        lemma_first_match_props(s.push(x), p);
        if first_match(s.push(x), p) >= 0 {
            let r = first_match(s.push(x), p);
            assert(p(s.push(x)[r]));
            if r < s.len() {
                assert(s.push(x)[r] == s[r]);
            }
        }
    }
}

/// No two entries of the table share a key.
pub open spec fn unique_keys<T>(s: Seq<(String, T)>) -> bool {
    forall|i: int, j: int| 0 <= i < j < s.len() ==> s[i].0@ != s[j].0@
}

/// Matches the table entry stored under `k`.
pub open spec fn key_is<T>(k: Seq<char>) -> spec_fn((String, T)) -> bool {
    |e: (String, T)| e.0@ == k
}

/// Some entry of the table carries the key `k`.
pub open spec fn keyed_has<T>(s: Seq<(String, T)>, k: Seq<char>) -> bool {
    first_match(s, key_is::<T>(k)) >= 0
}

/// The index of the first entry carrying `k`.
pub open spec fn keyed_idx<T>(s: Seq<(String, T)>, k: Seq<char>) -> int {
    first_match(s, key_is::<T>(k))
}

/// The value stored under `k`; meaningful only under [`keyed_has`].
pub open spec fn keyed_get<T>(s: Seq<(String, T)>, k: Seq<char>) -> T {
    s[keyed_idx(s, k)].1
}

/// The list stored under `k`, or the empty sequence if `k` has no entry.
pub open spec fn keyed_seq<T>(s: Seq<(String, Vec<T>)>, k: Seq<char>) -> Seq<T> {
    if keyed_has(s, k) {
        keyed_get(s, k)@
    } else {
        Seq::empty()
    }
}

/// In a table of unique keys, an entry that carries `k` is the entry that
/// [`keyed_idx`] names.
pub proof fn lemma_keyed_idx_is<T>(s: Seq<(String, T)>, k: Seq<char>, i: int)
    requires
        unique_keys(s),
        0 <= i < s.len(),
        s[i].0@ == k,
    ensures
        keyed_has(s, k),
        keyed_idx(s, k) == i,
        keyed_get(s, k) == s[i].1,
{
    assert(forall|j: int| 0 <= j < i ==> s[j].0@ != k);
    lemma_first_match_is(s, key_is::<T>(k), i);
}

/// Replacing the value under an existing key keeps the keys unique.
pub proof fn lemma_unique_keys_update<T>(s: Seq<(String, T)>, i: int, e: (String, T))
    requires
        unique_keys(s),
        0 <= i < s.len(),
        e.0@ == s[i].0@,
    ensures
        unique_keys(s.update(i, e)),
{
}

/// Appending a fresh key keeps the keys unique.
pub proof fn lemma_unique_keys_push<T>(s: Seq<(String, T)>, e: (String, T))
    requires
        unique_keys(s),
        !keyed_has(s, e.0@),
    ensures
        unique_keys(s.push(e)),
{
    lemma_first_match_props(s, key_is::<T>(e.0@));
    assert forall|i: int, j: int| 0 <= i < j < s.push(e).len() implies s.push(e)[i].0@
        != s.push(e)[j].0@ by {
        if j == s.len() {
            assert(s.push(e)[i] == s[i]);
            assert(!(key_is::<T>(e.0@)(s[i])));
        }
    }
}

/// Finds the entry stored under the key `k`, scanning in insertion order.
pub fn keyed_find<T>(v: &Vec<(String, T)>, k: &String) -> (r: Option<usize>)
    ensures
        match r {
            Some(i) => keyed_has(v@, k@) && keyed_idx(v@, k@) == i && i < v@.len()
                && v@[i as int].0@ == k@,
            None => !keyed_has(v@, k@),
        },
{
    let n: usize = v.len();
    let mut i: usize = 0;
    while i < n
        invariant
            n == v@.len(),
            i <= n,
            forall|j: int| 0 <= j < i ==> v@[j].0@ != k@,
        decreases n - i,
    {
        if v[i].0 == *k {
            proof {
                lemma_first_match_is(v@, key_is::<T>(k@), i as int);
            }
            return Some(i);
        }
        i += 1;
    }
    proof {
        lemma_first_match_props(v@, key_is::<T>(k@));
        if first_match(v@, key_is::<T>(k@)) >= 0 {
            let m = first_match(v@, key_is::<T>(k@));
            assert(v@[m].0@ == k@);
        }
    }
    None
}

/// Removing an entry keeps the keys unique, drops its own key, and leaves
/// every other key bound as before.
pub proof fn lemma_keyed_remove<T>(s: Seq<(String, T)>, i: int)
    requires
        unique_keys(s),
        0 <= i < s.len(),
    ensures
        unique_keys(s.remove(i)),
        !keyed_has(s.remove(i), s[i].0@),
        forall|q: Seq<char>|
            q != s[i].0@ ==> keyed_has(s.remove(i), q) == keyed_has(s, q) && (keyed_has(
                s,
                q,
            ) ==> keyed_get(s.remove(i), q) == keyed_get(s, q)),
{
    let t = s.remove(i);
    assert(forall|j: int| 0 <= j < i ==> t[j] == s[j]);
    assert(forall|j: int| i <= j < t.len() ==> t[j] == s[j + 1]);
    assert forall|a: int, b: int| 0 <= a < b < t.len() implies t[a].0@ != t[b].0@ by {
        if b < i {
        } else if a < i {
            assert(t[b] == s[b + 1]);
        } else {
            assert(t[a] == s[a + 1]);
            assert(t[b] == s[b + 1]);
        }
    }
    lemma_first_match_props(t, key_is::<T>(s[i].0@));
    if keyed_has(t, s[i].0@) {
        let m = keyed_idx(t, s[i].0@);
        assert(t[m].0@ == s[i].0@);
        if m < i {
            assert(t[m] == s[m]);
        } else {
            assert(t[m] == s[m + 1]);
        }
    }
    assert forall|q: Seq<char>| q != s[i].0@ implies keyed_has(t, q) == keyed_has(s, q) && (
    keyed_has(s, q) ==> keyed_get(t, q) == keyed_get(s, q)) by {
        lemma_first_match_props(s, key_is::<T>(q));
        lemma_first_match_props(t, key_is::<T>(q));
        if keyed_has(s, q) {
            let j = keyed_idx(s, q);
            assert(s[j].0@ == q);
            assert(j != i);
            if j < i {
                assert(t[j] == s[j]);
                lemma_keyed_idx_is(t, q, j);
            } else {
                assert(t[j - 1] == s[j]);
                lemma_keyed_idx_is(t, q, j - 1);
            }
        } else {
            if keyed_has(t, q) {
                let m = keyed_idx(t, q);
                assert(t[m].0@ == q);
                if m < i {
                    assert(t[m] == s[m]);
                } else {
                    assert(t[m] == s[m + 1]);
                }
            }
        }
    }
}

/// Stores `x` under the key `k`, replacing the value of an existing entry
/// or appending a fresh one.
pub fn keyed_put<T>(v: &mut Vec<(String, T)>, k: &String, x: T)
    requires
        unique_keys(old(v)@),
    ensures
        unique_keys(final(v)@),
        keyed_has(final(v)@, k@),
        keyed_get(final(v)@, k@) == x,
        forall|q: Seq<char>|
            q != k@ ==> keyed_has(final(v)@, q) == keyed_has(old(v)@, q) && (keyed_has(
                old(v)@,
                q,
            ) ==> keyed_get(final(v)@, q) == keyed_get(old(v)@, q)),
        keyed_has(old(v)@, k@) ==> final(v)@ == old(v)@.update(
            keyed_idx(old(v)@, k@),
            (old(v)@[keyed_idx(old(v)@, k@)].0, x),
        ),
        !keyed_has(old(v)@, k@) ==> final(v)@.len() == old(v)@.len() + 1 && final(v)@[old(
            v,
        )@.len() as int].0@ == k@ && final(v)@[old(v)@.len() as int].1 == x && (forall|i: int|
            0 <= i < old(v)@.len() ==> final(v)@[i] == old(v)@[i]),
{
    let r = keyed_find(v, k);
    match r {
        Some(i) => {
            let ghost before = v@;
            let key = v[i].0.clone();
            v[i] = (key, x);
            proof {
                lemma_first_match_props(before, key_is::<T>(k@));
                lemma_unique_keys_update(before, i as int, v@[i as int]);
                lemma_keyed_idx_is(v@, k@, i as int);
                assert forall|q: Seq<char>| q != k@ implies keyed_has(v@, q) == keyed_has(
                    before,
                    q,
                ) && (keyed_has(before, q) ==> keyed_get(v@, q) == keyed_get(before, q)) by {
                    assert(forall|j: int|
                        0 <= j < before.len() ==> (key_is::<T>(q)(v@[j]) == key_is::<T>(q)(
                            before[j],
                        )));
                    lemma_first_match_same(v@, before, key_is::<T>(q));
                    lemma_first_match_props(before, key_is::<T>(q));
                    if keyed_has(before, q) {
                        assert(before[keyed_idx(before, q)].0@ == q);
                    }
                }
            }
        },
        None => {
            let ghost before = v@;
            v.push((k.clone(), x));
            proof {
                lemma_unique_keys_push(before, v@[before.len() as int]);
                lemma_keyed_idx_is(v@, k@, before.len() as int);
                assert forall|q: Seq<char>| q != k@ implies keyed_has(v@, q) == keyed_has(
                    before,
                    q,
                ) && (keyed_has(before, q) ==> keyed_get(v@, q) == keyed_get(before, q)) by {
                    lemma_first_match_push(before, key_is::<T>(q), v@[before.len() as int]);
                    lemma_first_match_props(before, key_is::<T>(q));
                    assert(v@ == before.push(v@[before.len() as int]));
                    if keyed_has(before, q) {
                        assert(v@[keyed_idx(before, q)] == before[keyed_idx(before, q)]);
                    }
                }
            }
        },
    }
}

/// Appends `x` to the list stored under `k`, creating the entry if it is
/// not there yet.
pub fn keyed_append<T>(v: &mut Vec<(String, Vec<T>)>, k: &String, x: T)
    requires
        unique_keys(old(v)@),
    ensures
        unique_keys(final(v)@),
        keyed_has(final(v)@, k@),
        keyed_seq(final(v)@, k@) == keyed_seq(old(v)@, k@).push(x),
        forall|q: Seq<char>|
            q != k@ ==> keyed_has(final(v)@, q) == keyed_has(old(v)@, q) && keyed_seq(
                final(v)@,
                q,
            ) == keyed_seq(old(v)@, q),
        final(v)@.len() == old(v)@.len() || final(v)@.len() == old(v)@.len() + 1,
        forall|i: int|
            0 <= i < old(v)@.len() && old(v)@[i].0@ != k@ ==> final(v)@[i] == old(v)@[i],
        forall|i: int|
            0 <= i < final(v)@.len() ==> (#[trigger] final(v)@[i]).0@ == k@ || (i < old(
                v,
            )@.len() && final(v)@[i] == old(v)@[i]),
        forall|i: int|
            0 <= i < final(v)@.len() && (#[trigger] final(v)@[i]).0@ == k@ ==> final(v)@[i].1@
                == keyed_seq(old(v)@, k@).push(x),
{
    let r = keyed_find(v, k);
    match r {
        Some(i) => {
            let ghost before = v@;
            v[i].1.push(x);
            proof {
                assert(v@ == before.update(i as int, (before[i as int].0, v@[i as int].1)));
                lemma_unique_keys_update(before, i as int, v@[i as int]);
                lemma_keyed_idx_is(before, k@, i as int);
                lemma_keyed_idx_is(v@, k@, i as int);
                assert(v@[i as int].1@ == before[i as int].1@.push(x));
                assert forall|q: Seq<char>| q != k@ implies keyed_has(v@, q) == keyed_has(
                    before,
                    q,
                ) && keyed_seq(v@, q) == keyed_seq(before, q) by {
                    assert(forall|j: int|
                        0 <= j < before.len() ==> (key_is::<Vec<T>>(q)(v@[j]) == key_is::<Vec<T>>(
                            q,
                        )(before[j])));
                    lemma_first_match_same(v@, before, key_is::<Vec<T>>(q));
                    lemma_first_match_props(before, key_is::<Vec<T>>(q));
                    if keyed_has(before, q) {
                        assert(before[keyed_idx(before, q)].0@ == q);
                    }
                }
                assert forall|i2: int|
                    0 <= i2 < v@.len() && (#[trigger] v@[i2]).0@ == k@ implies v@[i2].1@
                    == keyed_seq(before, k@).push(x) by {
                    if i2 != i as int {
                        assert(before[i2].0@ == k@);
                    }
                }
            }
        },
        None => {
            let ghost before = v@;
            let mut fresh: Vec<T> = Vec::new();
            fresh.push(x);
            v.push((k.clone(), fresh));
            proof {
                lemma_unique_keys_push(before, v@[before.len() as int]);
                lemma_keyed_idx_is(v@, k@, before.len() as int);
                assert(v@[before.len() as int].1@ =~= keyed_seq(before, k@).push(x));
                lemma_first_match_props(before, key_is::<Vec<T>>(k@));
                assert forall|q: Seq<char>| q != k@ implies keyed_has(v@, q) == keyed_has(
                    before,
                    q,
                ) && keyed_seq(v@, q) == keyed_seq(before, q) by {
                    lemma_first_match_push(before, key_is::<Vec<T>>(q), v@[before.len() as int]);
                    lemma_first_match_props(before, key_is::<Vec<T>>(q));
                    assert(v@ == before.push(v@[before.len() as int]));
                    if keyed_has(before, q) {
                        assert(v@[keyed_idx(before, q)] == before[keyed_idx(before, q)]);
                    }
                }
                assert forall|i2: int|
                    0 <= i2 < v@.len() && (#[trigger] v@[i2]).0@ == k@ implies v@[i2].1@
                    == keyed_seq(before, k@).push(x) by {
                    if i2 < before.len() {
                        lemma_keyed_idx_is(before, k@, i2);
                    }
                }
            }
        },
    }
}

/// Whether some string of the list reads `k`.
pub open spec fn contains_str(s: Seq<String>, k: Seq<char>) -> bool {
    exists|i: int| 0 <= i < s.len() && s[i]@ == k
}

/// Scans a list of strings for `k`.
pub fn find_string(v: &Vec<String>, k: &String) -> (r: bool)
    ensures
        r == contains_str(v@, k@),
{
    let n: usize = v.len();
    let mut i: usize = 0;
    while i < n
        invariant
            n == v@.len(),
            i <= n,
            forall|j: int| 0 <= j < i ==> v@[j]@ != k@,
        decreases n - i,
    {
        if v[i] == *k {
            assert(contains_str(v@, k@));
            return true;
        }
        i += 1;
    }
    false
}

} // verus!
