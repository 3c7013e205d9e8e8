use vstd::prelude::*;

use crate::alist::{alist_get, alist_has, alist_set, lemma_alist_get_has, lemma_alist_set_absent,
    lemma_alist_set_found};
use crate::strutil;

verus! {

/// The abstract value of an occurrence-count table.
pub open spec fn counts_view(v: Seq<(String, u64)>) -> Seq<(Seq<char>, int)> {
    Seq::new(v.len(), |i: int| (v[i].0@, v[i].1 as int))
}

/// The total of all counts in the table.
pub open spec fn sum_counts(s: Seq<(Seq<char>, int)>) -> int
    decreases s.len(),
{
    if s.len() == 0 {
        0
    } else {
        sum_counts(s.subrange(0, s.len() - 1)) + s[s.len() - 1].1
    }
}

/// A count table after one more occurrence of `k`.
pub open spec fn bump_spec(s: Seq<(Seq<char>, int)>, k: Seq<char>) -> Seq<(Seq<char>, int)> {
    match alist_get(s, k) {
        Option::Some(n) => alist_set(s, k, n + 1),
        Option::None => alist_set(s, k, 1),
    }
}

/// Updating one slot changes the sum by the difference at that slot.
pub proof fn lemma_sum_counts_update(s: Seq<(Seq<char>, int)>, j: int, p: (Seq<char>, int))
    requires
        0 <= j < s.len(),
    ensures
        sum_counts(s.update(j, p)) == sum_counts(s) - s[j].1 + p.1,
    decreases s.len(),
{
    let t = s.update(j, p);
    if j == s.len() - 1 {
        assert(t.subrange(0, t.len() - 1) =~= s.subrange(0, s.len() - 1));
        assert(t[t.len() - 1] == p);
    } else {
        assert(t.subrange(0, t.len() - 1) =~= s.subrange(0, s.len() - 1).update(j, p));
        lemma_sum_counts_update(s.subrange(0, s.len() - 1), j, p);
        assert(t[t.len() - 1] == s[s.len() - 1]);
    }
}

/// Appending a slot adds its count to the sum.
pub proof fn lemma_sum_counts_push(s: Seq<(Seq<char>, int)>, p: (Seq<char>, int))
    ensures
        sum_counts(s.push(p)) == sum_counts(s) + p.1,
{
    assert(s.push(p).subrange(0, s.push(p).len() - 1) =~= s);
    assert(s.push(p)[s.push(p).len() - 1] == p);
}

/// A bump raises the total by one.
pub proof fn lemma_sum_counts_bump(s: Seq<(Seq<char>, int)>, k: Seq<char>)
    ensures
        sum_counts(bump_spec(s, k)) == sum_counts(s) + 1,
{
    lemma_alist_get_has(s, k);
    match alist_get(s, k) {
        Option::Some(n) => {
            let j = lemma_alist_first_key_index(s, k);
            assert(s[j].1 == n) by {
                lemma_alist_get_at_first(s, k, j);
            }
            lemma_alist_set_found(s, k, n + 1, j);
            lemma_sum_counts_update(s, j, (k, n + 1));
        },
        Option::None => {
            lemma_alist_set_absent(s, k, 1);
            lemma_sum_counts_push(s, (k, 1));
        },
    }
}

/// The index of the first pair carrying `k`.
pub proof fn lemma_alist_first_key_index<V>(s: Seq<(Seq<char>, V)>, k: Seq<char>) -> (j: int)
    requires
        alist_has(s, k),
    ensures
        0 <= j < s.len(),
        s[j].0 == k,
        forall|i: int| 0 <= i < j ==> s[i].0 != k,
    decreases s.len(),
{
    if s[0].0 == k {
        0
    } else {
        let rest = s.subrange(1, s.len() as int);
        assert(alist_has(rest, k)) by {
            let i = choose|i: int| 0 <= i < s.len() && s[i].0 == k;
            assert(rest[i - 1].0 == k);
        }
        let j = lemma_alist_first_key_index(rest, k) + 1;
        assert(forall|i: int| 1 <= i < j ==> s[i] == rest[i - 1]);
        j
    }
}

/// `alist_get` reads the value at the first index carrying the key.
pub proof fn lemma_alist_get_at_first<V>(s: Seq<(Seq<char>, V)>, k: Seq<char>, j: int)
    requires
        0 <= j < s.len(),
        s[j].0 == k,
        forall|i: int| 0 <= i < j ==> s[i].0 != k,
    ensures
        alist_get(s, k) == Option::Some(s[j].1),
    decreases s.len(),
{
    if j > 0 {
        let rest = s.subrange(1, s.len() as int);
        assert(forall|i: int| 0 <= i < j - 1 ==> rest[i] == s[i + 1]);
        assert(rest[j - 1] == s[j]);
        lemma_alist_get_at_first(rest, k, j - 1);
    }
}

/// How often `k` occurs in a sequence of keys.
pub open spec fn count_key(keys: Seq<Seq<char>>, k: Seq<char>) -> int
    decreases keys.len(),
{
    if keys.len() == 0 {
        0
    } else {
        count_key(keys.subrange(0, keys.len() - 1), k) + if keys[keys.len() - 1] == k {
            1int
        } else {
            0int
        }
    }
}

/// A key count lies between zero and the number of keys, and is zero exactly
/// when the key does not occur.
pub proof fn lemma_count_key_bounds(keys: Seq<Seq<char>>, k: Seq<char>)
    ensures
        0 <= count_key(keys, k) <= keys.len(),
        (count_key(keys, k) == 0 <==> forall|i: int| 0 <= i < keys.len() ==> keys[i] != k),
    decreases keys.len(),
{
    if keys.len() > 0 {
        let pre = keys.subrange(0, keys.len() - 1);
        lemma_count_key_bounds(pre, k);
        assert(forall|i: int| 0 <= i < pre.len() ==> pre[i] == keys[i]);
    }
}

/// Appending a key raises exactly its own count.
pub proof fn lemma_count_key_push(keys: Seq<Seq<char>>, x: Seq<char>, k: Seq<char>)
    ensures
        count_key(keys.push(x), k) == count_key(keys, k) + if x == k {
            1int
        } else {
            0int
        },
{
    assert(keys.push(x).subrange(0, keys.push(x).len() - 1) =~= keys);
}

/// An occurrence-count table is consistent with a sequence of keys when each
/// recorded count is that key's number of occurrences, every key is
/// recorded, recorded keys are unique, and the counts total the number of
/// keys.
pub open spec fn table_wf(keys: Seq<Seq<char>>, counts: Seq<(Seq<char>, int)>) -> bool {
    &&& crate::alist::alist_unique(counts)
    &&& forall|i: int| 0 <= i < counts.len() ==> #[trigger] counts[i].1 == count_key(
        keys,
        counts[i].0,
    )
    &&& forall|i: int| 0 <= i < keys.len() ==> alist_has(counts, #[trigger] keys[i])
    &&& sum_counts(counts) == keys.len()
}

/// A recorded count never exceeds the number of keys.
pub proof fn lemma_table_wf_bound(keys: Seq<Seq<char>>, counts: Seq<(Seq<char>, int)>, k: Seq<char>)
    requires
        table_wf(keys, counts),
    ensures
        (match alist_get(counts, k) {
            Option::Some(n) => 0 <= n <= keys.len(),
            Option::None => true,
        }),
{
    lemma_alist_get_has(counts, k);
    if alist_has(counts, k) {
        let j = lemma_alist_first_key_index(counts, k);
        lemma_alist_get_at_first(counts, k, j);
        lemma_count_key_bounds(keys, k);
    }
}

/// Adding one key and bumping its count keeps the table consistent.
pub proof fn lemma_table_wf_add(keys: Seq<Seq<char>>, counts: Seq<(Seq<char>, int)>, k: Seq<char>)
    requires
        table_wf(keys, counts),
    ensures
        table_wf(keys.push(k), bump_spec(counts, k)),
{
    lemma_alist_get_has(counts, k);
    lemma_sum_counts_bump(counts, k);
    let keys2 = keys.push(k);
    let counts2 = bump_spec(counts, k);
    assert(forall|i: int| 0 <= i < keys.len() ==> keys2[i] == keys[i]);
    match alist_get(counts, k) {
        Option::Some(n) => {
            let j = lemma_alist_first_key_index(counts, k);
            lemma_alist_get_at_first(counts, k, j);
            lemma_alist_set_found(counts, k, n + 1, j);
            assert(counts2 == counts.update(j, (k, n + 1)));
            assert forall|i: int, m: int| 0 <= i < m < counts2.len() implies counts2[i].0
                != counts2[m].0 by {
                assert(counts2[i].0 == counts[i].0 && counts2[m].0 == counts[m].0);
            }
            assert forall|i: int| 0 <= i < counts2.len() implies #[trigger] counts2[i].1
                == count_key(keys2, counts2[i].0) by {
                lemma_count_key_push(keys, k, counts2[i].0);
                if i == j {
                    assert(counts2[i] == (k, n + 1));
                } else {
                    assert(counts2[i] == counts[i]);
                    assert(counts[j].0 == k);
                    assert(counts[i].0 != k);
                }
            }
            assert forall|i: int| 0 <= i < keys2.len() implies alist_has(
                counts2,
                #[trigger] keys2[i],
            ) by {
                if i < keys.len() {
                    let m = choose|m: int| 0 <= m < counts.len() && counts[m].0 == keys[i];
                    assert(counts2[m].0 == keys2[i]);
                } else {
                    assert(counts2[j].0 == k);
                }
            }
        },
        Option::None => {
            lemma_alist_set_absent(counts, k, 1);
            assert(counts2 == counts.push((k, 1int)));
            assert forall|i: int, m: int| 0 <= i < m < counts2.len() implies counts2[i].0
                != counts2[m].0 by {
                if m < counts.len() {
                    assert(counts2[i] == counts[i] && counts2[m] == counts[m]);
                } else {
                    assert(counts2[m] == (k, 1int));
                    assert(counts2[i] == counts[i]);
                    if counts[i].0 == k {
                        assert(alist_has(counts, k));
                    }
                }
            }
            assert forall|i: int| 0 <= i < counts2.len() implies #[trigger] counts2[i].1
                == count_key(keys2, counts2[i].0) by {
                lemma_count_key_push(keys, k, counts2[i].0);
                if i < counts.len() {
                    assert(counts2[i] == counts[i]);
                    if counts[i].0 == k {
                        assert(alist_has(counts, k));
                    }
                } else {
                    assert(counts2[i] == (k, 1int));
                    lemma_count_key_bounds(keys, k);
                    assert forall|m: int| 0 <= m < keys.len() implies keys[m] != k by {
                        if keys[m] == k {
                            assert(alist_has(counts, keys[m]));
                        }
                    }
                    assert(count_key(keys, k) == 0);
                }
            }
            assert forall|i: int| 0 <= i < keys2.len() implies alist_has(
                counts2,
                #[trigger] keys2[i],
            ) by {
                if i < keys.len() {
                    let m = choose|m: int| 0 <= m < counts.len() && counts[m].0 == keys[i];
                    assert(counts2[m].0 == keys2[i]);
                } else {
                    assert(counts2[counts.len() as int].0 == k);
                }
            }
        },
    }
}

/// Records one more occurrence of `key` in the table.
#[verifier::loop_isolation(false)]
pub fn bump_count(v: &mut Vec<(String, u64)>, key: &str, bound: usize)
    requires
        (match alist_get(counts_view(old(v)@), key@) {
            Option::Some(n) => n < bound as int,
            Option::None => true,
        }),
    ensures
        counts_view(final(v)@) == bump_spec(counts_view(old(v)@), key@),
{
    let n: usize = v.len();
    let mut i: usize = 0;
    while i < n
        invariant
            n == v@.len(),
            0 <= i <= n,
            v@ == old(v)@,
            forall|j: int| 0 <= j < i ==> #[trigger] v@[j].0@ != key@,
        decreases n - i,
    {
        if strutil::str_eq(v[i].0.as_str(), key) {
            let cur: u64 = v[i].1;
            let fresh_key = v[i].0.clone();
            proof {
                lemma_alist_get_at_first(counts_view(v@), key@, i as int);
                assert(counts_view(v@)[i as int].1 == cur as int);
                assert(cur < bound);
            }
            let updated: (String, u64) = (fresh_key, cur + 1);
            v.set(i, updated);
            proof {
                lemma_alist_set_found(counts_view(old(v)@), key@, cur as int + 1, i as int);
                assert(counts_view(v@) =~= counts_view(old(v)@).update(
                    i as int,
                    (key@, cur as int + 1),
                ));
            }
            return ;
        }
        i = i + 1;
    }
    proof {
        assert(!alist_has(counts_view(v@), key@));
        lemma_alist_get_has(counts_view(v@), key@);
        lemma_alist_set_absent(counts_view(old(v)@), key@, 1);
    }
    v.push((String::from_str(key), 1));
    proof {
        assert(counts_view(v@) =~= counts_view(old(v)@).push((key@, 1)));
    }
}

/// Looks up the count recorded for `key`.
pub fn lookup_count(v: &Vec<(String, u64)>, key: &str) -> (r: Option<u64>)
    ensures
        (match r {
            Option::Some(c) => Option::Some(c as int),
            Option::None => Option::<int>::None,
        }) == alist_get(counts_view(v@), key@),
{
    let n: usize = v.len();
    let mut i: usize = 0;
    while i < n
        invariant
            n == v@.len(),
            0 <= i <= n,
            forall|j: int| 0 <= j < i ==> #[trigger] v@[j].0@ != key@,
        decreases n - i,
    {
        if strutil::str_eq(v[i].0.as_str(), key) {
            proof {
                lemma_alist_get_at_first(counts_view(v@), key@, i as int);
            }
            return Some(v[i].1);
        }
        i = i + 1;
    }
    proof {
        assert(!alist_has(counts_view(v@), key@));
        lemma_alist_get_has(counts_view(v@), key@);
    }
    None
}

/// Does the table carry `key` at all?
pub fn contains_count(v: &Vec<(String, u64)>, key: &str) -> (r: bool)
    ensures
        r == alist_has(counts_view(v@), key@),
{
    let n: usize = v.len();
    let mut i: usize = 0;
    while i < n
        invariant
            n == v@.len(),
            0 <= i <= n,
            forall|j: int| 0 <= j < i ==> #[trigger] v@[j].0@ != key@,
        decreases n - i,
    {
        if strutil::str_eq(v[i].0.as_str(), key) {
            assert(counts_view(v@)[i as int].0 == key@);
            return true;
        }
        i = i + 1;
    }
    proof {
        if alist_has(counts_view(v@), key@) {
            let j = choose|j: int| 0 <= j < counts_view(v@).len() && counts_view(v@)[j].0 == key@;
            assert(v@[j].0@ == key@);
        }
    }
    false
}

} // verus!
