use vstd::prelude::*;

verus! {

/// Does some pair in `s` carry the key `k`?
pub open spec fn alist_has<V>(s: Seq<(Seq<char>, V)>, k: Seq<char>) -> bool {
    exists|i: int| 0 <= i < s.len() && s[i].0 == k
}

/// The value of the first pair carrying `k`, scanning from the front.
pub open spec fn alist_get<V>(s: Seq<(Seq<char>, V)>, k: Seq<char>) -> Option<V>
    decreases s.len(),
{
    if s.len() == 0 {
        Option::None
    } else if s[0].0 == k {
        Option::Some(s[0].1)
    } else {
        alist_get(s.subrange(1, s.len() as int), k)
    }
}

/// `s` with the first pair carrying `k` replaced by `(k, v)`, or `(k, v)`
/// appended when no pair carries `k`.
pub open spec fn alist_set<V>(s: Seq<(Seq<char>, V)>, k: Seq<char>, v: V) -> Seq<(Seq<char>, V)>
    decreases s.len(),
{
    if s.len() == 0 {
        seq![(k, v)]
    } else if s[0].0 == k {
        seq![(k, v)] + s.subrange(1, s.len() as int)
    } else {
        seq![s[0]] + alist_set(s.subrange(1, s.len() as int), k, v)
    }
}

/// No two pairs of `s` carry the same key.
pub open spec fn alist_unique<V>(s: Seq<(Seq<char>, V)>) -> bool {
    forall|i: int, j: int| 0 <= i < j < s.len() ==> s[i].0 != s[j].0
}

/// A key is found exactly when some pair carries it.
pub proof fn lemma_alist_get_has<V>(s: Seq<(Seq<char>, V)>, k: Seq<char>)
    ensures
        alist_get(s, k) is Some <==> alist_has(s, k),
    decreases s.len(),
{
    if s.len() > 0 {
        if s[0].0 == k {
        } else {
            lemma_alist_get_has(s.subrange(1, s.len() as int), k);
            let rest = s.subrange(1, s.len() as int);
            if alist_has(rest, k) {
                let i = choose|i: int| 0 <= i < rest.len() && rest[i].0 == k;
                assert(s[i + 1].0 == k);
            }
            if alist_has(s, k) {
                let i = choose|i: int| 0 <= i < s.len() && s[i].0 == k;
                assert(rest[i - 1].0 == k);
            }
        }
    }
}

/// What `alist_set` does, seen through `alist_get`: the set key now maps to
/// the new value, every other key is untouched, and the pair count grows by
/// one exactly when the key was absent.
pub proof fn lemma_alist_set_get<V>(s: Seq<(Seq<char>, V)>, k: Seq<char>, v: V, q: Seq<char>)
    ensures
        alist_get(alist_set(s, k, v), q) == if q == k {
            Option::Some(v)
        } else {
            alist_get(s, q)
        },
        alist_set(s, k, v).len() == if alist_has(s, k) {
            s.len() as int
        } else {
            s.len() + 1 as int
        },
    decreases s.len(),
{
    lemma_alist_get_has(s, k);
    if s.len() == 0 {
        let t = alist_set(s, k, v);
        assert(t.len() == 1);
        assert(t[0] == (k, v));
        assert(t.subrange(1, t.len() as int) =~= Seq::<(Seq<char>, V)>::empty());
        if q == k {
            assert(alist_get(t, q) == Option::Some(v));
        } else {
            assert(alist_get(t, q) == alist_get(t.subrange(1, 1), q));
            assert(alist_get(t.subrange(1, 1), q) == Option::<V>::None);
        }
    } else if s[0].0 == k {
        let t = alist_set(s, k, v);
        assert(t.len() == s.len());
        assert(t[0] == (k, v));
        assert(t.subrange(1, t.len() as int) =~= s.subrange(1, s.len() as int));
        assert(alist_has(s, k)) by {
            assert(s[0].0 == k);
        }
        if q == k {
            assert(alist_get(t, q) == Option::Some(v));
        } else {
            assert(alist_get(t, q) == alist_get(t.subrange(1, t.len() as int), q));
            assert(alist_get(s, q) == alist_get(s.subrange(1, s.len() as int), q));
        }
    } else {
        lemma_alist_set_get(s.subrange(1, s.len() as int), k, v, q);
        let rest = s.subrange(1, s.len() as int);
        let t = alist_set(s, k, v);
        assert(t[0] == s[0]);
        assert(t.subrange(1, t.len() as int) =~= alist_set(rest, k, v));
        lemma_alist_get_has(rest, k);
        if alist_has(s, k) {
            let i = choose|i: int| 0 <= i < s.len() && s[i].0 == k;
            assert(rest[i - 1].0 == k);
        }
        if alist_has(rest, k) {
            let i = choose|i: int| 0 <= i < rest.len() && rest[i].0 == k;
            assert(s[i + 1].0 == k);
        }
        if q == s[0].0 {
            assert(alist_get(t, q) == Option::Some(s[0].1));
            assert(alist_get(s, q) == Option::Some(s[0].1));
        } else {
            assert(alist_get(t, q) == alist_get(alist_set(rest, k, v), q));
            assert(alist_get(s, q) == alist_get(rest, q));
        }
    }
}

/// When the first pair carrying `k` sits at index `j`, `alist_set` is an
/// update in place.
pub proof fn lemma_alist_set_found<V>(s: Seq<(Seq<char>, V)>, k: Seq<char>, v: V, j: int)
    requires
        0 <= j < s.len(),
        s[j].0 == k,
        forall|i: int| 0 <= i < j ==> s[i].0 != k,
    ensures
        alist_set(s, k, v) == s.update(j, (k, v)),
    decreases s.len(),
{
    if j == 0 {
        assert(alist_set(s, k, v) =~= s.update(0, (k, v)));
    } else {
        let rest = s.subrange(1, s.len() as int);
        assert(forall|i: int| 0 <= i < j - 1 ==> rest[i] == s[i + 1]);
        assert(rest[j - 1] == s[j]);
        lemma_alist_set_found(rest, k, v, j - 1);
        assert(alist_set(s, k, v) =~= s.update(j, (k, v)));
    }
}

/// When no pair carries `k`, `alist_set` appends.
pub proof fn lemma_alist_set_absent<V>(s: Seq<(Seq<char>, V)>, k: Seq<char>, v: V)
    requires
        !alist_has(s, k),
    ensures
        alist_set(s, k, v) == s.push((k, v)),
    decreases s.len(),
{
    if s.len() == 0 {
        assert(alist_set(s, k, v) =~= s.push((k, v)));
    } else {
        let rest = s.subrange(1, s.len() as int);
        assert(s[0].0 != k);
        assert(!alist_has(rest, k)) by {
            if alist_has(rest, k) {
                let i = choose|i: int| 0 <= i < rest.len() && rest[i].0 == k;
                assert(s[i + 1].0 == k);
            }
        }
        lemma_alist_set_absent(rest, k, v);
        assert(alist_set(s, k, v) =~= s.push((k, v)));
    }
}

/// `alist_set` keeps keys unique.
pub proof fn lemma_alist_set_unique<V>(s: Seq<(Seq<char>, V)>, k: Seq<char>, v: V)
    requires
        alist_unique(s),
    ensures
        alist_unique(alist_set(s, k, v)),
        forall|i: int| 0 <= i < alist_set(s, k, v).len() ==> (#[trigger] alist_set(s, k, v)[i].0
            == k || alist_has(s, alist_set(s, k, v)[i].0)),
    decreases s.len(),
{
    let t = alist_set(s, k, v);
    if s.len() == 0 {
    } else if s[0].0 == k {
        assert(t.subrange(1, t.len() as int) =~= s.subrange(1, s.len() as int));
        assert forall|i: int, j: int| 0 <= i < j < t.len() implies t[i].0 != t[j].0 by {
            if i == 0 {
                assert(t[j] == s[j]);
            } else {
                assert(t[i] == s[i] && t[j] == s[j]);
            }
        }
        assert forall|i: int| 0 <= i < t.len() implies (#[trigger] t[i].0 == k || alist_has(
            s,
            t[i].0,
        )) by {
            if i > 0 {
                assert(t[i] == s[i]);
            }
        }
    } else {
        let rest = s.subrange(1, s.len() as int);
        assert(alist_unique(rest)) by {
            assert(forall|i: int, j: int|
                0 <= i < j < rest.len() ==> rest[i] == s[i + 1] && rest[j] == s[j + 1]);
        }
        lemma_alist_set_unique(rest, k, v);
        lemma_alist_set_get(rest, k, v, s[0].0);
        lemma_alist_get_has(rest, s[0].0);
        let tr = alist_set(rest, k, v);
        assert(t.subrange(1, t.len() as int) =~= tr);
        assert(t[0] == s[0]);
        assert forall|i: int, j: int| 0 <= i < j < t.len() implies t[i].0 != t[j].0 by {
            if i == 0 {
                assert(t[j] == tr[j - 1]);
                if t[j].0 == s[0].0 {
                    assert(tr[j - 1].0 == k || alist_has(rest, tr[j - 1].0));
                    if alist_has(rest, s[0].0) {
                        let m = choose|m: int| 0 <= m < rest.len() && rest[m].0 == s[0].0;
                        assert(s[m + 1].0 == s[0].0);
                    }
                }
            } else {
                assert(t[i] == tr[i - 1] && t[j] == tr[j - 1]);
            }
        }
        assert forall|i: int| 0 <= i < t.len() implies (#[trigger] t[i].0 == k || alist_has(
            s,
            t[i].0,
        )) by {
            if i > 0 {
                assert(t[i] == tr[i - 1]);
                if tr[i - 1].0 != k {
                    assert(alist_has(rest, tr[i - 1].0));
                    let m = choose|m: int| 0 <= m < rest.len() && rest[m].0 == tr[i - 1].0;
                    assert(s[m + 1].0 == tr[i - 1].0);
                }
            } else {
                assert(t[0] == s[0]);
            }
        }
    }
}

} // verus!
