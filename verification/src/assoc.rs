use vstd::prelude::*;

verus! {

/// The set of keys of an association sequence.
pub open spec fn assoc_keys<V>(s: Seq<(Seq<char>, V)>) -> Set<Seq<char>> {
    Set::new(|k: Seq<char>| exists|i: int| 0 <= i < s.len() && (#[trigger] s[i].0) == k)
}

/// Every key occurs at most once.
pub open spec fn unique_keys<V>(s: Seq<(Seq<char>, V)>) -> bool {
    forall|i: int, j: int|
        0 <= i < j < s.len() ==> (#[trigger] s[i].0) != (#[trigger] s[j].0)
}

/// Insertion with last-write-wins semantics: an existing entry keeps
/// its position but takes the new value; a new key is appended.
pub open spec fn assoc_update<V>(s: Seq<(Seq<char>, V)>, k: Seq<char>, v: V) -> Seq<(
    Seq<char>,
    V,
)>
    decreases s.len(),
{
    if s.len() == 0 {
        seq![(k, v)]
    } else if s[0].0 == k {
        seq![(k, v)] + s.drop_first()
    } else {
        seq![s[0]] + assoc_update(s.drop_first(), k, v)
    }
}

/// When the key already occurs first at index `i`, the update is a
/// point update.
pub proof fn lemma_assoc_update_at<V>(s: Seq<(Seq<char>, V)>, k: Seq<char>, v: V, i: int)
    requires
        0 <= i < s.len(),
        s[i].0 == k,
        forall|j: int| 0 <= j < i ==> (#[trigger] s[j].0) != k,
    ensures
        assoc_update(s, k, v) == s.update(i, (k, v)),
    decreases i,
{
    if i == 0 {
        assert(assoc_update(s, k, v) =~= s.update(0, (k, v)));
    } else {
        lemma_assoc_update_at(s.drop_first(), k, v, i - 1);
        assert(assoc_update(s, k, v) =~= s.update(i, (k, v)));
    }
}

/// When the key is absent, the update is an append.
pub proof fn lemma_assoc_update_absent<V>(s: Seq<(Seq<char>, V)>, k: Seq<char>, v: V)
    requires
        forall|j: int| 0 <= j < s.len() ==> (#[trigger] s[j].0) != k,
    ensures
        assoc_update(s, k, v) == s.push((k, v)),
    decreases s.len(),
{
    if s.len() == 0 {
        assert(assoc_update(s, k, v) =~= s.push((k, v)));
    } else {
        lemma_assoc_update_absent(s.drop_first(), k, v);
        assert(assoc_update(s, k, v) =~= s.push((k, v)));
    }
}

/// Appending one entry adds exactly its key.
pub proof fn lemma_assoc_keys_push<V>(s: Seq<(Seq<char>, V)>, p: (Seq<char>, V))
    ensures
        assoc_keys(s.push(p)) == assoc_keys(s).insert(p.0),
{
    let s2 = s.push(p);
    assert(s2[s.len() as int] == p);
    assert(forall|j: int| 0 <= j < s.len() ==> (#[trigger] s2[j]) == s[j]);
    assert forall|kk: Seq<char>| assoc_keys(s2).contains(kk) implies assoc_keys(s).insert(
        p.0,
    ).contains(kk) by {
        let j = choose|j: int| 0 <= j < s2.len() && (#[trigger] s2[j].0) == kk;
        if j < s.len() {
            assert(s[j].0 == kk);
        }
    }
    assert forall|kk: Seq<char>| assoc_keys(s).insert(p.0).contains(kk) implies assoc_keys(
        s2,
    ).contains(kk) by {
        if kk == p.0 {
            assert(s2[s.len() as int].0 == kk);
        } else {
            let j = choose|j: int| 0 <= j < s.len() && (#[trigger] s[j].0) == kk;
            assert(s2[j].0 == kk);
        }
    }
    assert(assoc_keys(s2) =~= assoc_keys(s).insert(p.0));
}

/// Updating keeps keys unique and adds exactly the inserted key.
pub proof fn lemma_assoc_update_unique<V>(s: Seq<(Seq<char>, V)>, k: Seq<char>, v: V)
    requires
        unique_keys(s),
    ensures
        unique_keys(assoc_update(s, k, v)),
        assoc_keys(assoc_update(s, k, v)) == assoc_keys(s).insert(k),
{
    let s2 = assoc_update(s, k, v);
    if exists|i: int| 0 <= i < s.len() && (#[trigger] s[i].0) == k {
        let i = choose|i: int| 0 <= i < s.len() && (#[trigger] s[i].0) == k;
        assert(forall|j: int| 0 <= j < i ==> (#[trigger] s[j].0) != k) by {
            assert forall|j: int| 0 <= j < i implies (#[trigger] s[j].0) != k by {
                assert(s[j].0 != s[i].0);
            }
        }
        lemma_assoc_update_at(s, k, v, i);
        assert(forall|j: int| 0 <= j < s2.len() ==> (#[trigger] s2[j].0) == s[j].0);
        assert forall|kk: Seq<char>| assoc_keys(s2).contains(kk) implies assoc_keys(
            s,
        ).insert(k).contains(kk) by {
            let j = choose|j: int| 0 <= j < s2.len() && (#[trigger] s2[j].0) == kk;
            assert(s[j].0 == kk);
        }
        assert forall|kk: Seq<char>| assoc_keys(s).insert(k).contains(kk) implies assoc_keys(
            s2,
        ).contains(kk) by {
            if kk == k {
                assert(s2[i].0 == kk);
            } else {
                let j = choose|j: int| 0 <= j < s.len() && (#[trigger] s[j].0) == kk;
                assert(s2[j].0 == kk);
            }
        }
        assert(assoc_keys(s2) =~= assoc_keys(s).insert(k));
    } else {
        lemma_assoc_update_absent(s, k, v);
        assert(s2 == s.push((k, v)));
        assert(forall|j: int| 0 <= j < s.len() ==> (#[trigger] s2[j]) == s[j]);
        assert(s2[s.len() as int] == (k, v));
        assert forall|i: int, j: int| 0 <= i < j < s2.len() implies (#[trigger] s2[i].0) != (
        #[trigger] s2[j].0) by {
            if j < s.len() {
                assert(s[i].0 != s[j].0);
            } else {
                assert(s2[j].0 == k);
                assert(s[i].0 != k);
            }
        }
        assert forall|kk: Seq<char>| assoc_keys(s2).contains(kk) implies assoc_keys(
            s,
        ).insert(k).contains(kk) by {
            let j = choose|j: int| 0 <= j < s2.len() && (#[trigger] s2[j].0) == kk;
            if j < s.len() {
                assert(s[j].0 == kk);
            }
        }
        assert forall|kk: Seq<char>| assoc_keys(s).insert(k).contains(kk) implies assoc_keys(
            s2,
        ).contains(kk) by {
            if kk == k {
                assert(s2[s.len() as int].0 == kk);
            } else {
                let j = choose|j: int| 0 <= j < s.len() && (#[trigger] s[j].0) == kk;
                assert(s2[j].0 == kk);
            }
        }
        assert(assoc_keys(s2) =~= assoc_keys(s).insert(k));
    }
}

} // verus!
