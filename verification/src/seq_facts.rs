//! Facts about filtered sequences that the pool and the cache share.
use vstd::prelude::*;

verus! {

/// Which keys survive a filter: those of the elements that pass it. A
/// sequence without repeated keys has none after the filter either.
pub proof fn lemma_filter_keys<A>(
    s: Seq<A>,
    key: spec_fn(A) -> Seq<char>,
    pred: spec_fn(A) -> bool,
)
    ensures
        forall|k: Seq<char>|
            s.filter(pred).map_values(key).contains(k) <==> exists|i: int|
                0 <= i < s.len() && key(#[trigger] s[i]) == k && pred(s[i]),
        s.map_values(key).no_duplicates() ==> s.filter(pred).map_values(key).no_duplicates(),
    decreases s.len(),
{
    reveal(Seq::filter);
    if s.len() > 0 {
        let init = s.drop_last();
        let last = s.last();
        let kept = init.filter(pred);
        lemma_filter_keys(init, key, pred);
        assert forall|k: Seq<char>|
            s.filter(pred).map_values(key).contains(k) <==> exists|i: int|
                0 <= i < s.len() && key(#[trigger] s[i]) == k && pred(s[i]) by {
            let out = s.filter(pred).map_values(key);
            if out.contains(k) {
                let j = choose|j: int| 0 <= j < out.len() && out[j] == k;
                if j < kept.len() {
                    assert(kept.map_values(key)[j] == k);
                    assert(kept.map_values(key).contains(k));
                    let i = choose|i: int|
                        0 <= i < init.len() && key(#[trigger] init[i]) == k && pred(init[i]);
                    assert(s[i] == init[i]);
                } else {
                    assert(s[s.len() - 1] == last);
                }
            }
            if exists|i: int| 0 <= i < s.len() && key(#[trigger] s[i]) == k && pred(s[i]) {
                let i = choose|i: int| 0 <= i < s.len() && key(#[trigger] s[i]) == k && pred(s[i]);
                if i < init.len() {
                    assert(init[i] == s[i]);
                    assert(kept.map_values(key).contains(k));
                    let j = choose|j: int|
                        0 <= j < kept.map_values(key).len() && kept.map_values(key)[j] == k;
                    assert(out[j] == k);
                } else {
                    assert(out[out.len() - 1] == k);
                }
            }
        }
        if s.map_values(key).no_duplicates() {
            let out = s.filter(pred).map_values(key);
            assert(init.map_values(key).no_duplicates()) by {
                assert forall|i: int, j: int|
                    0 <= i < init.len() && 0 <= j < init.len() && i != j implies init.map_values(
                    key,
                )[i] != init.map_values(key)[j] by {
                    assert(s.map_values(key)[i] != s.map_values(key)[j]);
                }
            }
            if pred(last) {
                assert forall|i: int, j: int|
                    0 <= i < out.len() && 0 <= j < out.len() && i != j implies out[i] != out[j] by {
                    if i < kept.len() && j < kept.len() {
                        assert(kept.map_values(key)[i] != kept.map_values(key)[j]);
                    } else {
                        let low = if i < kept.len() { i } else { j };
                        assert(kept.map_values(key).contains(kept.map_values(key)[low]));
                        let m = choose|m: int|
                            0 <= m < init.len() && key(#[trigger] init[m]) == kept.map_values(
                                key,
                            )[low] && pred(init[m]);
                        assert(s.map_values(key)[m] != s.map_values(key)[s.len() - 1]);
                    }
                }
            }
        }
    }
}

/// A filter that every element passes changes nothing.
pub proof fn lemma_filter_all<A>(s: Seq<A>, pred: spec_fn(A) -> bool)
    requires
        forall|i: int| 0 <= i < s.len() ==> pred(#[trigger] s[i]),
    ensures
        s.filter(pred) == s,
    decreases s.len(),
{
    reveal(Seq::filter);
    if s.len() > 0 {
        lemma_filter_all(s.drop_last(), pred);
        assert(s.drop_last().push(s.last()) =~= s);
    }
}

/// Two filters may be applied in either order.
pub proof fn lemma_filter_commutes<A>(s: Seq<A>, p: spec_fn(A) -> bool, q: spec_fn(A) -> bool)
    ensures
        s.filter(p).filter(q) == s.filter(q).filter(p),
    decreases s.len(),
{
    reveal(Seq::filter);
    if s.len() > 0 {
        let init = s.drop_last();
        let last = s.last();
        lemma_filter_commutes(init, p, q);
        init.filter(p).lemma_filter_push(last, q);
        init.filter(q).lemma_filter_push(last, p);
    }
}

} // verus!
