//! The paint order: a sequence of identifiers, painted from index 0 (the back)
//! to the last index (the front), with no identifier twice.
use vstd::prelude::*;

verus! {

/// `s` with every occurrence of `id` taken out, the rest kept in order.
pub open spec fn without(s: Seq<u128>, id: u128) -> Seq<u128>
    decreases s.len(),
{
    if s.len() == 0 {
        s
    } else if s.last() == id {
        without(s.drop_last(), id)
    } else {
        without(s.drop_last(), id).push(s.last())
    }
}

/// What stays after taking `id` out is exactly what was there but `id`.
pub proof fn lemma_without_contains(s: Seq<u128>, id: u128, x: u128)
    ensures
        without(s, id).contains(x) <==> (s.contains(x) && x != id),
    decreases s.len(),
{
    if s.len() > 0 {
        let p = s.drop_last();
        lemma_without_contains(p, id, x);
        if s.contains(x) && x != id {
            let i = choose|i: int| 0 <= i < s.len() && s[i] == x;
            if i < s.len() - 1 {
                assert(p[i] == x);
            }
        }
        if p.contains(x) {
            let i = choose|i: int| 0 <= i < p.len() && p[i] == x;
            assert(s[i] == x);
        }
        if s.last() != id {
            let w = without(p, id);
            if w.push(s.last()).contains(x) && x != s.last() {
                let i = choose|i: int| 0 <= i < w.len() + 1 && w.push(s.last())[i] == x;
                assert(w[i] == x);
            }
            if w.contains(x) {
                let i = choose|i: int| 0 <= i < w.len() && w[i] == x;
                assert(w.push(s.last())[i] == x);
            }
            assert(w.push(s.last())[w.len() as int] == s.last());
        }
    }
}

/// Taking an identifier out keeps a sequence free of duplicates.
pub proof fn lemma_without_no_duplicates(s: Seq<u128>, id: u128)
    requires
        s.no_duplicates(),
    ensures
        without(s, id).no_duplicates(),
    decreases s.len(),
{
    if s.len() > 0 {
        let p = s.drop_last();
        assert(p.no_duplicates());
        lemma_without_no_duplicates(p, id);
        if s.last() != id {
            lemma_without_contains(p, id, s.last());
            assert(!p.contains(s.last())) by {
                if p.contains(s.last()) {
                    let i = choose|i: int| 0 <= i < p.len() && p[i] == s.last();
                    assert(s[i] == s[s.len() - 1]);
                }
            }
        }
    }
}

/// A sequence that does not hold `id` is its own `without`.
pub proof fn lemma_without_absent(s: Seq<u128>, id: u128)
    requires
        !s.contains(id),
    ensures
        without(s, id) == s,
    decreases s.len(),
{
    if s.len() > 0 {
        let p = s.drop_last();
        assert(!p.contains(id)) by {
            if p.contains(id) {
                let i = choose|i: int| 0 <= i < p.len() && p[i] == id;
                assert(s[i] == id);
            }
        }
        lemma_without_absent(p, id);
        assert(s[s.len() - 1] != id);
        assert(p.push(s.last()) =~= s);
    }
}

/// The first index at which `v` holds `id`, or `None` where it holds none.
pub fn position_of(v: &Vec<u128>, id: u128) -> (r: Option<usize>)
    ensures
        match r {
            Some(i) => i < v@.len() && v@[i as int] == id && forall|j: int|
                0 <= j < i ==> v@[j] != id,
            None => !v@.contains(id),
        },
{
    let mut i: usize = 0;
    while i < v.len()
        invariant
            i <= v@.len(),
            forall|j: int| 0 <= j < i ==> v@[j] != id,
        decreases v@.len() - i,
    {
        if v[i] == id {
            return Some(i);
        }
        i = i + 1;
    }
    None
}

/// A copy of `v` with every occurrence of `id` taken out.
pub fn copy_without(v: &Vec<u128>, id: u128) -> (r: Vec<u128>)
    ensures
        r@ == without(v@, id),
{
    let mut out: Vec<u128> = Vec::with_capacity(v.len());
    let mut i: usize = 0;
    while i < v.len()
        invariant
            i <= v@.len(),
            out@ == without(v@.take(i as int), id),
        decreases v@.len() - i,
    {
        let x = v[i];
        proof {
            assert(v@.take(i as int + 1).drop_last() =~= v@.take(i as int));
        }
        if x != id {
            out.push(x);
        }
        i = i + 1;
    }
    proof {
        assert(v@.take(v@.len() as int) =~= v@);
    }
    out
}

} // verus!
