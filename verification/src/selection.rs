//! Keeping the items of a list that a predicate accepts.

use vstd::prelude::*;

verus! {

/// The items of `s` whose flag in `keep` is set, in order.
pub open spec fn select<T>(s: Seq<T>, keep: Seq<bool>) -> Seq<T>
    decreases s.len(),
{
    if s.len() == 0 {
        seq![]
    } else {
        let prev = select(s.drop_last(), keep.take(s.len() - 1));
        if keep[s.len() - 1] {
            prev.push(s.last())
        } else {
            prev
        }
    }
}

/// `keep` holds, for each item of `s`, an answer `f` may give on it.
pub open spec fn answers<T, F: Fn(&T) -> bool>(f: F, s: Seq<T>, keep: Seq<bool>) -> bool {
    &&& keep.len() == s.len()
    &&& forall|i: int| 0 <= i < s.len() ==> call_ensures(f, (&s[i],), #[trigger] keep[i])
}

/// Keeps the items `f` accepts (`Vec::retain`); each item is asked once, in
/// order.
pub fn retain_with<T, F: Fn(&T) -> bool>(v: &mut Vec<T>, f: F) -> (keep: Ghost<Seq<bool>>)
    requires
        forall|x: &T| f.requires((x,)),
    ensures
        answers(f, old(v)@, keep@),
        final(v)@ == select(old(v)@, keep@),
{
    let ghost orig = v@;
    let mut rest: Vec<T> = Vec::new();
    std::mem::swap(&mut rest, v);
    let total = rest.len();
    let mut kept: Vec<T> = Vec::new();
    let ghost mut flags: Seq<bool> = seq![];
    let mut i: usize = 0;
    while rest.len() > 0
        invariant
            forall|x: &T| f.requires((x,)),
            i + rest@.len() == orig.len() == total,
            rest@ == orig.skip(i as int),
            answers(f, orig.take(i as int), flags),
            kept@ == select(orig.take(i as int), flags),
        decreases rest@.len(),
    {
        let x = rest.remove(0);
        let b = f(&x);
        proof {
            assert(x == orig[i as int]);
            let t = orig.take(i + 1);
            let nf = flags.push(b);
            assert(t.drop_last() =~= orig.take(i as int));
            assert(nf.take(t.len() - 1) =~= flags);
            assert forall|j: int| 0 <= j < t.len() implies call_ensures(f, (&t[j],), #[trigger] nf[j]) by {
                if j < i {
                    assert(t[j] == orig.take(i as int)[j]);
                }
            }
        }
        if b {
            kept.push(x);
        }
        proof {
            flags = flags.push(b);
            assert(rest@ =~= orig.skip(i + 1));
        }
        i = i + 1;
    }
    assert(orig.take(i as int) =~= orig);
    *v = kept;
    Ghost(flags)
}

} // verus!
