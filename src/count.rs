use vstd::prelude::*;

use crate::scan::PortPhase;

verus! {

/// How many entries of `s` satisfy `f`.
pub open spec fn count_where(s: Seq<PortPhase>, f: spec_fn(PortPhase) -> bool) -> nat
    decreases s.len(),
{
    if s.len() == 0 {
        0
    } else {
        count_where(s.drop_last(), f) + if f(s.last()) {
            1nat
        } else {
            0nat
        }
    }
}

/// Replacing one entry changes the count by what the old and new entry add.
pub proof fn lemma_count_update(s: Seq<PortPhase>, i: int, x: PortPhase, f: spec_fn(PortPhase) -> bool)
    requires
        0 <= i < s.len(),
    ensures
        count_where(s.update(i, x), f) as int == count_where(s, f) as int - (if f(s[i]) {
            1int
        } else {
            0int
        }) + (if f(x) {
            1int
        } else {
            0int
        }),
    decreases s.len(),
{
    let t = s.update(i, x);
    if i == s.len() - 1 {
        assert(t.drop_last() =~= s.drop_last());
    } else {
        assert(t.drop_last() =~= s.drop_last().update(i, x));
        lemma_count_update(s.drop_last(), i, x, f);
    }
}

/// The count lies between zero and the length, and reaches either bound
/// exactly when no entry, or every entry, satisfies `f`.
pub proof fn lemma_count_bounds(s: Seq<PortPhase>, f: spec_fn(PortPhase) -> bool)
    ensures
        count_where(s, f) <= s.len(),
        count_where(s, f) == s.len() <==> (forall|i: int| 0 <= i < s.len() ==> #[trigger] f(s[i])),
        count_where(s, f) == 0 <==> (forall|i: int| 0 <= i < s.len() ==> !#[trigger] f(s[i])),
    decreases s.len(),
{
    if s.len() > 0 {
        let d = s.drop_last();
        lemma_count_bounds(d, f);
        assert(forall|i: int| 0 <= i < d.len() ==> d[i] == s[i]);
        if count_where(s, f) == s.len() {
            assert forall|i: int| 0 <= i < s.len() implies #[trigger] f(s[i]) by {
                if i < d.len() {
                    assert(f(d[i]));
                }
            }
        }
        if forall|i: int| 0 <= i < s.len() ==> #[trigger] f(s[i]) {
            assert(f(s[s.len() - 1]));
            assert forall|i: int| 0 <= i < d.len() implies #[trigger] f(d[i]) by {
                assert(f(s[i]));
            }
        }
        if count_where(s, f) == 0 {
            assert forall|i: int| 0 <= i < s.len() implies !#[trigger] f(s[i]) by {
                if i < d.len() {
                    assert(!f(d[i]));
                }
            }
        }
        if forall|i: int| 0 <= i < s.len() ==> !#[trigger] f(s[i]) {
            assert(!f(s[s.len() - 1]));
            assert forall|i: int| 0 <= i < d.len() implies !#[trigger] f(d[i]) by {
                assert(!f(s[i]));
            }
        }
    }
}

} // verus!
