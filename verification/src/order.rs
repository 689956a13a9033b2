//! Increasing sequences of numbers.
use vstd::prelude::*;

verus! {

/// Whether each number of `s` is greater than those before it.
pub open spec fn increasing(s: Seq<int>) -> bool {
    forall|j: int, k: int| 0 <= j < k < s.len() ==> #[trigger] s[j] < #[trigger] s[k]
}

/// Increasing sequences of the same numbers are the same.
pub proof fn same_numbers_same_sequence(a: Seq<int>, b: Seq<int>)
    requires
        increasing(a),
        increasing(b),
        forall|x: int| a.contains(x) <==> b.contains(x),
    ensures
        a == b,
    decreases a.len(),
{
    if a.len() == 0 {
        if b.len() > 0 {
            assert(b.contains(b[0]));
        }
        assert(a =~= b);
    } else {
        let x = a.last();
        assert(a.contains(x)) by {
            assert(a[a.len() - 1] == x);
        }
        assert(b.contains(x));
        let k = choose|k: int| 0 <= k < b.len() && b[k] == x;
        let y = b.last();
        assert(b.contains(y)) by {
            assert(b[b.len() - 1] == y);
        }
        assert(a.contains(y));
        let j = choose|j: int| 0 <= j < a.len() && a[j] == y;
        assert(x == y) by {
            if k < b.len() - 1 {
                assert(b[k] < b[b.len() - 1]);
            }
            if j < a.len() - 1 {
                assert(a[j] < a[a.len() - 1]);
            }
        }
        let c = a.drop_last();
        let d = b.drop_last();
        assert forall|z: int| c.contains(z) <==> d.contains(z) by {
            if c.contains(z) {
                let i = choose|i: int| 0 <= i < c.len() && c[i] == z;
                assert(a[i] == z && a[i] < a[a.len() - 1]);
                assert(a.contains(z));
                let m = choose|m: int| 0 <= m < b.len() && b[m] == z;
                assert(d[m] == z);
            }
            if d.contains(z) {
                let i = choose|i: int| 0 <= i < d.len() && d[i] == z;
                assert(b[i] == z && b[i] < b[b.len() - 1]);
                assert(b.contains(z));
                let m = choose|m: int| 0 <= m < a.len() && a[m] == z;
                assert(c[m] == z);
            }
        }
        same_numbers_same_sequence(c, d);
        assert(a =~= c.push(x));
        assert(b =~= d.push(y));
    }
}

} // verus!
