//! The integer side of aggregation: which years a user was active in.
//!
//! Decayed totals are floating-point and are summed by the service; the span
//! of active years is decided here.

use vstd::prelude::*;

verus! {

/// The active span of a list of contribution years: years with
/// contributions, not the calendar span between them.
pub fn contribution_span(years: &[i32], current_year: i32) -> (r: (i32, i32, i32))
    ensures
        years@.len() == 0 ==> r == (current_year, current_year, 0i32),
        years@.len() > 0 ==> {
            &&& years@.contains(r.0)
            &&& years@.contains(r.1)
            &&& forall|k: int| 0 <= k < years@.len() ==> r.0 <= #[trigger] years@[k] <= r.1
            &&& r.2 == (years@.len() as usize) as i32
        },
{
    let n = years.len();
    if n == 0 {
        return (current_year, current_year, 0);
    }
    let mut first = years[0];
    let mut last = years[0];
    let mut i: usize = 1;
    assert(years@.subrange(0, 1)[0] == first);
    while i < n
        invariant
            n == years@.len(),
            1 <= i <= n,
            years@.subrange(0, i as int).contains(first),
            years@.subrange(0, i as int).contains(last),
            forall|k: int| 0 <= k < i ==> first <= #[trigger] years@[k] <= last,
        decreases n - i,
    {
        let y = years[i];
        proof {
            let next = years@.subrange(0, i + 1);
            let prev = years@.subrange(0, i as int);
            assert(next[i as int] == y);
            assert forall|x: i32| prev.contains(x) implies next.contains(x) by {
                let j = choose|j: int| 0 <= j < prev.len() && prev[j] == x;
                assert(next[j] == x);
            }
        }
        if y < first {
            first = y;
        }
        if y > last {
            last = y;
        }
        i = i + 1;
    }
    assert(years@.subrange(0, n as int) =~= years@);
    let count: i32 = #[verifier::truncate] (n as i32);
    (first, last, count)
}

} // verus!
