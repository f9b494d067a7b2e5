use vstd::prelude::*;

use crate::states::NUM_STATE;

verus! {

/// A tag that names a state of the model.
pub open spec fn is_state(x: int) -> bool {
    0 <= x < NUM_STATE
}

/// The state at position `t` of the path that ends in `last` at the final position
/// `len - 1` and follows the predecessor tags of `path` (`path[s][t]` is the predecessor,
/// at `t - 1`, of state `s` at `t`); -1 once a tag met on the way is not a state.
pub open spec fn traced_state(path: Seq<Seq<i8>>, last: int, len: int, t: int) -> int
    decreases len - t,
{
    if t >= len - 1 {
        last
    } else {
        let next = traced_state(path, last, len, t + 1);
        if is_state(next) && is_state(path[next][t + 1] as int) {
            path[next][t + 1] as int
        } else {
            -1
        }
    }
}

/// A predecessor table: one row of `len` tags for each state.
pub open spec fn path_table(path: Seq<Vec<i8>>, len: int) -> bool {
    path.len() == NUM_STATE && forall|s: int| 0 <= s < NUM_STATE ==> #[trigger] path[s]@.len() == len
}

/// The tags of a predecessor table as sequences.
pub open spec fn table_view(path: Seq<Vec<i8>>) -> Seq<Seq<i8>> {
    path.map_values(|row: Vec<i8>| row@)
}

/// Backtracks the best state path: `last` is the best state at the final position and
/// `path` gives each cell's predecessor. `None` when a tag met on the way is not a state.
pub fn backtrack(path: &Vec<Vec<i8>>, last: usize) -> (r: Option<Vec<usize>>)
    requires
        path@.len() == NUM_STATE,
        path_table(path@, path@[0]@.len() as int),
        path@[0]@.len() >= 1,
        last < NUM_STATE,
    ensures
        match r {
            Some(v) => {
                &&& v@.len() == path@[0]@.len()
                &&& forall|t: int|
                    0 <= t < v@.len() ==> #[trigger] v@[t] as int == traced_state(
                        table_view(path@),
                        last as int,
                        path@[0]@.len() as int,
                        t,
                    )
                &&& forall|t: int| 0 <= t < v@.len() ==> #[trigger] v@[t] < NUM_STATE
            },
            None => exists|t: int|
                0 <= t < path@[0]@.len() && !is_state(
                    #[trigger] traced_state(table_view(path@), last as int, path@[0]@.len() as int, t),
                ),
        },
{
    let len = path[0].len();
    let ghost p = table_view(path@);
    let mut rev: Vec<usize> = Vec::new();
    rev.push(last);
    let mut state: usize = last;
    let mut t: usize = len - 1;
    while t > 0
        invariant
            path_table(path@, len as int),
            p == table_view(path@),
            t < len,
            state < NUM_STATE,
            state as int == traced_state(p, last as int, len as int, t as int),
            rev@.len() == len - t,
            forall|i: int|
                0 <= i < rev@.len() ==> #[trigger] rev@[i] as int == traced_state(
                    p,
                    last as int,
                    len as int,
                    len - 1 - i,
                ),
            forall|i: int| 0 <= i < rev@.len() ==> #[trigger] rev@[i] < NUM_STATE,
        decreases t,
    {
        let tag = path[state][t];
        assert(p[state as int] == path@[state as int]@);
        assert(p[state as int][t as int] == tag);
        if tag < 0 || tag as usize >= NUM_STATE {
            let ghost w = (t - 1) as int;
            assert(!is_state(traced_state(table_view(path@), last as int, len as int, w)));
            assert(0 <= w < path@[0]@.len());
            return None;
        }
        state = tag as usize;
        t = t - 1;
        rev.push(state);
    }
    let mut v: Vec<usize> = Vec::new();
    let mut i: usize = 0;
    while i < len
        invariant
            rev@.len() == len,
            i <= len,
            v@.len() == i,
            forall|j: int| 0 <= j < i ==> #[trigger] v@[j] == rev@[len - 1 - j],
        decreases len - i,
    {
        v.push(rev[len - 1 - i]);
        i = i + 1;
    }
    Some(v)
}

} // verus!
