use vstd::prelude::*;

use crate::codec::nt2int;
use crate::codec::nt_code;
use crate::codec::tri_code;
use crate::codec::trinucleotide;

verus! {

/// A codon that opens or closes a gene on one of the strands.
#[derive(Clone, Copy, PartialEq, Eq, Structural)]
pub enum Signal {
    /// `TAA`, `TAG`, `TGA`: end of a forward gene.
    ForwardStop,
    /// `TTA`, `CTA`, `TCA`: a stop read on the reverse strand.
    ReverseStop,
    /// `ATG`, `GTG`, `TTG`: start of a forward gene.
    ForwardStart,
    /// `CAT`, `CAC`, `CAA`: a start read on the reverse strand.
    ReverseStart,
}

/// Which variant of a signal codon `a b c` is, numbered in the order listed on
/// `Signal`; `None` when the codon is not that signal.
pub open spec fn signal_variant(sig: Signal, a: char, b: char, c: char) -> Option<usize> {
    let (x, y, z) = (nt_code(a), nt_code(b), nt_code(c));
    match sig {
        Signal::ForwardStop => if x != 3 {
            None
        } else if y == 0 && z == 0 {
            Some(0)
        } else if y == 0 && z == 2 {
            Some(1)
        } else if y == 2 && z == 0 {
            Some(2)
        } else {
            None
        },
        Signal::ReverseStop => if z != 0 {
            None
        } else if x == 3 && y == 3 {
            Some(0)
        } else if x == 1 && y == 3 {
            Some(1)
        } else if x == 3 && y == 1 {
            Some(2)
        } else {
            None
        },
        Signal::ForwardStart => if y != 3 || z != 2 {
            None
        } else if x == 0 {
            Some(0)
        } else if x == 2 {
            Some(1)
        } else if x == 3 {
            Some(2)
        } else {
            None
        },
        Signal::ReverseStart => if x != 1 || y != 0 {
            None
        } else if z == 3 {
            Some(0)
        } else if z == 1 {
            Some(1)
        } else if z == 0 {
            Some(2)
        } else {
            None
        },
    }
}

/// The signal codon starting at position `t` of `seq`, if the codon fits in `seq`.
pub open spec fn signal_in(seq: Seq<char>, t: int, sig: Signal) -> Option<usize> {
    if 0 <= t && t + 2 < seq.len() {
        signal_variant(sig, seq[t], seq[t + 1], seq[t + 2])
    } else {
        None
    }
}

/// Looks for the signal codon `sig` at positions `t..t+3` of `seq` and tells which
/// variant it is.
pub fn signal_at(seq: &Vec<char>, t: usize, sig: Signal) -> (r: Option<usize>)
    ensures
        r == signal_in(seq@, t as int, sig),
{
    if t >= seq.len() || seq.len() - t < 3 {
        return None;
    }
    let x = nt2int(seq[t]);
    let y = nt2int(seq[t + 1]);
    let z = nt2int(seq[t + 2]);
    match sig {
        Signal::ForwardStop => if x != 3 {
            None
        } else if y == 0 && z == 0 {
            Some(0)
        } else if y == 0 && z == 2 {
            Some(1)
        } else if y == 2 && z == 0 {
            Some(2)
        } else {
            None
        },
        Signal::ReverseStop => if z != 0 {
            None
        } else if x == 3 && y == 3 {
            Some(0)
        } else if x == 1 && y == 3 {
            Some(1)
        } else if x == 3 && y == 1 {
            Some(2)
        } else {
            None
        },
        Signal::ForwardStart => if y != 3 || z != 2 {
            None
        } else if x == 0 {
            Some(0)
        } else if x == 2 {
            Some(1)
        } else if x == 3 {
            Some(2)
        } else {
            None
        },
        Signal::ReverseStart => if x != 1 || y != 0 {
            None
        } else if z == 3 {
            Some(0)
        } else if z == 1 {
            Some(1)
        } else if z == 0 {
            Some(2)
        } else {
            None
        },
    }
}

/// `(x, y)` are the codes of two bases that a stop `T..` of the forward strand
/// completes: `AA`, `AG` or `GA`.
pub open spec fn stop_tail(x: nat, y: nat) -> bool {
    (x == 0 && y == 0) || (x == 0 && y == 2) || (x == 2 && y == 0)
}

/// `(x, y)` are the codes of the two bases that precede `A` in a reverse stop:
/// `TT`, `CT` or `TC`.
pub open spec fn reverse_stop_head(x: nat, y: nat) -> bool {
    (x == 3 && y == 3) || (x == 1 && y == 3) || (x == 3 && y == 1)
}

/// On the forward strand, an insertion run that left the match states after position `k`
/// and rejoins match phase `phase` (0 for `M1`) at `t` would put a stop codon across the
/// run.
pub open spec fn spans_forward_stop(seq: Seq<char>, phase: int, k: int, t: int) -> bool {
    if phase == 1 || phase == 4 {
        nt_code(seq[k]) == 3 && t + 1 < seq.len() && stop_tail(nt_code(seq[t]), nt_code(seq[t + 1]))
    } else if phase == 2 || phase == 5 {
        k >= 1 && nt_code(seq[k - 1]) == 3 && stop_tail(nt_code(seq[k]), nt_code(seq[t]))
    } else {
        false
    }
}

/// The mirror of `spans_forward_stop` for the reverse strand, whose stops read
/// `TTA`, `CTA`, `TCA` on the forward strand.
pub open spec fn spans_reverse_stop(seq: Seq<char>, phase: int, k: int, t: int) -> bool {
    if phase == 1 || phase == 4 {
        t + 1 < seq.len() && nt_code(seq[t + 1]) == 0 && reverse_stop_head(
            nt_code(seq[k]),
            nt_code(seq[t]),
        )
    } else if phase == 2 || phase == 5 {
        nt_code(seq[t]) == 0 && k >= 1 && reverse_stop_head(nt_code(seq[k - 1]), nt_code(seq[k]))
    } else {
        false
    }
}

/// Whether the transition from an insertion state back to match phase `phase` is taken
/// into account at position `t`: never before position 2 (nor at the last position on the
/// reverse strand), and never when it would splice a stop codon.
pub open spec fn insertion_exit_open(
    seq: Seq<char>,
    forward: bool,
    phase: int,
    k: int,
    t: int,
) -> bool {
    if forward {
        t >= 2 && !spans_forward_stop(seq, phase, k, t)
    } else {
        t >= 2 && t + 1 < seq.len() && !spans_reverse_stop(seq, phase, k, t)
    }
}

fn is_stop_tail(x: usize, y: usize) -> (r: bool)
    ensures
        r == stop_tail(x as nat, y as nat),
{
    (x == 0 && y == 0) || (x == 0 && y == 2) || (x == 2 && y == 0)
}

fn is_reverse_stop_head(x: usize, y: usize) -> (r: bool)
    ensures
        r == reverse_stop_head(x as nat, y as nat),
{
    (x == 3 && y == 3) || (x == 1 && y == 3) || (x == 3 && y == 1)
}

/// Decides whether an insertion state may return to match phase `phase` at `t`, where
/// `k` is the position after which the insertion run began.
pub fn insertion_exit_allowed(seq: &Vec<char>, forward: bool, phase: usize, k: usize, t: usize) -> (r:
    bool)
    requires
        k < seq@.len(),
        t < seq@.len(),
    ensures
        r == insertion_exit_open(seq@, forward, phase as int, k as int, t as int),
{
    let len = seq.len();
    if t < 2 {
        return false;
    }
    if forward {
        if phase == 1 || phase == 4 {
            !(nt2int(seq[k]) == 3 && t + 1 < len && is_stop_tail(nt2int(seq[t]), nt2int(seq[t + 1])))
        } else if phase == 2 || phase == 5 {
            !(k >= 1 && nt2int(seq[k - 1]) == 3 && is_stop_tail(nt2int(seq[k]), nt2int(seq[t])))
        } else {
            true
        }
    } else {
        if t + 1 >= len {
            false
        } else if phase == 1 || phase == 4 {
            !(nt2int(seq[t + 1]) == 0 && is_reverse_stop_head(nt2int(seq[k]), nt2int(seq[t])))
        } else if phase == 2 || phase == 5 {
            !(nt2int(seq[t]) == 0 && k >= 1 && is_reverse_stop_head(
                nt2int(seq[k - 1]),
                nt2int(seq[k]),
            ))
        } else {
            true
        }
    }
}

/// Number of codon phases that a path through deletion states advances when it goes
/// from match phase `source` to match phase `target` (phases 0..6, `M1` first); `None`
/// where no deletion path joins them (the next phase is a plain match step, and phase 0
/// is never entered from phase 5 through deletions).
pub open spec fn deletion_span(target: int, source: int) -> Option<usize> {
    if target == 0 && source == 5 {
        None
    } else if source >= target {
        Some((target - source + 6) as usize)
    } else if source + 1 < target {
        Some((target - source) as usize)
    } else {
        None
    }
}

/// Executable form of `deletion_span`.
pub fn skip_count(target: usize, source: usize) -> (r: Option<usize>)
    requires
        target < 6,
        source < 6,
    ensures
        r == deletion_span(target as int, source as int),
        r matches Some(n) ==> 2 <= n <= 6,
{
    if target == 0 && source == 5 {
        None
    } else if source >= target {
        Some(target + 6 - source)
    } else if source + 1 < target {
        Some(target - source)
    } else {
        None
    }
}

/// Length of the run of unknown bases that ends at position `t`, counted from position 1.
pub open spec fn n_run(seq: Seq<char>, t: int) -> nat
    decreases t,
{
    if t <= 0 {
        0
    } else if nt_code(seq[t]) == 4 {
        n_run(seq, t - 1) + 1
    } else {
        0
    }
}

/// For each position, whether a run of more than 9 unknown bases ends there; at such a
/// position only the non-coding state stays open.
pub fn long_n_runs(seq: &Vec<char>) -> (r: Vec<bool>)
    ensures
        r@.len() == seq@.len(),
        forall|t: int| 0 <= t < seq@.len() ==> #[trigger] r@[t] == (n_run(seq@, t) > 9),
{
    let len = seq.len();
    let mut r: Vec<bool> = Vec::new();
    let mut run: usize = 0;
    let mut t: usize = 0;
    while t < len
        invariant
            len == seq@.len(),
            t <= len,
            r@.len() == t,
            t > 0 ==> run == n_run(seq@, t - 1),
            run <= t,
            forall|i: int| 0 <= i < t ==> #[trigger] r@[i] == (n_run(seq@, i) > 9),
        decreases len - t,
    {
        if t == 0 {
            run = 0;
        } else if nt2int(seq[t]) == 4 {
            run = run + 1;
        } else {
            run = 0;
        }
        r.push(run > 9);
        t = t + 1;
    }
    r
}

/// In a sequence of unknown bases only, every position from the tenth on closes a
/// run longer than 9, so there only the non-coding state stays open.
pub proof fn lemma_unknown_run(seq: Seq<char>, t: int)
    requires
        forall|i: int| 0 <= i < seq.len() ==> nt_code(#[trigger] seq[i]) == 4,
        0 <= t < seq.len(),
    ensures
        n_run(seq, t) == t,
        t >= 10 ==> n_run(seq, t) > 9,
    decreases t,
{
    if t > 0 {
        lemma_unknown_run(seq, t - 1);
    }
}

/// The context scored around a signal found at `t`: the `(row, key)` cells of the
/// positional table to sum (row of the window position, trinucleotide key there), and,
/// where the window was cut short by the start of the sequence, the factor
/// `numerator / denominator` that scales the sum up to a full window.
pub struct ContextWindow {
    pub terms: Vec<(usize, usize)>,
    pub scale: Option<(usize, usize)>,
}

/// Smallest offset from `t` of the window of `sig`, and the number of offsets in it.
pub open spec fn window_shape(t: int, len: int, sig: Signal) -> (int, int) {
    match sig {
        Signal::ForwardStop => {
            let m = if t >= 60 { 60 } else { t };
            (m, if m >= 3 { m - 2 } else { 0 })
        },
        Signal::ReverseStop => {
            let n = len - t - 5;
            (3, if n < 0 { 0 } else if n > 58 { 58 } else { n })
        },
        _ => {
            let lo = if t >= 30 { -30 } else { -t };
            let n = len - t - 2 - lo;
            let full = 31 - lo;
            (lo, if n < 0 { 0 } else if n > full { full } else { n })
        },
    }
}

/// The `k`-th term of the window of `sig` at `t`. The window before a stop is read
/// from 60 bases upstream towards the stop; the others from their smallest offset up.
pub open spec fn window_term(seq: Seq<char>, t: int, sig: Signal, k: int) -> (usize, usize) {
    let (m, n) = window_shape(t, seq.len() as int, sig);
    let (i, row) = match sig {
        Signal::ForwardStop => (-(m - k), 60 - (m - k)),
        Signal::ReverseStop => (3 + k, k),
        _ => (m + k, m + k + 30),
    };
    let j = t + i;
    (row as usize, tri_code(seq[j], seq[j + 1], seq[j + 2]) as usize)
}

/// The terms of the context window of `sig` at `t`.
pub open spec fn window_terms(seq: Seq<char>, t: int, sig: Signal) -> Seq<(usize, usize)> {
    Seq::new(window_shape(t, seq.len() as int, sig).1 as nat, |k: int| window_term(seq, t, sig, k))
}

/// The scale of a window cut short by the start of the sequence: 58 over the positions
/// scored before a stop, 61 over the 31 + `t` positions around a start.
pub open spec fn window_scale(seq: Seq<char>, t: int, sig: Signal) -> Option<(usize, usize)> {
    let n = window_shape(t, seq.len() as int, sig).1;
    match sig {
        Signal::ForwardStop => if t < 60 && n > 0 {
            Some((58usize, (t - 2) as usize))
        } else {
            None
        },
        Signal::ReverseStop => None,
        _ => if t < 30 && n > 0 {
            Some((61usize, (31 + t) as usize))
        } else {
            None
        },
    }
}

/// Lists the cells of the positional table that score the context of the signal `sig`
/// found at `t`.
pub fn context_window(seq: &Vec<char>, t: usize, sig: Signal) -> (r: ContextWindow)
    requires
        t < seq@.len(),
    ensures
        r.terms@ == window_terms(seq@, t as int, sig),
        r.scale == window_scale(seq@, t as int, sig),
        forall|k: int| 0 <= k < r.terms@.len() ==> #[trigger] r.terms@[k].0 <= 60 && r.terms@[k].1 < 64,
{
    let len = seq.len();
    let ghost shape = window_shape(t as int, len as int, sig);
    let (m, n): (usize, usize) = match sig {
        Signal::ForwardStop => {
            let m = if t >= 60 { 60 } else { t };
            (m, if m >= 3 { m - 2 } else { 0 })
        },
        Signal::ReverseStop => {
            let n = if len - t < 5 { 0 } else if len - t - 5 > 58 { 58 } else { len - t - 5 };
            (3, n)
        },
        _ => {
            let back = if t >= 30 { 30 } else { t };
            let full = 31 + back;
            let avail = len - t + back;
            let n = if avail < 2 { 0 } else if avail - 2 > full { full } else { avail - 2 };
            (back, n)
        },
    };
    assert(n == shape.1);
    let mut terms: Vec<(usize, usize)> = Vec::new();
    let mut k: usize = 0;
    while k < n
        invariant
            len == seq@.len(),
            t < len,
            n == shape.1,
            shape == window_shape(t as int, len as int, sig),
            (sig == Signal::ForwardStop ==> m == shape.0),
            (sig != Signal::ForwardStop && sig != Signal::ReverseStop) ==> m == -shape.0,
            k <= n,
            terms@ =~= window_terms(seq@, t as int, sig).subrange(0, k as int),
            forall|q: int| 0 <= q < terms@.len() ==> #[trigger] terms@[q].0 <= 60 && terms@[q].1 < 64,
        decreases n - k,
    {
        let (j, row): (usize, usize) = match sig {
            Signal::ForwardStop => (t - (m - k), 60 - (m - k)),
            Signal::ReverseStop => (t + 3 + k, k),
            _ => (t - m + k, k + 30 - m),
        };
        let key = trinucleotide(&seq[j], &seq[j + 1], &seq[j + 2]);
        terms.push((row, key));
        k = k + 1;
    }
    let scale = match sig {
        Signal::ForwardStop => if t < 60 && n > 0 {
            Some((58, t - 2))
        } else {
            None
        },
        Signal::ReverseStop => None,
        _ => if t < 30 && n > 0 {
            Some((61, 31 + t))
        } else {
            None
        },
    };
    ContextWindow { terms, scale }
}

} // verus!
