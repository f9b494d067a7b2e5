use vstd::prelude::*;

use crate::codec::get_protein;
use crate::codec::get_rc_dna;
use crate::codec::reverse_complement;
use crate::codec::strlen;
use crate::codec::translate;
use crate::codec::text_len;
use crate::codec::tri_code;
use crate::codec::trinucleotide;
use crate::rules::signal_at;
use crate::rules::signal_in;
use crate::rules::Signal;
use crate::states::NUM_STATE;
use crate::states::M1_STATE;
use crate::states::M4_STATE;
use crate::states::M6_STATE_1;
use crate::states::I1_STATE;
use crate::states::I6_STATE_1;
use crate::states::S_STATE;
use crate::states::E_STATE;
use crate::states::R_STATE;
use crate::states::S_STATE_1;
use crate::states::E_STATE_1;
use crate::states::M6_STATE;
use crate::states::M1_STATE_1;
use crate::states::M4_STATE_1;
use crate::states::is_match;
use crate::states::is_insert;
use crate::states::is_codon_entry;

verus! {

/// A gene found on the best state path, before its DNA and protein are read.
pub struct OrfSpan {
    /// True for a gene on the forward strand.
    pub forward: bool,
    /// 1-based position at which the path entered the gene (its first start or match
    /// state).
    pub start_t: usize,
    /// 1-based last position of the gene, its stop codon included; for a gene still
    /// open at the end of the path, the 0-based index of its last codon's first base, so
    /// that this incomplete codon is left out.
    pub end_t: usize,
    /// 1-based first position of the gene's DNA.
    pub dna_start_t: usize,
    /// Reading frame, 1 to 3.
    pub frame: usize,
    /// 1-based positions read by insertion states.
    pub insert: Vec<usize>,
    /// 1-based positions at which the path skipped bases through deletion states.
    pub delete: Vec<usize>,
}

/// The mathematical content of an `OrfSpan`.
pub struct SpanView {
    pub forward: bool,
    pub start_t: int,
    pub end_t: int,
    pub dna_start_t: int,
    pub frame: int,
    pub insert: Seq<usize>,
    pub delete: Seq<usize>,
}

impl View for OrfSpan {
    type V = SpanView;

    open spec fn view(&self) -> SpanView {
        SpanView {
            forward: self.forward,
            start_t: self.start_t as int,
            end_t: self.end_t as int,
            dna_start_t: self.dna_start_t as int,
            frame: self.frame as int,
            insert: self.insert@,
            delete: self.delete@,
        }
    }
}

/// What the scan of a state path keeps between positions.
pub struct ScanState {
    /// 1 inside a forward gene, -1 inside a reverse one, 0 outside genes.
    pub codon_start: int,
    /// 1-based position where the current gene was entered; 0 when none is.
    pub start_t: int,
    /// The last match state of the gene.
    pub prev_match: int,
    /// 1-based position of the gene's first codon.
    pub start_orf: int,
    /// Bases of the gene read so far, counting the ones skipped by deletions.
    pub dna_id: int,
    /// 1-based first position of a forward gene's DNA.
    pub dna_start_t: int,
    /// 1-based first position of a reverse gene's DNA, its stop codon included.
    pub withstop: int,
    pub insert: Seq<usize>,
    pub delete: Seq<usize>,
    /// The genes closed so far.
    pub spans: Seq<SpanView>,
}

/// Minimum DNA length of a reported gene.
pub open spec fn gene_min_len(wholegenome: bool) -> int {
    if wholegenome {
        120
    } else {
        60
    }
}

/// The last position at or before `t` whose state begins a codon; -1 if none.
pub open spec fn last_entry(vpath: Seq<usize>, t: int) -> int
    decreases t + 1,
{
    if t < 0 {
        -1
    } else if is_codon_entry(vpath[t] as int) {
        t
    } else {
        last_entry(vpath, t - 1)
    }
}

/// Frame of a gene whose first codon is at 1-based position `start_orf`.
pub open spec fn frame_of(start_orf: int) -> int {
    if start_orf % 3 == 0 {
        3
    } else {
        start_orf % 3
    }
}

/// The gene closed at 1-based end `end_t` with `dna_id` bases, if it is reported: long
/// enough, and with its DNA and the two score cells inside a sequence of `len` bases.
pub open spec fn closed_span(
    s: ScanState,
    end_t: int,
    dna_id: int,
    len: int,
    wholegenome: bool,
) -> Option<SpanView> {
    let forward = s.codon_start == 1;
    let dna_start = if forward {
        if s.start_t == s.dna_start_t - 3 {
            s.dna_start_t - 3
        } else {
            s.dna_start_t
        }
    } else {
        s.withstop
    };
    if dna_id > gene_min_len(wholegenome) && 1 <= dna_start <= end_t <= len && end_t >= 4 && 1
        <= s.start_t && s.start_t + 2 < len {
        Some(
            SpanView {
                forward,
                start_t: s.start_t,
                end_t,
                dna_start_t: dna_start,
                frame: frame_of(s.start_orf),
                insert: s.insert,
                delete: s.delete,
            },
        )
    } else {
        None
    }
}

/// Positions `t + 1` recorded for the bases skipped when the path advances `out` phases
/// at once (all but the base read at `t`).
pub open spec fn skipped(out: int, t: int) -> Seq<usize> {
    Seq::new(if out > 1 { (out - 1) as nat } else { 0 }, |i: int| (t + 1) as usize)
}

/// The scan at position `t` of the state path `vpath`.
pub open spec fn scan_step(s: ScanState, vpath: Seq<usize>, t: int, wholegenome: bool) -> ScanState {
    let len = vpath.len() as int;
    let v = vpath[t] as int;
    let s1 = if s.codon_start == 0 && s.start_t == 0 && (is_match(v) || v == S_STATE || v
        == S_STATE_1) {
        ScanState { withstop: t + 1, dna_start_t: t + 1, start_t: t + 1, ..s }
    } else {
        s
    };
    if s1.codon_start == 0 && is_codon_entry(v) {
        ScanState {
            insert: Seq::empty(),
            delete: Seq::empty(),
            dna_id: 0,
            withstop: if (v == M1_STATE_1 || v == M4_STATE_1) && t > 2 {
                t - 2
            } else {
                t + 1
            },
            dna_start_t: t + 1,
            start_orf: t + 1,
            prev_match: v,
            codon_start: if v < M6_STATE {
                1
            } else {
                -1
            },
            ..s1
        }
    } else if s1.codon_start != 0 && (v == E_STATE || v == E_STATE_1 || t == len - 1) {
        let at_stop = v == E_STATE || v == E_STATE_1;
        let k = last_entry(vpath, t);
        let end_t = if at_stop {
            t + 3
        } else {
            k
        };
        let dna_id = if at_stop {
            s1.dna_id
        } else {
            s1.dna_id - (t - k)
        };
        let spans = match closed_span(s1, end_t, dna_id, len, wholegenome) {
            Some(sp) => s1.spans.push(sp),
            None => s1.spans,
        };
        ScanState {
            codon_start: 0,
            start_t: 0,
            dna_id: 0,
            insert: Seq::empty(),
            delete: Seq::empty(),
            spans,
            ..s1
        }
    } else if s1.codon_start != 0 && is_match(v) && v - s1.prev_match < 6 {
        let out = (v + 12 - s1.prev_match) % 6;
        ScanState {
            dna_id: s1.dna_id + out,
            delete: s1.delete + skipped(out, t),
            prev_match: v,
            ..s1
        }
    } else if s1.codon_start != 0 && is_insert(v) {
        ScanState { insert: s1.insert.push((t + 1) as usize), ..s1 }
    } else if s1.codon_start != 0 && v == R_STATE {
        ScanState { codon_start: 0, start_t: 0, dna_id: 0, ..s1 }
    } else {
        s1
    }
}

/// The scan before any position.
pub open spec fn scan_init() -> ScanState {
    ScanState {
        codon_start: 0,
        start_t: 0,
        prev_match: 0,
        start_orf: 0,
        dna_id: 0,
        dna_start_t: 0,
        withstop: 0,
        insert: Seq::empty(),
        delete: Seq::empty(),
        spans: Seq::empty(),
    }
}

/// The scan after the first `k` positions of `vpath`.
pub open spec fn scan(vpath: Seq<usize>, k: int, wholegenome: bool) -> ScanState
    decreases k,
{
    if k <= 0 {
        scan_init()
    } else {
        scan_step(scan(vpath, k - 1, wholegenome), vpath, k - 1, wholegenome)
    }
}

/// The genes of a state path.
pub open spec fn path_spans(vpath: Seq<usize>, wholegenome: bool) -> Seq<SpanView> {
    scan(vpath, vpath.len() as int, wholegenome).spans
}

/// A reported gene lies inside a sequence of `len` bases and has a frame.
pub open spec fn span_valid(sp: SpanView, len: int) -> bool {
    &&& 1 <= sp.dna_start_t <= sp.end_t <= len
    &&& sp.end_t >= 4
    &&& 1 <= sp.start_t
    &&& sp.start_t + 2 < len
    &&& 1 <= sp.frame <= 3
}

/// A state path: a state at each position.
pub open spec fn state_path(vpath: Seq<usize>) -> bool {
    forall|t: int| 0 <= t < vpath.len() ==> #[trigger] vpath[t] < NUM_STATE
}

proof fn lemma_step_valid(s: ScanState, vpath: Seq<usize>, t: int, wholegenome: bool)
    requires
        0 <= t < vpath.len(),
        forall|i: int| 0 <= i < s.spans.len() ==> span_valid(#[trigger] s.spans[i], vpath.len() as int),
    ensures
        forall|i: int|
            0 <= i < scan_step(s, vpath, t, wholegenome).spans.len() ==> span_valid(
                #[trigger] scan_step(s, vpath, t, wholegenome).spans[i],
                vpath.len() as int,
            ),
{
    let len = vpath.len() as int;
    let v = vpath[t] as int;
    let n = scan_step(s, vpath, t, wholegenome);
    let s1 = if s.codon_start == 0 && s.start_t == 0 && (is_match(v) || v == S_STATE || v
        == S_STATE_1) {
        ScanState { withstop: t + 1, dna_start_t: t + 1, start_t: t + 1, ..s }
    } else {
        s
    };
    assert(s1.spans == s.spans);
    if s1.codon_start == 0 && is_codon_entry(v) {
        assert(n.spans == s.spans);
    } else if s1.codon_start != 0 && (v == E_STATE || v == E_STATE_1 || t == len - 1) {
        let at_stop = v == E_STATE || v == E_STATE_1;
        let k = last_entry(vpath, t);
        let end_t = if at_stop {
            t + 3
        } else {
            k
        };
        let dna_id = if at_stop {
            s1.dna_id
        } else {
            s1.dna_id - (t - k)
        };
        match closed_span(s1, end_t, dna_id, len, wholegenome) {
            Some(sp) => {
                assert(n.spans == s.spans.push(sp));
                assert(span_valid(sp, len));
            },
            None => {
                assert(n.spans == s.spans);
            },
        }
    } else {
        assert(n.spans == s.spans);
    }
}

proof fn lemma_scan_valid(vpath: Seq<usize>, k: int, wholegenome: bool)
    requires
        0 <= k <= vpath.len(),
    ensures
        forall|i: int|
            0 <= i < scan(vpath, k, wholegenome).spans.len() ==> span_valid(
                #[trigger] scan(vpath, k, wholegenome).spans[i],
                vpath.len() as int,
            ),
    decreases k,
{
    if k > 0 {
        lemma_scan_valid(vpath, k - 1, wholegenome);
        lemma_step_valid(scan(vpath, k - 1, wholegenome), vpath, k - 1, wholegenome);
    }
}

/// Reading the path, the scan's running values.
struct Scanner {
    codon_start: i8,
    start_t: usize,
    prev_match: usize,
    start_orf: usize,
    dna_id: i128,
    dna_start_t: usize,
    withstop: usize,
    insert: Vec<usize>,
    delete: Vec<usize>,
    spans: Vec<OrfSpan>,
}

impl Scanner {
    spec fn state(&self) -> ScanState {
        ScanState {
            codon_start: self.codon_start as int,
            start_t: self.start_t as int,
            prev_match: self.prev_match as int,
            start_orf: self.start_orf as int,
            dna_id: self.dna_id as int,
            dna_start_t: self.dna_start_t as int,
            withstop: self.withstop as int,
            insert: self.insert@,
            delete: self.delete@,
            spans: self.spans@.map_values(|sp: OrfSpan| sp@),
        }
    }

    spec fn wf(&self, vpath: Seq<usize>, t: int) -> bool {
        &&& -1 <= self.codon_start <= 1
        &&& self.start_t <= t
        &&& self.dna_start_t <= t
        &&& self.withstop <= t
        &&& self.start_orf <= t
        &&& self.prev_match <= M6_STATE_1
        &&& -t <= self.dna_id <= 5 * t
        &&& self.codon_start != 0 ==> {
            &&& 1 <= self.start_orf
            &&& is_codon_entry(vpath[self.start_orf - 1] as int)
            &&& 1 <= self.start_t
        }
    }
}

fn entry_state(v: usize) -> (r: bool)
    ensures
        r == is_codon_entry(v as int),
{
    v == M1_STATE || v == M4_STATE || v == M1_STATE_1 || v == M4_STATE_1
}

fn match_state(v: usize) -> (r: bool)
    ensures
        r == is_match(v as int),
{
    (M1_STATE <= v && v <= M6_STATE) || (M1_STATE_1 <= v && v <= M6_STATE_1)
}

/// Builds the reported gene of `closed_span`, if any, from the scan's values.
fn close_span(
    s: &Scanner,
    insert: Vec<usize>,
    delete: Vec<usize>,
    end_t: usize,
    dna_id: i128,
    len: usize,
    wholegenome: bool,
) -> (r: Option<OrfSpan>)
    requires
        -1 <= s.codon_start <= 1,
    ensures
        r matches Some(sp) ==> closed_span(
            ScanState { insert: insert@, delete: delete@, ..s.state() },
            end_t as int,
            dna_id as int,
            len as int,
            wholegenome,
        ) == Some(sp@),
        r is None ==> closed_span(
            ScanState { insert: insert@, delete: delete@, ..s.state() },
            end_t as int,
            dna_id as int,
            len as int,
            wholegenome,
        ) is None,
{
    let forward = s.codon_start == 1;
    let dna_start = if forward {
        if s.dna_start_t >= 3 && s.start_t == s.dna_start_t - 3 {
            s.dna_start_t - 3
        } else {
            s.dna_start_t
        }
    } else {
        s.withstop
    };
    let gene_len: i128 = if wholegenome {
        120
    } else {
        60
    };
    if dna_id > gene_len && 1 <= dna_start && dna_start <= end_t && end_t <= len && end_t >= 4 && 1
        <= s.start_t && s.start_t < len && len - s.start_t > 2 {
        let frame = if s.start_orf % 3 == 0 {
            3
        } else {
            s.start_orf % 3
        };
        Some(
            OrfSpan {
                forward,
                start_t: s.start_t,
                end_t,
                dna_start_t: dna_start,
                frame,
                insert,
                delete,
            },
        )
    } else {
        None
    }
}

impl Scanner {
    #[verifier::loop_isolation(false)]
    fn step(&mut self, vpath: &Vec<usize>, t: usize, wholegenome: bool)
        requires
            old(self).wf(vpath@, t as int),
            t < vpath@.len(),
            state_path(vpath@),
        ensures
            final(self).wf(vpath@, t + 1),
            final(self).state() == scan_step(old(self).state(), vpath@, t as int, wholegenome),
    {
        let len = vpath.len();
        let v = vpath[t];
        let ghost s0 = self.state();
        if self.codon_start == 0 && self.start_t == 0 && (match_state(v) || v == S_STATE || v
            == S_STATE_1) {
            self.withstop = t + 1;
            self.dna_start_t = t + 1;
            self.start_t = t + 1;
        }
        let ghost s1 = self.state();
        assert(s1 == (if s0.codon_start == 0 && s0.start_t == 0 && (is_match(v as int) || v
            == S_STATE || v == S_STATE_1) {
            ScanState { withstop: t + 1, dna_start_t: t + 1, start_t: t + 1, ..s0 }
        } else {
            s0
        }));
        if self.codon_start == 0 && entry_state(v) {
            self.insert = Vec::new();
            self.delete = Vec::new();
            self.dna_id = 0;
            self.withstop = if (v == M1_STATE_1 || v == M4_STATE_1) && t > 2 {
                t - 2
            } else {
                t + 1
            };
            self.dna_start_t = t + 1;
            self.start_orf = t + 1;
            self.prev_match = v;
            self.codon_start = if v < M6_STATE {
                1
            } else {
                -1
            };
        } else if self.codon_start != 0 && (v == E_STATE || v == E_STATE_1 || t == len - 1) {
            let at_stop = v == E_STATE || v == E_STATE_1;
            let mut insert: Vec<usize> = Vec::new();
            let mut delete: Vec<usize> = Vec::new();
            std::mem::swap(&mut insert, &mut self.insert);
            std::mem::swap(&mut delete, &mut self.delete);
            assert(insert@ == s1.insert);
            assert(delete@ == s1.delete);
            let ghost k = last_entry(vpath@, t as int);
            if at_stop {
                if len - t >= 3 {
                    let closed = close_span(self, insert, delete, t + 3, self.dna_id, len, wholegenome);
                    if let Some(sp) = closed {
                        self.spans.push(sp);
                    }
                }
            } else {
                let mut e: usize = t;
                let mut dna_id: i128 = self.dna_id;
                while !entry_state(vpath[e])
                    invariant
                        state_path(vpath@),
                        e < vpath@.len(),
                        1 <= self.start_orf <= e + 1,
                        is_codon_entry(vpath@[self.start_orf - 1] as int),
                        last_entry(vpath@, e as int) == k,
                        dna_id == self.dna_id - (t - e),
                        -(t as int) <= self.dna_id <= 5 * t,
                        e <= t,
                    decreases e,
                {
                    e = e - 1;
                    dna_id = dna_id - 1;
                }
                assert(e == k);
                let closed = close_span(self, insert, delete, e, dna_id, len, wholegenome);
                if let Some(sp) = closed {
                    self.spans.push(sp);
                }
            }
            proof {
                let spans0 = s1.spans;
                assert(self.spans@.map_values(|sp: OrfSpan| sp@) =~= match closed_span(
                    s1,
                    if at_stop { t + 3 } else { k },
                    if at_stop { s1.dna_id } else { s1.dna_id - (t - k) },
                    len as int,
                    wholegenome,
                ) {
                    Some(sp) => spans0.push(sp),
                    None => spans0,
                });
            }
            self.codon_start = 0;
            self.start_t = 0;
            self.dna_id = 0;
        } else if self.codon_start != 0 && match_state(v) && (v as i128) - (self.prev_match as i128)
            < 6 {
            assert(v < NUM_STATE);
            let out = (v + 12 - self.prev_match) % 6;
            self.dna_id = self.dna_id + out as i128;
            let pos = t + 1;
            let mut delete: Vec<usize> = Vec::new();
            std::mem::swap(&mut delete, &mut self.delete);
            let mut kk: usize = 1;
            while kk < out
                invariant
                    1 <= kk,
                    out < 6,
                    kk <= out || kk == 1,
                    delete@ == s1.delete + Seq::new((kk - 1) as nat, |i: int| (t + 1) as usize),
                decreases out - kk,
            {
                delete.push(pos);
                kk = kk + 1;
                assert(delete@ =~= s1.delete + Seq::new((kk - 1) as nat, |i: int| (t + 1) as usize));
            }
            assert(kk == out || (out <= 1 && kk == 1));
            assert(skipped(out as int, t as int) =~= Seq::new((kk - 1) as nat, |i: int| (t + 1) as usize));
            assert(delete@ =~= s1.delete + skipped(out as int, t as int));
            self.delete = delete;
            self.prev_match = v;
        } else if self.codon_start != 0 && I1_STATE <= v && v <= I6_STATE_1 {
            self.insert.push(t + 1);
        } else if self.codon_start != 0 && v == R_STATE {
            self.codon_start = 0;
            self.start_t = 0;
            self.dna_id = 0;
        }
    }
}

/// Segments a best state path into genes: each forward or reverse gene runs from the
/// match state that opens its first codon to the stop state (or the end of the path),
/// and is reported when its DNA is longer than 60 bases (120 in whole-genome mode) and
/// lies inside the path.
pub fn find_orfs(vpath: &Vec<usize>, wholegenome: bool) -> (r: Vec<OrfSpan>)
    requires
        state_path(vpath@),
    ensures
        r@.map_values(|sp: OrfSpan| sp@) == path_spans(vpath@, wholegenome),
        forall|i: int| 0 <= i < r@.len() ==> span_valid(#[trigger] r@[i]@, vpath@.len() as int),
{
    let len = vpath.len();
    let mut sc = Scanner {
        codon_start: 0,
        start_t: 0,
        prev_match: 0,
        start_orf: 0,
        dna_id: 0,
        dna_start_t: 0,
        withstop: 0,
        insert: Vec::new(),
        delete: Vec::new(),
        spans: Vec::new(),
    };
    assert(sc.spans@.map_values(|sp: OrfSpan| sp@) =~= Seq::<SpanView>::empty());
    assert(sc.state() =~= scan_init());
    let mut t: usize = 0;
    while t < len
        invariant
            len == vpath@.len(),
            t <= len,
            state_path(vpath@),
            sc.wf(vpath@, t as int),
            sc.state() == scan(vpath@, t as int, wholegenome),
        decreases len - t,
    {
        sc.step(vpath, t, wholegenome);
        t = t + 1;
    }
    proof {
        lemma_scan_valid(vpath@, len as int, wholegenome);
        assert forall|i: int| 0 <= i < sc.spans@.len() implies span_valid(
            #[trigger] sc.spans@[i]@,
            len as int,
        ) by {
            assert(sc.state().spans[i] == sc.spans@[i]@);
        }
    }
    sc.spans
}

/// A path on which no state begins a codon holds no gene.
pub proof fn lemma_no_codon_entry_no_genes(vpath: Seq<usize>, wholegenome: bool)
    requires
        forall|t: int| 0 <= t < vpath.len() ==> !is_codon_entry(#[trigger] vpath[t] as int),
    ensures
        path_spans(vpath, wholegenome).len() == 0,
{
    lemma_no_codon_entry_scan(vpath, vpath.len() as int, wholegenome);
}

proof fn lemma_no_codon_entry_scan(vpath: Seq<usize>, k: int, wholegenome: bool)
    requires
        0 <= k <= vpath.len(),
        forall|t: int| 0 <= t < vpath.len() ==> !is_codon_entry(#[trigger] vpath[t] as int),
    ensures
        scan(vpath, k, wholegenome).codon_start == 0,
        scan(vpath, k, wholegenome).spans.len() == 0,
    decreases k,
{
    if k > 0 {
        lemma_no_codon_entry_scan(vpath, k - 1, wholegenome);
        assert(!is_codon_entry(vpath[k - 1] as int));
    }
}

/// A candidate start codon met while refining a gene's start: how far it lies from the
/// gene's first codon (upstream on the forward strand, downstream on the reverse one), and
/// the trinucleotide keys of the window scored for it.
pub struct StartCandidate {
    pub shift: usize,
    pub keys: Vec<usize>,
}

/// The mathematical content of a `StartCandidate`.
pub struct CandidateView {
    pub shift: int,
    pub keys: Seq<usize>,
}

impl View for StartCandidate {
    type V = CandidateView;

    open spec fn view(&self) -> CandidateView {
        CandidateView { shift: self.shift as int, keys: self.keys@ }
    }
}

/// The 63 characters of `seq` from position `a` on, with `'\0'` outside `seq`.
pub open spec fn padded_window(seq: Seq<char>, a: int) -> Seq<char> {
    Seq::new(63, |i: int| if 0 <= a + i < seq.len() { seq[a + i] } else { '\0' })
}

/// Trinucleotide keys of the window that starts at `a`, over its text before any `'\0'`.
pub open spec fn window_keys(seq: Seq<char>, a: int) -> Seq<usize> {
    let w = padded_window(seq, a);
    let n = text_len(w);
    Seq::new(
        if n >= 2 { (n - 2) as nat } else { 0 },
        |j: int| tri_code(w[j], w[j + 1], w[j + 2]) as usize,
    )
}

/// The start codons upstream of a forward gene that entered at 1-based `start_old`, from
/// `s` bases upstream on, in steps of a codon: the scan stops at a stop codon or where the
/// window would leave the sequence.
pub open spec fn forward_candidates(seq: Seq<char>, start_old: int, s: int) -> Seq<CandidateView>
    decreases start_old - s,
{
    let pos = start_old - 1 - s;
    if pos < 35 || signal_in(seq, pos, Signal::ForwardStop) is Some {
        Seq::empty()
    } else {
        let rest = forward_candidates(seq, start_old, s + 3);
        if signal_in(seq, pos, Signal::ForwardStart) is Some {
            seq![CandidateView { shift: s, keys: window_keys(seq, pos - 30) }] + rest
        } else {
            rest
        }
    }
}

/// The mirror of `forward_candidates` for a reverse gene ending at 1-based `end_old`:
/// reverse start codons downstream, until a reverse stop or the end of the sequence.
pub open spec fn reverse_candidates(seq: Seq<char>, end_old: int, s: int) -> Seq<CandidateView>
    decreases seq.len() - (end_old + s),
{
    let pos = end_old - 3 + s;
    if end_old - 2 + s + 35 >= seq.len() || signal_in(seq, pos, Signal::ReverseStop) is Some {
        Seq::empty()
    } else {
        let rest = reverse_candidates(seq, end_old, s + 3);
        if signal_in(seq, pos, Signal::ReverseStart) is Some {
            seq![CandidateView { shift: s, keys: window_keys(seq, pos - 30) }] + rest
        } else {
            rest
        }
    }
}

fn window_keys_at(seq: &Vec<char>, a: usize) -> (r: Vec<usize>)
    ensures
        r@ == window_keys(seq@, a as int),
{
    let len = seq.len();
    let mut w: Vec<char> = Vec::new();
    let mut i: usize = 0;
    while i < 63
        invariant
            len == seq@.len(),
            i <= 63,
            w@ =~= padded_window(seq@, a as int).subrange(0, i as int),
        decreases 63 - i,
    {
        if a < len && i < len - a {
            w.push(seq[a + i]);
        } else {
            w.push('\0');
        }
        i = i + 1;
    }
    assert(w@ =~= padded_window(seq@, a as int));
    let n = strlen(&w);
    proof {
        lemma_text_len_bound(w@);
    }
    let mut keys: Vec<usize> = Vec::new();
    if n >= 2 {
        let mut j: usize = 0;
        while j < n - 2
            invariant
                n <= 63,
                n >= 2,
                w@ == padded_window(seq@, a as int),
                n == text_len(w@),
                j <= n - 2,
                keys@ =~= window_keys(seq@, a as int).subrange(0, j as int),
            decreases n - 2 - j,
        {
            keys.push(trinucleotide(&w[j], &w[j + 1], &w[j + 2]));
            j = j + 1;
        }
    }
    assert(keys@ =~= window_keys(seq@, a as int));
    keys
}

proof fn lemma_text_len_bound(s: Seq<char>)
    ensures
        text_len(s) <= s.len(),
    decreases s.len(),
{
    if s.len() > 0 && s[0] != '\0' {
        lemma_text_len_bound(s.drop_first());
    }
}

/// Candidate start codons of a reported gene, in the order the refinement meets them.
pub fn start_candidates(seq: &Vec<char>, span: &OrfSpan) -> (r: Vec<StartCandidate>)
    requires
        span_valid(span@, seq@.len() as int),
    ensures
        r@.map_values(|c: StartCandidate| c@) == if span.forward {
            forward_candidates(seq@, span.start_t as int, 0)
        } else {
            reverse_candidates(seq@, span.end_t as int, 0)
        },
{
    let len = seq.len();
    let mut r: Vec<StartCandidate> = Vec::new();
    if span.forward {
        let start_old = span.start_t;
        let mut s: usize = 0;
        while s < start_old && start_old - 1 - s >= 35 && signal_at(seq, start_old - 1 - s, Signal::ForwardStop).is_none()
            invariant
                len == seq@.len(),
                s % 3 == 0,
                s <= start_old + 2,
                r@.map_values(|c: StartCandidate| c@) + forward_candidates(seq@, start_old as int, s as int)
                    == forward_candidates(seq@, start_old as int, 0),
            decreases start_old + 3 - s,
        {
            let pos = start_old - 1 - s;
            let ghost before = r@.map_values(|c: StartCandidate| c@);
            if signal_at(seq, pos, Signal::ForwardStart).is_some() {
                let keys = window_keys_at(seq, pos - 30);
                let ghost rb = r@;
                let c = StartCandidate { shift: s, keys };
                assert(c@ == CandidateView { shift: s as int, keys: window_keys(seq@, pos - 30) });
                r.push(c);
                assert(r@ == rb.push(c));
                assert(r@.map_values(|c: StartCandidate| c@) =~= rb.map_values(|c: StartCandidate| c@).push(c@));
                assert(r@.map_values(|c: StartCandidate| c@) =~= before.push(
                    CandidateView { shift: s as int, keys: window_keys(seq@, pos - 30) },
                ));
            } else {
                assert(r@.map_values(|c: StartCandidate| c@) =~= before);
            }
            assert(r@.map_values(|c: StartCandidate| c@) + forward_candidates(seq@, start_old as int, s + 3)
                =~= before + forward_candidates(seq@, start_old as int, s as int));
            s = s + 3;
        }
        assert(forward_candidates(seq@, start_old as int, s as int) =~= Seq::empty());
        assert(r@.map_values(|c: StartCandidate| c@) =~= forward_candidates(seq@, start_old as int, 0));
    } else {
        let end_old = span.end_t;
        let mut s: usize = 0;
        while end_old <= len && s <= len - end_old && len - end_old - s > 33 && end_old + s >= 3
            && signal_at(seq, end_old + s - 3, Signal::ReverseStop).is_none()
            invariant
                len == seq@.len(),
                4 <= end_old <= len,
                s % 3 == 0,
                r@.map_values(|c: StartCandidate| c@) + reverse_candidates(seq@, end_old as int, s as int)
                    == reverse_candidates(seq@, end_old as int, 0),
            decreases len + 3 - s,
        {
            let pos = end_old + s - 3;
            let ghost before = r@.map_values(|c: StartCandidate| c@);
            if signal_at(seq, pos, Signal::ReverseStart).is_some() {
                let keys = if pos >= 30 {
                    window_keys_at(seq, pos - 30)
                } else {
                    proof {
                        assert(padded_window(seq@, pos - 30)[0] == '\0');
                        assert(text_len(padded_window(seq@, pos - 30)) == 0);
                        assert(window_keys(seq@, pos - 30) =~= Seq::<usize>::empty());
                    }
                    Vec::new()
                };
                let ghost rb = r@;
                let c = StartCandidate { shift: s, keys };
                assert(c@ == CandidateView { shift: s as int, keys: window_keys(seq@, pos - 30) });
                r.push(c);
                assert(r@ == rb.push(c));
                assert(r@.map_values(|c: StartCandidate| c@) =~= rb.map_values(|c: StartCandidate| c@).push(c@));
                assert(r@.map_values(|c: StartCandidate| c@) =~= before.push(
                    CandidateView { shift: s as int, keys: window_keys(seq@, pos - 30) },
                ));
            } else {
                assert(r@.map_values(|c: StartCandidate| c@) =~= before);
            }
            assert(r@.map_values(|c: StartCandidate| c@) + reverse_candidates(seq@, end_old as int, s + 3)
                =~= before + reverse_candidates(seq@, end_old as int, s as int));
            s = s + 3;
        }
        assert(reverse_candidates(seq@, end_old as int, s as int) =~= Seq::empty());
        assert(r@.map_values(|c: StartCandidate| c@) =~= reverse_candidates(seq@, end_old as int, 0));
    }
    r
}

/// A reported gene: its place in the input, its reading frame and strand, the indels
/// on its path, and its DNA and protein.
pub struct Orf {
    /// 1-based first position of the gene's DNA.
    pub dna_start_t: usize,
    /// 1-based last position of the gene's DNA.
    pub dna_end_t: usize,
    pub frame: usize,
    pub forward: bool,
    pub insert: Vec<usize>,
    pub delete: Vec<usize>,
    pub protein: Vec<char>,
    /// The gene's DNA, reverse-complemented for a reverse gene.
    pub dna: Vec<char>,
}

/// The DNA bounds of a gene after its start is moved `shift` bases: upstream on the
/// forward strand, downstream (towards higher positions) on the reverse one.
pub open spec fn refined_bounds(span: SpanView, shift: int) -> (int, int) {
    if span.forward {
        (span.dna_start_t - shift, span.end_t)
    } else {
        (span.dna_start_t, span.end_t + shift)
    }
}

fn copy_range(seq: &Vec<char>, from: usize, to: usize) -> (r: Vec<char>)
    requires
        from <= to <= seq@.len(),
    ensures
        r@ == seq@.subrange(from as int, to as int),
{
    let mut r: Vec<char> = Vec::new();
    let mut i: usize = from;
    while i < to
        invariant
            from <= i <= to,
            to <= seq@.len(),
            r@ =~= seq@.subrange(from as int, i as int),
        decreases to - i,
    {
        r.push(seq[i]);
        i = i + 1;
    }
    r
}

/// Reads a gene's DNA and protein, its start moved `shift` bases by the start
/// refinement (0 for none). `None` when the moved gene would leave the sequence.
pub fn orf_record(seq: &Vec<char>, span: OrfSpan, shift: usize, wholegenome: bool) -> (r: Option<Orf>)
    ensures
        ({
            let (a, b) = refined_bounds(span@, shift as int);
            match r {
                Some(o) => {
                    &&& 1 <= a <= b <= seq@.len()
                    &&& o.dna_start_t == a
                    &&& o.dna_end_t == b
                    &&& o.frame == span.frame
                    &&& o.forward == span.forward
                    &&& o.insert@ == span.insert@
                    &&& o.delete@ == span.delete@
                    &&& o.protein@ == translate(seq@.subrange(a - 1, b), span.forward, wholegenome)
                    &&& o.dna@ == if span.forward {
                        seq@.subrange(a - 1, b)
                    } else {
                        reverse_complement(seq@.subrange(a - 1, b))
                    }
                    &&& (o.protein@.len() == (b - a + 1) / 3 || o.protein@.len() == (b - a + 1) / 3 - 1)
                },
                None => !(1 <= a <= b <= seq@.len()),
            }
        }),
{
    let len = seq.len();
    let (a, b) = if span.forward {
        if shift >= span.dna_start_t {
            return None;
        }
        (span.dna_start_t - shift, span.end_t)
    } else {
        if span.end_t > len || shift > len - span.end_t {
            return None;
        }
        (span.dna_start_t, span.end_t + shift)
    };
    if a < 1 || a > b || b > len {
        return None;
    }
    let part = copy_range(seq, a - 1, b);
    let protein = get_protein(&part, span.forward, wholegenome);
    let dna = if span.forward {
        part
    } else {
        get_rc_dna(&part)
    };
    Some(
        Orf {
            dna_start_t: a,
            dna_end_t: b,
            frame: span.frame,
            forward: span.forward,
            insert: span.insert,
            delete: span.delete,
            protein,
            dna,
        },
    )
}

} // verus!
