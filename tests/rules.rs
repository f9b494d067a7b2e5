use fgsrs::rules::{insertion_exit_allowed, long_n_runs, signal_at, skip_count, Signal};

fn chars(s: &str) -> Vec<char> {
    s.chars().collect()
}

#[test]
fn forward_stop_variants() {
    let seq = chars("TAAtagTGAtgg");
    assert_eq!(signal_at(&seq, 0, Signal::ForwardStop), Some(0));
    assert_eq!(signal_at(&seq, 3, Signal::ForwardStop), Some(1));
    assert_eq!(signal_at(&seq, 6, Signal::ForwardStop), Some(2));
    assert_eq!(signal_at(&seq, 9, Signal::ForwardStop), None);
    assert_eq!(signal_at(&seq, 10, Signal::ForwardStop), None);
}

#[test]
fn reverse_stop_variants() {
    let seq = chars("TTACTATCAGTA");
    assert_eq!(signal_at(&seq, 0, Signal::ReverseStop), Some(0));
    assert_eq!(signal_at(&seq, 3, Signal::ReverseStop), Some(1));
    assert_eq!(signal_at(&seq, 6, Signal::ReverseStop), Some(2));
    assert_eq!(signal_at(&seq, 9, Signal::ReverseStop), None);
}

#[test]
fn start_variants() {
    let seq = chars("ATGGTGTTGCTG");
    assert_eq!(signal_at(&seq, 0, Signal::ForwardStart), Some(0));
    assert_eq!(signal_at(&seq, 3, Signal::ForwardStart), Some(1));
    assert_eq!(signal_at(&seq, 6, Signal::ForwardStart), Some(2));
    assert_eq!(signal_at(&seq, 9, Signal::ForwardStart), None);
    let seq = chars("CATCACcaaCAG");
    assert_eq!(signal_at(&seq, 0, Signal::ReverseStart), Some(0));
    assert_eq!(signal_at(&seq, 3, Signal::ReverseStart), Some(1));
    assert_eq!(signal_at(&seq, 6, Signal::ReverseStart), Some(2));
    assert_eq!(signal_at(&seq, 9, Signal::ReverseStart), None);
}

#[test]
fn poly_a_has_no_signal() {
    let seq = chars(&"A".repeat(100));
    for t in 0..100 {
        for sig in [Signal::ForwardStop, Signal::ReverseStop, Signal::ForwardStart, Signal::ReverseStart] {
            assert_eq!(signal_at(&seq, t, sig), None);
        }
    }
}

#[test]
fn forward_insertion_guard() {
    // T at k, then AA at t: an insertion bridge would read TAA.
    let seq = chars("CCTCCAACC");
    assert!(!insertion_exit_allowed(&seq, true, 1, 2, 5));
    assert!(!insertion_exit_allowed(&seq, true, 4, 2, 5));
    assert!(insertion_exit_allowed(&seq, true, 0, 2, 5));
    assert!(insertion_exit_allowed(&seq, true, 1, 3, 5));
    // T at k - 1 and A at k, A at t: T A | A.
    let seq = chars("CTACCACC");
    assert!(!insertion_exit_allowed(&seq, true, 2, 2, 5));
    assert!(!insertion_exit_allowed(&seq, true, 5, 2, 5));
    assert!(insertion_exit_allowed(&seq, true, 2, 2, 6));
    // never before position 2
    assert!(!insertion_exit_allowed(&seq, true, 0, 0, 1));
}

#[test]
fn reverse_insertion_guard() {
    // T at k, T at t, A at t + 1: T | T A.
    let seq = chars("CCTCCTACC");
    assert!(!insertion_exit_allowed(&seq, false, 1, 2, 5));
    assert!(insertion_exit_allowed(&seq, false, 0, 2, 5));
    // C T at k - 1, k and A at t.
    let seq = chars("CCTCCACC");
    assert!(!insertion_exit_allowed(&seq, false, 2, 2, 5));
    assert!(insertion_exit_allowed(&seq, false, 2, 4, 5));
    // never at the last position
    assert!(!insertion_exit_allowed(&seq, false, 0, 2, 7));
}

#[test]
fn deletion_spans() {
    assert_eq!(skip_count(0, 0), Some(6));
    assert_eq!(skip_count(0, 4), Some(2));
    assert_eq!(skip_count(0, 5), None);
    assert_eq!(skip_count(2, 0), Some(2));
    assert_eq!(skip_count(2, 1), None);
    assert_eq!(skip_count(1, 1), Some(6));
    assert_eq!(skip_count(5, 0), Some(5));
}

#[test]
fn unknown_run_closes_the_coding_states() {
    let seq = chars(&"N".repeat(100));
    let runs = long_n_runs(&seq);
    assert_eq!(runs.len(), 100);
    for t in 0..100 {
        assert_eq!(runs[t], t >= 10);
    }
}

#[test]
fn known_base_resets_the_run() {
    let seq = chars(&format!("{}A{}", "N".repeat(15), "N".repeat(12)));
    let runs = long_n_runs(&seq);
    assert!(runs[14]);
    assert!(!runs[15]);
    assert!(!runs[24]);
    assert!(runs[25]);
}

fn acgt(len: usize) -> Vec<char> {
    (0..len).map(|i| ['A', 'C', 'G', 'T'][i % 4]).collect()
}

fn key(seq: &[char], j: usize) -> usize {
    fgsrs::codec::trinucleotide(&seq[j], &seq[j + 1], &seq[j + 2])
}

#[test]
fn window_before_a_stop() {
    let seq = acgt(200);
    let w = fgsrs::rules::context_window(&seq, 100, Signal::ForwardStop);
    assert_eq!(w.terms.len(), 58);
    assert_eq!(w.terms[0], (0, key(&seq, 40)));
    assert_eq!(w.terms[57], (57, key(&seq, 97)));
    assert_eq!(w.scale, None);
    let w = fgsrs::rules::context_window(&seq, 10, Signal::ForwardStop);
    assert_eq!(w.terms.len(), 8);
    assert_eq!(w.terms[0], (50, key(&seq, 0)));
    assert_eq!(w.terms[7], (57, key(&seq, 7)));
    assert_eq!(w.scale, Some((58, 8)));
    let w = fgsrs::rules::context_window(&seq, 2, Signal::ForwardStop);
    assert!(w.terms.is_empty());
    assert_eq!(w.scale, None);
}

#[test]
fn window_after_a_reverse_stop() {
    let seq = acgt(100);
    let w = fgsrs::rules::context_window(&seq, 0, Signal::ReverseStop);
    assert_eq!(w.terms.len(), 58);
    assert_eq!(w.terms[0], (0, key(&seq, 3)));
    assert_eq!(w.scale, None);
    let w = fgsrs::rules::context_window(&seq, 90, Signal::ReverseStop);
    assert_eq!(w.terms.len(), 5);
    assert_eq!(w.terms[4], (4, key(&seq, 97)));
}

#[test]
fn window_around_a_start() {
    let seq = acgt(200);
    let w = fgsrs::rules::context_window(&seq, 50, Signal::ForwardStart);
    assert_eq!(w.terms.len(), 61);
    assert_eq!(w.terms[0], (0, key(&seq, 20)));
    assert_eq!(w.terms[60], (60, key(&seq, 80)));
    assert_eq!(w.scale, None);
    let w = fgsrs::rules::context_window(&seq, 10, Signal::ForwardStart);
    assert_eq!(w.terms.len(), 41);
    assert_eq!(w.terms[0], (20, key(&seq, 0)));
    assert_eq!(w.scale, Some((61, 41)));
    let w = fgsrs::rules::context_window(&seq, 190, Signal::ReverseStart);
    assert_eq!(w.terms.len(), 38);
    assert_eq!(w.terms[37], (37, key(&seq, 197)));
}
