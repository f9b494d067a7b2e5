use fgsrs::orf::{find_orfs, orf_record, start_candidates, Orf, OrfSpan};
use fgsrs::path::backtrack;
use fgsrs::codec::get_rc_dna;
use fgsrs::states::{
    E_STATE, E_STATE_1, I2_STATE, M1_STATE, M1_STATE_1, M6_STATE, NUM_STATE, R_STATE, S_STATE,
    S_STATE_1,
};

const SENSE: [&str; 4] = ["GCT", "GAA", "AAA", "CTG"];

fn chars(s: &str) -> Vec<char> {
    s.chars().collect()
}

fn text(v: &[char]) -> String {
    v.iter().collect()
}

fn coding(codons: usize) -> String {
    (0..codons).map(|i| SENSE[i % 4]).collect()
}

/// Appends the path of a forward gene whose start codon begins at the current end of
/// `path`: three start states, `codons` codons of match states, three stop states.
fn forward_gene_path(path: &mut Vec<usize>, codons: usize) {
    path.extend([S_STATE; 3]);
    for i in 0..codons * 3 {
        path.push(M1_STATE + i % 6);
    }
    path.extend([E_STATE; 3]);
}

fn reverse_gene_path(path: &mut Vec<usize>, codons: usize) {
    path.extend([S_STATE_1; 3]);
    for i in 0..codons * 3 {
        path.push(M1_STATE_1 + i % 6);
    }
    path.extend([E_STATE_1; 3]);
}

fn record(seq: &[char], span: OrfSpan, shift: usize, wholegenome: bool) -> Orf {
    orf_record(&seq.to_vec(), span, shift, wholegenome).unwrap()
}

#[test]
fn forward_gene_is_reported() {
    let seq = chars(&format!("{}ATG{}TAA{}", "A".repeat(100), coding(96), "A".repeat(100)));
    let mut path = vec![R_STATE; 100];
    forward_gene_path(&mut path, 96);
    path.extend(vec![R_STATE; 100]);
    assert_eq!(path.len(), seq.len());
    let spans = find_orfs(&path, false);
    assert_eq!(spans.len(), 1);
    let span = spans.into_iter().next().unwrap();
    assert!(span.forward);
    assert_eq!(span.start_t, 101);
    assert_eq!(span.dna_start_t, 101);
    assert_eq!(span.end_t, 394);
    assert_eq!(span.frame, 2);
    assert!(span.insert.is_empty() && span.delete.is_empty());
    let orf = record(&seq, span, 0, false);
    assert_eq!(orf.dna_start_t, 101);
    assert_eq!(orf.dna_end_t, 394);
    assert_eq!(text(&orf.dna), text(&seq[100..394]));
    assert_eq!(orf.protein.len(), 97);
    assert_eq!(orf.protein[0], 'M');
    assert!(!orf.protein.contains(&'*'));
}

#[test]
fn reverse_gene_is_reported() {
    let forward = chars(&format!("{}ATG{}TAA{}", "A".repeat(100), coding(96), "A".repeat(100)));
    let seq = get_rc_dna(&forward);
    let mut path = vec![R_STATE; 100];
    reverse_gene_path(&mut path, 96);
    path.extend(vec![R_STATE; 100]);
    let spans = find_orfs(&path, false);
    assert_eq!(spans.len(), 1);
    let span = spans.into_iter().next().unwrap();
    assert!(!span.forward);
    assert_eq!(span.dna_start_t, 101);
    assert_eq!(span.end_t, 394);
    let orf = record(&seq, span, 0, false);
    assert!(!orf.forward);
    assert_eq!(orf.dna, get_rc_dna(&seq[100..394].to_vec()));
    assert_eq!(text(&orf.dna), text(&forward[100..394]));
    assert_eq!(orf.protein[0], 'M');
    assert_eq!(orf.protein.len(), 97);
}

#[test]
fn two_forward_genes() {
    let gene = format!("ATG{}TAA", coding(30));
    let seq = chars(&format!("{}{}{}{}{}", "A".repeat(50), gene, "A".repeat(30), gene, "A".repeat(50)));
    let mut path = vec![R_STATE; 50];
    forward_gene_path(&mut path, 30);
    path.extend(vec![R_STATE; 30]);
    forward_gene_path(&mut path, 30);
    path.extend(vec![R_STATE; 50]);
    assert_eq!(path.len(), seq.len());
    let spans = find_orfs(&path, false);
    assert_eq!(spans.len(), 2);
    assert!(spans[0].forward && spans[1].forward);
    assert!(spans[0].end_t < spans[1].dna_start_t);
    assert_eq!(spans[0].dna_start_t, 51);
    assert_eq!(spans[1].dna_start_t, 51 + 96 + 30);
}

#[test]
fn short_gene_is_not_reported() {
    let mut path = vec![R_STATE; 20];
    forward_gene_path(&mut path, 15);
    path.extend(vec![R_STATE; 20]);
    assert!(find_orfs(&path, false).is_empty());
    let mut path = vec![R_STATE; 20];
    forward_gene_path(&mut path, 30);
    path.extend(vec![R_STATE; 20]);
    assert_eq!(find_orfs(&path, false).len(), 1);
    assert!(find_orfs(&path, true).is_empty());
}

#[test]
fn path_without_codons_has_no_gene() {
    let mut path = vec![R_STATE; 50];
    path.extend([S_STATE; 3]);
    path.extend([E_STATE; 3]);
    path.extend(vec![R_STATE; 50]);
    assert!(find_orfs(&path, false).is_empty());
}

#[test]
fn gene_open_at_the_end_is_cut_to_whole_codons() {
    let mut path = vec![R_STATE; 10];
    for i in 0..200 {
        path.push(M1_STATE + i % 6);
    }
    path.push(M1_STATE);
    path.push(M1_STATE + 1);
    let spans = find_orfs(&path, false);
    assert_eq!(spans.len(), 1);
    assert_eq!(spans[0].dna_start_t, 11);
    assert_eq!(spans[0].end_t, 210);
    assert_eq!(spans[0].frame, 2);
}

#[test]
fn indels_are_recorded() {
    let mut path = vec![R_STATE; 10];
    path.extend([S_STATE; 3]);
    for i in 0..90 {
        path.push(M1_STATE + i % 6);
    }
    path.push(I2_STATE);
    path.push(M1_STATE + 3);
    for i in 0..90 {
        path.push(M1_STATE + (i + 4) % 6);
    }
    path.extend([E_STATE; 3]);
    path.extend(vec![R_STATE; 10]);
    let spans = find_orfs(&path, false);
    assert_eq!(spans.len(), 1);
    assert_eq!(spans[0].insert, vec![104]);
    assert_eq!(spans[0].delete, vec![105, 105, 105]);
}

#[test]
fn start_refinement_finds_upstream_atg() {
    let gene = format!("GTG{}TAA", coding(60));
    let seq = chars(&format!("{}ATGGCT{}{}", "A".repeat(100), gene, "A".repeat(100)));
    let mut path = vec![R_STATE; 106];
    forward_gene_path(&mut path, 60);
    path.extend(vec![R_STATE; 100]);
    assert_eq!(path.len(), seq.len());
    let spans = find_orfs(&path, true);
    assert_eq!(spans.len(), 1);
    let span = spans.into_iter().next().unwrap();
    assert_eq!(span.dna_start_t, 107);
    let candidates = start_candidates(&seq, &span);
    let shifts: Vec<usize> = candidates.iter().map(|c| c.shift).collect();
    assert_eq!(shifts, vec![0, 6]);
    assert!(candidates.iter().all(|c| c.keys.len() == 61));
    let refined = record(&seq, span, 6, true);
    assert_eq!(refined.dna_start_t, 101);
    assert_eq!(text(&refined.dna[0..3]), "ATG");
}

#[test]
fn refinement_stops_at_a_stop_codon() {
    let gene = format!("ATG{}TAA", coding(60));
    let seq = chars(&format!("{}TAAGCTATG{}{}", "A".repeat(100), gene, "A".repeat(100)));
    let mut path = vec![R_STATE; 109];
    forward_gene_path(&mut path, 60);
    path.extend(vec![R_STATE; 100]);
    let spans = find_orfs(&path, true);
    let candidates = start_candidates(&seq, &spans[0]);
    let shifts: Vec<usize> = candidates.iter().map(|c| c.shift).collect();
    assert_eq!(shifts, vec![0, 3]);
}

#[test]
fn moved_start_outside_sequence_is_refused() {
    let mut path = vec![R_STATE; 20];
    forward_gene_path(&mut path, 30);
    path.extend(vec![R_STATE; 20]);
    let seq = vec!['A'; path.len()];
    let span = find_orfs(&path, false).into_iter().next().unwrap();
    assert!(orf_record(&seq, span, 30, false).is_none());
}

#[test]
fn backtrack_follows_predecessors() {
    let len = 4;
    let mut table = vec![vec![0i8; len]; NUM_STATE];
    table[R_STATE][3] = M6_STATE as i8;
    table[M6_STATE][2] = M1_STATE as i8;
    table[M1_STATE][1] = R_STATE as i8;
    let v = backtrack(&table, R_STATE).unwrap();
    assert_eq!(v, vec![R_STATE, M1_STATE, M6_STATE, R_STATE]);
    table[M1_STATE][1] = -1;
    assert!(backtrack(&table, R_STATE).is_none());
}
