use fgsrs::codec::{
    get_protein, get_rc_dna, get_rc_dna_indel, nt2int, nt2int_rc, nt2int_rc_indel, strlen, strncpy,
    tr2int, trinucleotide, trinucleotide_pep,
};

fn chars(s: &str) -> Vec<char> {
    s.chars().collect()
}

fn text(v: &[char]) -> String {
    v.iter().collect()
}

#[test]
fn nt2int_maps_each_base() {
    assert_eq!(nt2int('A'), 0);
    assert_eq!(nt2int('c'), 1);
    assert_eq!(nt2int('G'), 2);
    assert_eq!(nt2int('t'), 3);
    assert_eq!(nt2int('N'), 4);
    assert_eq!(nt2int('x'), 4);
}

#[test]
fn complement_codes_add_to_three() {
    for c in ['A', 'C', 'G', 'T', 'a', 'c', 'g', 't'] {
        let comp = get_rc_dna(&vec![c])[0];
        assert_eq!(nt2int(comp) + nt2int(c), 3);
        assert_eq!(nt2int_rc(&c), nt2int(comp));
    }
    assert_eq!(nt2int_rc(&'N'), 4);
}

#[test]
fn indel_complement_keeps_case() {
    assert_eq!(nt2int_rc_indel(&'A'), 3);
    assert_eq!(nt2int_rc_indel(&'t'), 5);
    assert_eq!(nt2int_rc_indel(&'n'), 9);
    assert_eq!(nt2int_rc_indel(&'x'), 10);
    assert_eq!(nt2int_rc_indel(&'N'), 4);
    assert_eq!(text(&get_rc_dna_indel(&chars("ACgtnx"))), "xnacGT");
}

#[test]
fn transition_names() {
    assert_eq!(tr2int(&String::from("MM")), Some(0));
    assert_eq!(tr2int(&String::from("IM")), Some(4));
    assert_eq!(tr2int(&String::from("GG")), Some(8));
    assert_eq!(tr2int(&String::from("ES")), Some(12));
    assert_eq!(tr2int(&String::from("ES1")), Some(13));
    assert_eq!(tr2int(&String::from("XY")), None);
    assert_eq!(tr2int(&String::from("M")), None);
}

#[test]
fn trinucleotide_indices() {
    assert_eq!(trinucleotide(&'A', &'T', &'G'), 14);
    assert_eq!(trinucleotide(&'t', &'t', &'t'), 63);
    assert_eq!(trinucleotide(&'N', &'C', &'N'), 4);
    assert_eq!(trinucleotide_pep(&'G', &'T', &'G'), 46);
    assert_eq!(trinucleotide_pep(&'C', &'A', &'C'), 17);
    assert_eq!(trinucleotide_pep(&'A', &'N', &'G'), 64);
}

#[test]
fn reverse_complement_of_sequence() {
    assert_eq!(text(&get_rc_dna(&chars("ACGTN"))), "NACGT");
    assert_eq!(text(&get_rc_dna(&chars("aacX"))), "NGTT");
    assert!(get_rc_dna(&Vec::new()).is_empty());
}

#[test]
fn forward_translation_trims_stop() {
    let p = get_protein(&chars("ATGAAATAA"), true, true);
    assert_eq!(text(&p), "MK");
    let p = get_protein(&chars("ATGAAAGGC"), true, true);
    assert_eq!(text(&p), "MKG");
}

#[test]
fn unknown_codon_reads_as_x() {
    assert_eq!(text(&get_protein(&chars("ATGNAAGGC"), true, true)), "MXG");
}

#[test]
fn alternative_start_only_in_short_read_mode() {
    assert_eq!(text(&get_protein(&chars("GTGAAA"), true, false)), "MK");
    assert_eq!(text(&get_protein(&chars("GTGAAA"), true, true)), "VK");
    assert_eq!(text(&get_protein(&chars("TTGAAA"), true, false)), "MK");
}

#[test]
fn reverse_translation() {
    assert_eq!(text(&get_protein(&chars("TTACAT"), false, true)), "M");
    assert_eq!(text(&get_protein(&chars("TTTCAC"), false, true)), "VK");
    assert_eq!(text(&get_protein(&chars("TTTCAC"), false, false)), "MK");
}

#[test]
fn protein_length_follows_dna_length() {
    for s in ["ATGAAATAA", "ATGAAAGGCA", "ATGAAAGGCAT", "TAA", "CA"] {
        let dna = chars(s);
        for strand in [true, false] {
            let p = get_protein(&dna, strand, true);
            assert!(p.len() == dna.len() / 3 || p.len() + 1 == dna.len() / 3);
        }
    }
}

#[test]
fn reverse_complement_translates_like_reverse_strand() {
    for s in ["ATGGCTGAAAAACTGTTTCCCGGGTAGCAT", "TTAGCTCAC", "TTAGCTCAA", "ANGCCCTTT"] {
        let dna = chars(s);
        let rc = get_rc_dna(&dna);
        for wholegenome in [true, false] {
            assert_eq!(get_protein(&rc, true, wholegenome), get_protein(&dna, false, wholegenome));
        }
    }
    assert_eq!(text(&get_protein(&chars("TTAGCTCAC"), false, false)), "MS");
    assert_eq!(text(&get_protein(&chars("TTAGCTCAC"), false, true)), "VS");
}

#[test]
fn strlen_stops_at_nul() {
    assert_eq!(strlen(&chars("ACGT")), 4);
    assert_eq!(strlen(&vec!['A', 'C', '\0', 'G']), 2);
    assert_eq!(strlen(&Vec::new()), 0);
}

#[test]
fn strncpy_pads_past_source() {
    let mut target = vec!['x'; 6];
    strncpy(&mut target, &chars("ACGTA"), 3, 4);
    assert_eq!(target, vec!['T', 'A', '\0', '\0', 'x', 'x']);
}
