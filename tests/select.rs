use fgsrs::select::{cg_bucket, decodable};

fn chars(s: &str) -> Vec<char> {
    s.chars().collect()
}

#[test]
fn all_a_falls_in_first_bucket() {
    assert_eq!(cg_bucket(&chars(&"A".repeat(100))), 0);
}

#[test]
fn bucket_is_percent_less_26() {
    let seq = format!("{}{}", "G".repeat(40), "A".repeat(60));
    assert_eq!(cg_bucket(&chars(&seq)), 14);
    let seq = format!("{}{}", "c".repeat(29), "T".repeat(71));
    assert_eq!(cg_bucket(&chars(&seq)), 3);
}

#[test]
fn bucket_clamps_high() {
    assert_eq!(cg_bucket(&chars(&"GC".repeat(50))), 43);
    let seq = format!("{}{}", "G".repeat(69), "A".repeat(31));
    assert_eq!(cg_bucket(&chars(&seq)), 43);
}

#[test]
fn empty_sequence_bucket() {
    assert_eq!(cg_bucket(&Vec::new()), 0);
}

#[test]
fn bucket_is_repeatable() {
    let seq = chars("ACGTTGCAACGGTTAACCGG");
    assert_eq!(cg_bucket(&seq), cg_bucket(&seq));
}

#[test]
fn short_records_are_not_decoded() {
    assert!(!decodable(&chars(&"A".repeat(70))));
    assert!(decodable(&chars(&"A".repeat(71))));
    assert!(!decodable(&Vec::new()));
}
