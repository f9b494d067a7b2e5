use vstd::prelude::*;

verus! {

/// Index of a nucleotide: `A`, `C`, `G`, `T` in either case give 0 to 3, anything else 4.
pub open spec fn nt_code(c: char) -> nat {
    if c == 'A' || c == 'a' {
        0
    } else if c == 'C' || c == 'c' {
        1
    } else if c == 'G' || c == 'g' {
        2
    } else if c == 'T' || c == 't' {
        3
    } else {
        4
    }
}

/// Index of the complementary nucleotide (`A` and `T`, `C` and `G` swapped); 4 for an
/// unknown base.
pub open spec fn nt_code_rc(c: char) -> nat {
    if nt_code(c) < 4 {
        (3 - nt_code(c)) as nat
    } else {
        4
    }
}

/// Complement index on the alphabet that marks inserted bases in lower case.
pub open spec fn nt_code_rc_indel(c: char) -> nat {
    if c == 'A' {
        3
    } else if c == 'C' {
        2
    } else if c == 'G' {
        1
    } else if c == 'T' {
        0
    } else if c == 'a' {
        8
    } else if c == 'c' {
        7
    } else if c == 'g' {
        6
    } else if c == 't' {
        5
    } else if c == 'n' {
        9
    } else if c == 'x' {
        10
    } else {
        4
    }
}

/// Letter of a nucleotide index: `A`, `C`, `G`, `T`, and `N` for 4.
pub open spec fn base_letter(i: nat) -> char {
    if i == 0 {
        'A'
    } else if i == 1 {
        'C'
    } else if i == 2 {
        'G'
    } else if i == 3 {
        'T'
    } else {
        'N'
    }
}

/// Letter of an index of the insertion-marking alphabet.
pub open spec fn indel_letter(i: nat) -> char {
    if i < 5 {
        base_letter(i)
    } else if i == 5 {
        'a'
    } else if i == 6 {
        'c'
    } else if i == 7 {
        'g'
    } else if i == 8 {
        't'
    } else if i == 9 {
        'n'
    } else {
        'x'
    }
}

/// Complement of a base, in upper case; any unknown character becomes `N`.
pub open spec fn complement(c: char) -> char {
    base_letter(nt_code_rc(c))
}

/// Reverse complement of a sequence.
pub open spec fn reverse_complement(s: Seq<char>) -> Seq<char> {
    Seq::new(s.len(), |i: int| complement(s[s.len() - 1 - i]))
}

/// Reverse complement on the insertion-marking alphabet (case is kept).
pub open spec fn reverse_complement_indel(s: Seq<char>) -> Seq<char> {
    Seq::new(s.len(), |i: int| indel_letter(nt_code_rc_indel(s[s.len() - 1 - i])))
}

/// Nucleotide index where an unknown base counts as `A`.
pub open spec fn nt_code_or_a(c: char) -> nat {
    if nt_code(c) < 4 {
        nt_code(c)
    } else {
        0
    }
}

/// Trinucleotide index in 0..64; unknown bases count as `A`.
pub open spec fn tri_code(a: char, b: char, c: char) -> nat {
    16 * nt_code_or_a(a) + 4 * nt_code_or_a(b) + nt_code_or_a(c)
}

/// Trinucleotide index used for translation: 0..64 for three known bases, else 64.
pub open spec fn pep_code(a: char, b: char, c: char) -> nat {
    if nt_code(a) < 4 && nt_code(b) < 4 && nt_code(c) < 4 {
        16 * nt_code(a) + 4 * nt_code(b) + nt_code(c)
    } else {
        64
    }
}

/// Converts a nucleotide character to its index.
pub fn nt2int(nt: char) -> (r: usize)
    ensures
        r == nt_code(nt),
{
    match nt {
        'A' | 'a' => 0,
        'C' | 'c' => 1,
        'G' | 'g' => 2,
        'T' | 't' => 3,
        _ => 4,
    }
}

/// Converts a nucleotide character to the index of its complement.
pub fn nt2int_rc(nt: &char) -> (r: usize)
    ensures
        r == nt_code_rc(*nt),
{
    match nt {
        'A' | 'a' => 3,
        'C' | 'c' => 2,
        'G' | 'g' => 1,
        'T' | 't' => 0,
        _ => 4,
    }
}

/// Converts a character of the insertion-marking alphabet to the index of its complement.
pub fn nt2int_rc_indel(nt: &char) -> (r: usize)
    ensures
        r == nt_code_rc_indel(*nt),
{
    match nt {
        'A' => 3,
        'C' => 2,
        'G' => 1,
        'T' => 0,
        'a' => 8,
        'c' => 7,
        'g' => 6,
        't' => 5,
        'n' => 9,
        'x' => 10,
        _ => 4,
    }
}

fn base_char(i: usize) -> (r: char)
    ensures
        r == base_letter(i as nat),
{
    match i {
        0 => 'A',
        1 => 'C',
        2 => 'G',
        3 => 'T',
        _ => 'N',
    }
}

fn indel_char(i: usize) -> (r: char)
    ensures
        r == indel_letter(i as nat),
{
    match i {
        0 => 'A',
        1 => 'C',
        2 => 'G',
        3 => 'T',
        4 => 'N',
        5 => 'a',
        6 => 'c',
        7 => 'g',
        8 => 't',
        9 => 'n',
        _ => 'x',
    }
}

/// Converts a transition name of the training file to its index; `None` for an
/// unknown name.
pub fn tr2int(tr: &String) -> (r: Option<usize>)
    ensures
        r == transition_code(tr@),
{
    let s = tr.as_str();
    let n = s.unicode_len();
    if n == 2 {
        let a = s.get_char(0);
        let b = s.get_char(1);
        if a == 'M' && b == 'M' {
            Some(0)
        } else if a == 'M' && b == 'I' {
            Some(1)
        } else if a == 'M' && b == 'D' {
            Some(2)
        } else if a == 'I' && b == 'I' {
            Some(3)
        } else if a == 'I' && b == 'M' {
            Some(4)
        } else if a == 'D' && b == 'D' {
            Some(5)
        } else if a == 'D' && b == 'M' {
            Some(6)
        } else if a == 'G' && b == 'E' {
            Some(7)
        } else if a == 'G' && b == 'G' {
            Some(8)
        } else if a == 'E' && b == 'R' {
            Some(9)
        } else if a == 'R' && b == 'S' {
            Some(10)
        } else if a == 'R' && b == 'R' {
            Some(11)
        } else if a == 'E' && b == 'S' {
            Some(12)
        } else {
            None
        }
    } else if n == 3 && s.get_char(0) == 'E' && s.get_char(1) == 'S' && s.get_char(2) == '1' {
        Some(13)
    } else {
        None
    }
}

/// Index of a named transition of the model, in the order
/// `MM MI MD II IM DD DM GE GG ER RS RR ES ES1`.
pub open spec fn transition_code(s: Seq<char>) -> Option<usize> {
    if s.len() == 2 {
        if s[0] == 'M' && s[1] == 'M' {
            Some(0)
        } else if s[0] == 'M' && s[1] == 'I' {
            Some(1)
        } else if s[0] == 'M' && s[1] == 'D' {
            Some(2)
        } else if s[0] == 'I' && s[1] == 'I' {
            Some(3)
        } else if s[0] == 'I' && s[1] == 'M' {
            Some(4)
        } else if s[0] == 'D' && s[1] == 'D' {
            Some(5)
        } else if s[0] == 'D' && s[1] == 'M' {
            Some(6)
        } else if s[0] == 'G' && s[1] == 'E' {
            Some(7)
        } else if s[0] == 'G' && s[1] == 'G' {
            Some(8)
        } else if s[0] == 'E' && s[1] == 'R' {
            Some(9)
        } else if s[0] == 'R' && s[1] == 'S' {
            Some(10)
        } else if s[0] == 'R' && s[1] == 'R' {
            Some(11)
        } else if s[0] == 'E' && s[1] == 'S' {
            Some(12)
        } else {
            None
        }
    } else if s.len() == 3 && s[0] == 'E' && s[1] == 'S' && s[2] == '1' {
        Some(13)
    } else {
        None
    }
}

/// Converts a trinucleotide to its index; unknown bases count as `A`.
pub fn trinucleotide(a: &char, b: &char, c: &char) -> (r: usize)
    ensures
        r == tri_code(*a, *b, *c),
        r < 64,
{
    let x = nt2int(*a);
    let y = nt2int(*b);
    let z = nt2int(*c);
    let x = if x < 4 { x } else { 0 };
    let y = if y < 4 { y } else { 0 };
    let z = if z < 4 { z } else { 0 };
    16 * x + 4 * y + z
}

/// Converts a trinucleotide to its translation index: 64 when a base is unknown.
pub fn trinucleotide_pep(a: &char, b: &char, c: &char) -> (r: usize)
    ensures
        r == pep_code(*a, *b, *c),
        r <= 64,
{
    let x = nt2int(*a);
    let y = nt2int(*b);
    let z = nt2int(*c);
    if x < 4 && y < 4 && z < 4 {
        16 * x + 4 * y + z
    } else {
        64
    }
}

/// Amino acid read from a codon index on the coding strand; index 64 stands for a
/// codon holding an unknown base.
pub open spec fn residue(i: usize) -> char {
    match i {
        0 => 'K', 1 => 'N', 2 => 'K', 3 => 'N', 4 => 'T', 5 => 'T', 6 => 'T', 7 => 'T',
        8 => 'R', 9 => 'S', 10 => 'R', 11 => 'S', 12 => 'I', 13 => 'I', 14 => 'M', 15 => 'I',
        16 => 'Q', 17 => 'H', 18 => 'Q', 19 => 'H', 20 => 'P', 21 => 'P', 22 => 'P', 23 => 'P',
        24 => 'R', 25 => 'R', 26 => 'R', 27 => 'R', 28 => 'L', 29 => 'L', 30 => 'L', 31 => 'L',
        32 => 'E', 33 => 'D', 34 => 'E', 35 => 'D', 36 => 'A', 37 => 'A', 38 => 'A', 39 => 'A',
        40 => 'G', 41 => 'G', 42 => 'G', 43 => 'G', 44 => 'V', 45 => 'V', 46 => 'V', 47 => 'V',
        48 => '*', 49 => 'Y', 50 => '*', 51 => 'Y', 52 => 'S', 53 => 'S', 54 => 'S', 55 => 'S',
        56 => '*', 57 => 'C', 58 => 'W', 59 => 'C', 60 => 'L', 61 => 'F', 62 => 'L', 63 => 'F',
        _ => 'X',
    }
}

/// Amino acid of a codon index read off the opposite strand: the codon is given as it
/// stands on the forward strand, and the table already accounts for reading it reversed.
pub open spec fn anti_residue(i: usize) -> char {
    match i {
        0 => 'F', 1 => 'V', 2 => 'L', 3 => 'I', 4 => 'C', 5 => 'G', 6 => 'R', 7 => 'S',
        8 => 'S', 9 => 'A', 10 => 'P', 11 => 'T', 12 => 'Y', 13 => 'D', 14 => 'H', 15 => 'N',
        16 => 'L', 17 => 'V', 18 => 'L', 19 => 'M', 20 => 'W', 21 => 'G', 22 => 'R', 23 => 'R',
        24 => 'S', 25 => 'A', 26 => 'P', 27 => 'T', 28 => '*', 29 => 'E', 30 => 'Q', 31 => 'K',
        32 => 'F', 33 => 'V', 34 => 'L', 35 => 'I', 36 => 'C', 37 => 'G', 38 => 'R', 39 => 'S',
        40 => 'S', 41 => 'A', 42 => 'P', 43 => 'T', 44 => 'Y', 45 => 'D', 46 => 'H', 47 => 'N',
        48 => 'L', 49 => 'V', 50 => 'L', 51 => 'I', 52 => '*', 53 => 'G', 54 => 'R', 55 => 'R',
        56 => 'S', 57 => 'A', 58 => 'P', 59 => 'T', 60 => '*', 61 => 'E', 62 => 'Q', 63 => 'K',
        _ => 'X',
    }
}

/// Executable lookup of `residue`.
pub fn codon_residue(i: usize) -> (r: char)
    ensures
        r == residue(i),
{
    match i {
        0 => 'K', 1 => 'N', 2 => 'K', 3 => 'N', 4 => 'T', 5 => 'T', 6 => 'T', 7 => 'T',
        8 => 'R', 9 => 'S', 10 => 'R', 11 => 'S', 12 => 'I', 13 => 'I', 14 => 'M', 15 => 'I',
        16 => 'Q', 17 => 'H', 18 => 'Q', 19 => 'H', 20 => 'P', 21 => 'P', 22 => 'P', 23 => 'P',
        24 => 'R', 25 => 'R', 26 => 'R', 27 => 'R', 28 => 'L', 29 => 'L', 30 => 'L', 31 => 'L',
        32 => 'E', 33 => 'D', 34 => 'E', 35 => 'D', 36 => 'A', 37 => 'A', 38 => 'A', 39 => 'A',
        40 => 'G', 41 => 'G', 42 => 'G', 43 => 'G', 44 => 'V', 45 => 'V', 46 => 'V', 47 => 'V',
        48 => '*', 49 => 'Y', 50 => '*', 51 => 'Y', 52 => 'S', 53 => 'S', 54 => 'S', 55 => 'S',
        56 => '*', 57 => 'C', 58 => 'W', 59 => 'C', 60 => 'L', 61 => 'F', 62 => 'L', 63 => 'F',
        _ => 'X',
    }
}

/// Executable lookup of `anti_residue`.
pub fn anti_codon_residue(i: usize) -> (r: char)
    ensures
        r == anti_residue(i),
{
    match i {
        0 => 'F', 1 => 'V', 2 => 'L', 3 => 'I', 4 => 'C', 5 => 'G', 6 => 'R', 7 => 'S',
        8 => 'S', 9 => 'A', 10 => 'P', 11 => 'T', 12 => 'Y', 13 => 'D', 14 => 'H', 15 => 'N',
        16 => 'L', 17 => 'V', 18 => 'L', 19 => 'M', 20 => 'W', 21 => 'G', 22 => 'R', 23 => 'R',
        24 => 'S', 25 => 'A', 26 => 'P', 27 => 'T', 28 => '*', 29 => 'E', 30 => 'Q', 31 => 'K',
        32 => 'F', 33 => 'V', 34 => 'L', 35 => 'I', 36 => 'C', 37 => 'G', 38 => 'R', 39 => 'S',
        40 => 'S', 41 => 'A', 42 => 'P', 43 => 'T', 44 => 'Y', 45 => 'D', 46 => 'H', 47 => 'N',
        48 => 'L', 49 => 'V', 50 => 'L', 51 => 'I', 52 => '*', 53 => 'G', 54 => 'R', 55 => 'R',
        56 => 'S', 57 => 'A', 58 => 'P', 59 => 'T', 60 => '*', 61 => 'E', 62 => 'Q', 63 => 'K',
        _ => 'X',
    }
}

/// Reverse complement of a DNA sequence: unknown characters become `N`.
pub fn get_rc_dna(dna: &Vec<char>) -> (r: Vec<char>)
    ensures
        r@ == reverse_complement(dna@),
{
    let len = dna.len();
    let mut result: Vec<char> = Vec::new();
    let mut i: usize = 0;
    while i < len
        invariant
            len == dna@.len(),
            i <= len,
            result@ =~= reverse_complement(dna@).subrange(0, i as int),
        decreases len - i,
    {
        result.push(base_char(nt2int_rc(&dna[len - 1 - i])));
        i = i + 1;
    }
    result
}

/// Reverse complement that keeps the case marking of inserted bases.
pub fn get_rc_dna_indel(dna: &Vec<char>) -> (r: Vec<char>)
    ensures
        r@ == reverse_complement_indel(dna@),
{
    let len = dna.len();
    let mut result: Vec<char> = Vec::new();
    let mut i: usize = 0;
    while i < len
        invariant
            len == dna@.len(),
            i <= len,
            result@ =~= reverse_complement_indel(dna@).subrange(0, i as int),
        decreases len - i,
    {
        result.push(indel_char(nt2int_rc_indel(&dna[len - 1 - i])));
        i = i + 1;
    }
    result
}

/// Translation index of the `k`-th codon of `dna` (bases `3k`, `3k+1`, `3k+2`).
pub open spec fn codon_at(dna: Seq<char>, k: int) -> usize {
    pep_code(dna[3 * k], dna[3 * k + 1], dna[3 * k + 2]) as usize
}

/// Residues of every complete codon, before the stop is trimmed. On the forward strand
/// codon `j` gives residue `j`; on the reverse strand the codons are read from the 3' end,
/// so residue `j` comes from codon `n - 1 - j`.
pub open spec fn raw_protein(dna: Seq<char>, strand: bool) -> Seq<char> {
    let n = dna.len() / 3;
    Seq::new(
        n,
        |j: int|
            if strand {
                residue(codon_at(dna, j))
            } else {
                anti_residue(codon_at(dna, n - 1 - j))
            },
    )
}

/// The protein without a final stop `*`.
pub open spec fn trimmed_protein(dna: Seq<char>, strand: bool) -> Seq<char> {
    let raw = raw_protein(dna, strand);
    if raw.len() > 0 && raw.last() == '*' {
        raw.drop_last()
    } else {
        raw
    }
}

/// The alternative start codon rule: `GTG` or `TTG` opening a forward gene, `CAC` or `CAA`
/// closing the DNA of a reverse one.
pub open spec fn alternative_start(dna: Seq<char>, strand: bool) -> bool {
    let n = dna.len();
    if strand {
        let s = pep_code(dna[0], dna[1], dna[2]);
        s == 46 || s == 62
    } else {
        let s = pep_code(dna[n - 3], dna[n - 2], dna[n - 1]);
        s == 17 || s == 16
    }
}

/// Protein of a gene's DNA. In short-read mode an alternative start codon is read as `M`.
pub open spec fn translate(dna: Seq<char>, strand: bool, wholegenome: bool) -> Seq<char> {
    let p = trimmed_protein(dna, strand);
    if !wholegenome && p.len() > 0 && alternative_start(dna, strand) {
        p.update(0, 'M')
    } else {
        p
    }
}

/// Translates a DNA sequence into a protein, on the forward strand (`strand`) or
/// the reverse one.
pub fn get_protein(dna: &Vec<char>, strand: bool, wholegenome: bool) -> (protein: Vec<char>)
    ensures
        protein@ == translate(dna@, strand, wholegenome),
        protein@.len() == dna@.len() / 3 || protein@.len() == dna@.len() / 3 - 1,
{
    let len = dna.len();
    let n = len / 3;
    let mut protein: Vec<char> = Vec::new();
    let mut j: usize = 0;
    while j < n
        invariant
            len == dna@.len(),
            n == len / 3,
            j <= n,
            protein@ =~= raw_protein(dna@, strand).subrange(0, j as int),
        decreases n - j,
    {
        let k = if strand { j } else { n - 1 - j };
        let i = 3 * k;
        let idx = trinucleotide_pep(&dna[i], &dna[i + 1], &dna[i + 2]);
        if strand {
            protein.push(codon_residue(idx));
        } else {
            protein.push(anti_codon_residue(idx));
        }
        j = j + 1;
    }
    assert(protein@ =~= raw_protein(dna@, strand));
    if n > 0 && protein[n - 1] == '*' {
        protein.pop();
    }
    assert(protein@ =~= trimmed_protein(dna@, strand));
    if !wholegenome && protein.len() > 0 {
        let s = if strand {
            trinucleotide_pep(&dna[0], &dna[1], &dna[2])
        } else {
            trinucleotide_pep(&dna[len - 3], &dna[len - 2], &dna[len - 1])
        };
        let alternative = if strand {
            s == 46 || s == 62
        } else {
            s == 17 || s == 16
        };
        if alternative {
            protein.set(0, 'M');
        }
    }
    protein
}

/// Length of the text held in `s`: the characters before the first `'\0'`.
pub open spec fn text_len(s: Seq<char>) -> nat
    decreases s.len(),
{
    if s.len() == 0 || s[0] == '\0' {
        0
    } else {
        1 + text_len(s.drop_first())
    }
}

proof fn lemma_text_len_stop(s: Seq<char>, i: int)
    requires
        0 <= i <= s.len(),
        forall|k: int| 0 <= k < i ==> s[k] != '\0',
        i == s.len() || s[i] == '\0',
    ensures
        text_len(s) == i,
    decreases i,
{
    if i > 0 {
        lemma_text_len_stop(s.drop_first(), i - 1);
    }
}

/// Number of characters before the first `'\0'` of `s`, or its whole length.
pub fn strlen(s: &Vec<char>) -> (r: usize)
    ensures
        r == text_len(s@),
{
    let mut result: usize = 0;
    while result < s.len() && s[result] != '\0'
        invariant
            result <= s@.len(),
            forall|k: int| 0 <= k < result ==> s@[k] != '\0',
        decreases s@.len() - result,
    {
        result = result + 1;
    }
    proof {
        lemma_text_len_stop(s@, result as int);
    }
    result
}

/// Copies `len` characters of `source` from `start_pos` to the front of `target`, with
/// `'\0'` for positions past the end of `source`.
pub fn strncpy(target: &mut Vec<char>, source: &Vec<char>, start_pos: usize, len: usize)
    requires
        len <= old(target)@.len(),
        start_pos + len <= usize::MAX,
    ensures
        final(target)@.len() == old(target)@.len(),
        forall|i: int|
            0 <= i < len ==> #[trigger] final(target)@[i] == if start_pos + i < source@.len() {
                source@[start_pos + i]
            } else {
                '\0'
            },
        forall|i: int| len <= i < old(target)@.len() ==> #[trigger] final(target)@[i] == old(target)@[i],
{
    let sourcelen = source.len();
    let mut i: usize = 0;
    while i < len
        invariant
            i <= len,
            len <= target@.len(),
            target@.len() == old(target)@.len(),
            sourcelen == source@.len(),
            start_pos + len <= usize::MAX,
            forall|k: int|
                0 <= k < i ==> #[trigger] target@[k] == if start_pos + k < source@.len() {
                    source@[start_pos + k]
                } else {
                    '\0'
                },
            forall|k: int| i <= k < target@.len() ==> #[trigger] target@[k] == old(target)@[k],
        decreases len - i,
    {
        if start_pos + i < sourcelen {
            target.set(i, source[start_pos + i]);
        } else {
            target.set(i, '\0');
        }
        i = i + 1;
    }
}

/// The codes of a base and of its complement add up to 3.
pub proof fn lemma_complement_code_sum(c: char)
    requires
        nt_code(c) < 4,
    ensures
        nt_code(complement(c)) + nt_code(c) == 3,
{
}

/// The anti-codon table at a codon of known bases is the codon table at the reverse
/// complement of that codon.
proof fn lemma_anti_table(x: nat, y: nat, z: nat)
    requires
        x < 4,
        y < 4,
        z < 4,
    ensures
        anti_residue((16 * x + 4 * y + z) as usize) == residue(
            (16 * (3 - z) + 4 * (3 - y) + (3 - x)) as usize,
        ),
{
    if x == 0 {
        if y == 0 {
            if z == 0 {
                assert(anti_residue(0) == residue(63));
            } else if z == 1 {
                assert(anti_residue(1) == residue(47));
            } else if z == 2 {
                assert(anti_residue(2) == residue(31));
            } else {
                assert(anti_residue(3) == residue(15));
            }
        } else if y == 1 {
            if z == 0 {
                assert(anti_residue(4) == residue(59));
            } else if z == 1 {
                assert(anti_residue(5) == residue(43));
            } else if z == 2 {
                assert(anti_residue(6) == residue(27));
            } else {
                assert(anti_residue(7) == residue(11));
            }
        } else if y == 2 {
            if z == 0 {
                assert(anti_residue(8) == residue(55));
            } else if z == 1 {
                assert(anti_residue(9) == residue(39));
            } else if z == 2 {
                assert(anti_residue(10) == residue(23));
            } else {
                assert(anti_residue(11) == residue(7));
            }
        } else {
            if z == 0 {
                assert(anti_residue(12) == residue(51));
            } else if z == 1 {
                assert(anti_residue(13) == residue(35));
            } else if z == 2 {
                assert(anti_residue(14) == residue(19));
            } else {
                assert(anti_residue(15) == residue(3));
            }
        }
    } else if x == 1 {
        if y == 0 {
            if z == 0 {
                assert(anti_residue(16) == residue(62));
            } else if z == 1 {
                assert(anti_residue(17) == residue(46));
            } else if z == 2 {
                assert(anti_residue(18) == residue(30));
            } else {
                assert(anti_residue(19) == residue(14));
            }
        } else if y == 1 {
            if z == 0 {
                assert(anti_residue(20) == residue(58));
            } else if z == 1 {
                assert(anti_residue(21) == residue(42));
            } else if z == 2 {
                assert(anti_residue(22) == residue(26));
            } else {
                assert(anti_residue(23) == residue(10));
            }
        } else if y == 2 {
            if z == 0 {
                assert(anti_residue(24) == residue(54));
            } else if z == 1 {
                assert(anti_residue(25) == residue(38));
            } else if z == 2 {
                assert(anti_residue(26) == residue(22));
            } else {
                assert(anti_residue(27) == residue(6));
            }
        } else {
            if z == 0 {
                assert(anti_residue(28) == residue(50));
            } else if z == 1 {
                assert(anti_residue(29) == residue(34));
            } else if z == 2 {
                assert(anti_residue(30) == residue(18));
            } else {
                assert(anti_residue(31) == residue(2));
            }
        }
    } else if x == 2 {
        if y == 0 {
            if z == 0 {
                assert(anti_residue(32) == residue(61));
            } else if z == 1 {
                assert(anti_residue(33) == residue(45));
            } else if z == 2 {
                assert(anti_residue(34) == residue(29));
            } else {
                assert(anti_residue(35) == residue(13));
            }
        } else if y == 1 {
            if z == 0 {
                assert(anti_residue(36) == residue(57));
            } else if z == 1 {
                assert(anti_residue(37) == residue(41));
            } else if z == 2 {
                assert(anti_residue(38) == residue(25));
            } else {
                assert(anti_residue(39) == residue(9));
            }
        } else if y == 2 {
            if z == 0 {
                assert(anti_residue(40) == residue(53));
            } else if z == 1 {
                assert(anti_residue(41) == residue(37));
            } else if z == 2 {
                assert(anti_residue(42) == residue(21));
            } else {
                assert(anti_residue(43) == residue(5));
            }
        } else {
            if z == 0 {
                assert(anti_residue(44) == residue(49));
            } else if z == 1 {
                assert(anti_residue(45) == residue(33));
            } else if z == 2 {
                assert(anti_residue(46) == residue(17));
            } else {
                assert(anti_residue(47) == residue(1));
            }
        }
    } else {
        if y == 0 {
            if z == 0 {
                assert(anti_residue(48) == residue(60));
            } else if z == 1 {
                assert(anti_residue(49) == residue(44));
            } else if z == 2 {
                assert(anti_residue(50) == residue(28));
            } else {
                assert(anti_residue(51) == residue(12));
            }
        } else if y == 1 {
            if z == 0 {
                assert(anti_residue(52) == residue(56));
            } else if z == 1 {
                assert(anti_residue(53) == residue(40));
            } else if z == 2 {
                assert(anti_residue(54) == residue(24));
            } else {
                assert(anti_residue(55) == residue(8));
            }
        } else if y == 2 {
            if z == 0 {
                assert(anti_residue(56) == residue(52));
            } else if z == 1 {
                assert(anti_residue(57) == residue(36));
            } else if z == 2 {
                assert(anti_residue(58) == residue(20));
            } else {
                assert(anti_residue(59) == residue(4));
            }
        } else {
            if z == 0 {
                assert(anti_residue(60) == residue(48));
            } else if z == 1 {
                assert(anti_residue(61) == residue(32));
            } else if z == 2 {
                assert(anti_residue(62) == residue(16));
            } else {
                assert(anti_residue(63) == residue(0));
            }
        }
    }
}

/// The anti-codon table reads a codon as the codon table reads its reverse complement.
proof fn lemma_anti_residue(a: char, b: char, c: char)
    ensures
        anti_residue(pep_code(a, b, c) as usize) == residue(
            pep_code(complement(c), complement(b), complement(a)) as usize,
        ),
{
    if nt_code(a) < 4 && nt_code(b) < 4 && nt_code(c) < 4 {
        lemma_anti_table(nt_code(a), nt_code(b), nt_code(c));
    }
}

/// The alternative start read at the front of the reverse complement is the one read at
/// the back of the DNA on the reverse strand.
proof fn lemma_alternative_start_reverse_complement(dna: Seq<char>)
    requires
        dna.len() >= 3,
    ensures
        alternative_start(reverse_complement(dna), true) == alternative_start(dna, false),
{
    let rc = reverse_complement(dna);
    let n = dna.len();
    assert(rc[0] == complement(dna[n - 1]));
    assert(rc[1] == complement(dna[n - 2]));
    assert(rc[2] == complement(dna[n - 3]));
    let (x, y, z) = (nt_code(dna[n - 3]), nt_code(dna[n - 2]), nt_code(dna[n - 1]));
    if x < 4 && y < 4 && z < 4 {
        assert(nt_code(rc[0]) == 3 - z);
        assert(nt_code(rc[1]) == 3 - y);
        assert(nt_code(rc[2]) == 3 - x);
    } else {
        assert(nt_code(rc[0]) == 4 || nt_code(rc[1]) == 4 || nt_code(rc[2]) == 4);
    }
}

/// For DNA made of whole codons, translating its reverse complement on the forward
/// strand gives the protein of the DNA read on the reverse strand.
pub proof fn lemma_translate_reverse_complement(dna: Seq<char>, wholegenome: bool)
    requires
        dna.len() % 3 == 0,
    ensures
        translate(reverse_complement(dna), true, wholegenome) == translate(dna, false, wholegenome),
{
    let rc = reverse_complement(dna);
    let n = dna.len() / 3;
    assert forall|j: int| 0 <= j < n implies #[trigger] raw_protein(rc, true)[j] == raw_protein(
        dna,
        false,
    )[j] by {
        let m = n - 1 - j;
        assert(rc[3 * j] == complement(dna[3 * m + 2]));
        assert(rc[3 * j + 1] == complement(dna[3 * m + 1]));
        assert(rc[3 * j + 2] == complement(dna[3 * m]));
        lemma_anti_residue(dna[3 * m], dna[3 * m + 1], dna[3 * m + 2]);
    }
    assert(raw_protein(rc, true) =~= raw_protein(dna, false));
    assert(trimmed_protein(rc, true) =~= trimmed_protein(dna, false));
    if dna.len() >= 3 {
        lemma_alternative_start_reverse_complement(dna);
    }
}

} // verus!
