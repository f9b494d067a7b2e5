use vstd::prelude::*;

verus! {

/// A `C` or `G` in either case.
pub open spec fn is_gc(c: char) -> bool {
    c == 'C' || c == 'c' || c == 'G' || c == 'g'
}

/// Number of `C` and `G` bases in `s`.
pub open spec fn gc_count(s: Seq<char>) -> nat
    decreases s.len(),
{
    if s.len() == 0 {
        0
    } else {
        gc_count(s.drop_last()) + if is_gc(s.last()) {
            1nat
        } else {
            0nat
        }
    }
}

/// Bucket of the trained tables for a sequence: its GC percentage, rounded down, less 26,
/// clamped to `0..=43`. An empty sequence falls in bucket 0.
pub open spec fn gc_bucket(s: Seq<char>) -> nat {
    if s.len() == 0 {
        0
    } else {
        let percent = (100 * gc_count(s)) / s.len();
        if percent < 26 {
            0
        } else if percent - 26 > 43 {
            43
        } else {
            (percent - 26) as nat
        }
    }
}

proof fn lemma_gc_count_bound(s: Seq<char>)
    ensures
        gc_count(s) <= s.len(),
    decreases s.len(),
{
    if s.len() > 0 {
        lemma_gc_count_bound(s.drop_last());
    }
}

/// Chooses the bucket of the trained tables that a sequence is decoded with.
pub fn cg_bucket(seq: &Vec<char>) -> (r: usize)
    ensures
        r == gc_bucket(seq@),
        r <= 43,
{
    let len = seq.len();
    let mut count: usize = 0;
    let mut i: usize = 0;
    while i < len
        invariant
            len == seq@.len(),
            i <= len,
            count == gc_count(seq@.subrange(0, i as int)),
            count <= i,
        decreases len - i,
    {
        let c = seq[i];
        proof {
            assert(seq@.subrange(0, i + 1).drop_last() =~= seq@.subrange(0, i as int));
        }
        if c == 'C' || c == 'c' || c == 'G' || c == 'g' {
            count = count + 1;
        }
        i = i + 1;
    }
    assert(seq@.subrange(0, len as int) =~= seq@);
    if len == 0 {
        return 0;
    }
    let percent: u128 = (100 * (count as u128)) / (len as u128);
    if percent < 26 {
        0
    } else if percent - 26 > 43 {
        43
    } else {
        (percent - 26) as usize
    }
}

/// A record is decoded only if its sequence is longer than 70 bases.
pub open spec fn is_decodable(seq: Seq<char>) -> bool {
    seq.len() > 70
}

/// Tells whether a record with this sequence is decoded; shorter ones are dropped
/// before any decoding.
pub fn decodable(seq: &Vec<char>) -> (r: bool)
    ensures
        r == is_decodable(seq@),
{
    seq.len() > 70
}

} // verus!
