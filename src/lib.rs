//! Gene prediction on DNA reads and genomes with a hidden Markov model of 29 states:
//! nucleotide and codon coding, the choice of trained tables by GC content, the codon
//! rules of the decoder, and the reading of genes, their DNA and proteins off the best
//! state path.

pub mod codec;
pub mod orf;
pub mod path;
pub mod rules;
pub mod select;
pub mod states;
