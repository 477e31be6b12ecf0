// A byte-buffer rewriting engine: it replaces every non-overlapping,
// left-to-right occurrence of fixed byte patterns (the two loopback host
// spellings and a port string) with caller-supplied replacement bytes,
// one sequential pass per rule, each pass scanning the previous pass's
// output.

pub mod body;
pub mod laws;
pub mod model;
pub mod proofs;
pub mod rewrite;
