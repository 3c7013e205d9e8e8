use vstd::prelude::*;

verus! {

/// Tuning knobs for the analysis.  All weights are fixed-point values in
/// millionths: `1_000_000` stands for a weight of one.
#[derive(Debug, Clone, Copy, PartialEq, Eq, Structural)]
pub struct Config {
    pub use_cache: bool,
    pub save_cache: bool,
    /// Field weight of the function-call channel.
    pub fw_functions: u64,
    /// Field weight of the import channel.
    pub fw_imports: u64,
    /// Field weight of the behavior channel.
    pub fw_behavior: u64,
    /// Field weight of the string channel.
    pub fw_strings: u64,
    /// TF-IDF blend weight for calls.
    pub tw_functions: u64,
    /// TF-IDF blend weight for imports.
    pub tw_imports: u64,
    pub feature_tfidf_calls: bool,
    pub feature_tfidf_imports: bool,
}

} // verus!
