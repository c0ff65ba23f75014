//! Detection of likely BGP route leaks from pre-aggregated count sequences.
//!
//! Two time series are collected for a routed prefix set: a count of
//! announced prefixes and a count of detected conflicting announcements.
//! A leak is suspected when both series show a sharp, statistically
//! significant spike at the same position.  This crate holds the peak
//! detection and peak matching pipeline: candidate local maxima, the
//! magnitude / closeness / density filters, the standard-deviation
//! outlier validation, and the final intersection of the two peak sets.
//!
//! All computation is exact integer arithmetic.  Fractional thresholds
//! (`similarity`, `percent_std`) are given in ten-thousandths, and the
//! standard-deviation comparison is carried out on cross-multiplied
//! variance numerators, so no rounding ever enters a decision.

pub mod analysis;
pub mod filter;
pub mod laws;
pub mod leaks;
pub mod maxes;
pub mod params;
pub mod parse;
pub mod specs;
pub mod validate;
mod wide;

pub use analysis::detect_local_max;
pub use analysis::pre_computations;
pub use filter::get_big_maxes;
pub use filter::has_few_enough_peaks;
pub use filter::is_big_enough;
pub use filter::is_close_to_abs_max;
pub use laws::lemma_last_index_never_local_max;
pub use laws::lemma_leak_matcher_order_independent;
pub use laws::lemma_leak_matcher_skips_empty_input;
pub use laws::lemma_process_doc_deterministic;
pub use laws::lemma_strictly_monotonic_no_peaks;
pub use laws::lemma_validator_rejects_when_all_removed;
pub use leaks::identify_leaks;
pub use leaks::process_doc;
pub use maxes::find_maxes;
pub use maxes::find_maxes_conflicts;
pub use maxes::find_maxes_prefixes;
pub use params::Data;
pub use params::Parameters;
pub use parse::get_integer;
pub use parse::ParseUintError;
pub use parse::ReadError;
pub use validate::check_std_variation;
