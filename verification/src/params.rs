//! The input records of one analysis run: a document and its thresholds.

use vstd::prelude::*;

verus! {

/// One document: the autonomous-system numbers it concerns and the two
/// count sequences measured over the same time axis.
#[derive(Debug)]
pub struct Data {
    /// The autonomous-system numbers the two sequences were collected
    /// for; opaque identifiers, order irrelevant.
    pub ases: Vec<u32>,
    /// Announced-prefix counts per time bucket.
    pub prefixes: Vec<u32>,
    /// Conflicting-announcement counts per time bucket.
    pub conflicts: Vec<u32>,
}

/// The thresholds of one analysis run.  The two fractional thresholds
/// are exact fractions in ten-thousandths: a `similarity` of 9000 means
/// nine tenths.
#[derive(Debug, Clone, Copy)]
pub struct Parameters {
    /// Minimum magnitude of change on both sides of a candidate peak in
    /// the prefixes sequence.
    pub prefixes_peak_min_value: u32,
    /// Minimum magnitude of change on both sides of a candidate peak in
    /// the conflicts sequence.
    pub conflicts_peak_min_value: u32,
    /// In ten-thousandths: a peak's value must be within one
    /// ten-thousandth of `similarity / 10000` times the sequence
    /// maximum to qualify.
    pub similarity: u32,
    /// Maximum count of comparably large peaks that may coexist before
    /// a candidate is discarded as part of an overcrowded cluster; the
    /// candidate counts against itself.
    pub max_nb_peaks: u32,
    /// In ten-thousandths: the standard deviation of the sequence with
    /// peaks removed must be strictly below `percent_std / 10000` times
    /// the full-sequence standard deviation for the peak set to be
    /// validated.
    pub percent_std: u32,
    /// Formatting flag of the surrounding reporting layer; the analysis
    /// ignores it.
    pub flat: bool,
}

} // verus!
