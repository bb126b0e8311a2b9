//! What can go wrong when a tuning is read or derived.
use vstd::prelude::*;

verus! {

/// Why a tuning could not be read or derived.
#[derive(Clone, Copy, Debug, PartialEq, Eq, Structural)]
pub enum TuningError {
    /// The root note is not one of the seventeen recognised names.
    InvalidRootNote,
    /// Sharps were asked for with a flat root, or flats with a sharp one.
    SharpFlatConflict,
    /// The rows are empty, of different lengths, missing, or hold a name
    /// that is not a note of the chromatic scale.
    MalformedTuningRow,
    /// The canonical order would have to name the fingering above the
    /// previous hole's higher note before any fingering reaches that pitch.
    InconsistentOrdering,
}

} // verus!
