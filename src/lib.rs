//! Note layouts of diatonic harmonicas: from the blow and draw notes of each
//! hole, every note that can be played, and the canonical order of fingerings.

pub mod error;
pub mod label;
pub mod layout;
pub mod notes;
pub mod ordering;
pub mod pitch;
pub mod scales;
pub mod text;
pub mod tuning;
pub mod tunings;

pub use error::TuningError;
pub use label::{Label, Reed};
pub use layout::{get_caption, hole_numbers, to_ordinal, Setup};
pub use notes::{convert_to_numbers, str_to_rows, to_scale_degree, ChromaticScale};
pub use ordering::{notes_in_order, order};
pub use pitch::adjust_octaves;
pub use tuning::{str_to_notes_in_order, Tuning};
