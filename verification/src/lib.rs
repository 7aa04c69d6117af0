//! Verified core of the ETNA property workload for Unicode text segmentation.
//!
//! Three properties of a segmentation library are checked here: a grapheme
//! cursor handed an empty chunk at its own offset asks for the next chunk, a
//! grapheme cursor handed a chunk that starts at its own offset asks for the
//! previous chunk, and on ASCII text the fast word-boundary path agrees with
//! the Unicode one. The segmentation code under test is supplied by the caller
//! as a function; this crate decides the domain of each property, prepares
//! the call, and judges its outcome. Around the properties stand the pieces of
//! the runners: choosing inputs from small integers, generating and mutating
//! texts, reading framework statuses, adding up run costs, and rendering the
//! JSON report line.

pub mod frameworks;
pub mod grapheme;
pub mod inputs;
pub mod metrics;
pub mod panic_payload;
pub mod render;
pub mod report;
pub mod runners;
pub mod textgen;
pub mod verdict;
pub mod word;
pub mod workload;

pub use grapheme::{
    property_grapheme_next_boundary_empty_chunk_no_panic,
    property_grapheme_prev_boundary_chunk_start_no_panic, CursorOutcome, CursorProbe,
    GraphemeIncomplete,
};
pub use inputs::{pick_offset, pick_string};
pub use panic_payload::{downcast_panic, PanicPayload};
pub use verdict::{to_err, to_opt, PropertyResult};
pub use word::{property_ascii_word_bound_indices_match, Segment, WordBoundRun};
