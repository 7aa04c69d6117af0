//! The workload's names: its properties and tools, how a command line names
//! them, and what a runner reports for a name it does not know.

use vstd::prelude::*;
use vstd::utf8::is_ascii_chars;
use crate::grapheme::{
    next_boundary_probe, next_boundary_verdict, prev_boundary_probe, prev_boundary_verdict,
    property_grapheme_next_boundary_empty_chunk_no_panic,
    property_grapheme_prev_boundary_chunk_start_no_panic, CursorOutcome, CursorProbe,
};
use crate::inputs::lemma_ascii_boundaries;
use crate::metrics::{Metrics, Outcome};
use crate::render::push_text;
use crate::verdict::{result_view, to_err, verdict_err};
use crate::word::{property_ascii_word_bound_indices_match, word_bound_verdict, WordBoundRun};

verus! {

/// Whether two string slices hold the same characters.
pub(crate) fn same_text(a: &str, b: &str) -> (eq: bool)
    ensures
        eq == (a@ == b@),
{
    let a_owned: String = a.to_owned();
    let b_owned: String = b.to_owned();
    a_owned == b_owned
}

/// The three properties of the workload.
#[derive(Clone, Copy, PartialEq, Eq, Structural, Debug)]
pub enum PropertyName {
    GraphemeNextBoundaryEmptyChunk,
    GraphemePrevBoundaryChunkStart,
    AsciiWordBoundIndicesMatch,
}

/// The name by which a command line calls a property.
pub open spec fn property_label(p: PropertyName) -> Seq<char> {
    match p {
        PropertyName::GraphemeNextBoundaryEmptyChunk => "GraphemeNextBoundaryEmptyChunk"@,
        PropertyName::GraphemePrevBoundaryChunkStart => "GraphemePrevBoundaryChunkStart"@,
        PropertyName::AsciiWordBoundIndicesMatch => "AsciiWordBoundIndicesMatch"@,
    }
}

impl PropertyName {
    /// The name by which a command line calls this property.
    pub fn label(&self) -> (s: &'static str)
        ensures
            s@ == property_label(*self),
    {
        match self {
            PropertyName::GraphemeNextBoundaryEmptyChunk => "GraphemeNextBoundaryEmptyChunk",
            PropertyName::GraphemePrevBoundaryChunkStart => "GraphemePrevBoundaryChunkStart",
            PropertyName::AsciiWordBoundIndicesMatch => "AsciiWordBoundIndicesMatch",
        }
    }
}

/// What a property argument asks a runner for.
#[derive(Clone, Copy, PartialEq, Eq, Structural, Debug)]
pub enum PropertyRequest {
    /// Every property in turn.
    All,
    /// One property.
    One(PropertyName),
    /// A name the workload does not have.
    Unknown,
}

/// What the property argument `name` asks for.
pub open spec fn property_request(name: Seq<char>) -> PropertyRequest {
    if name == "All"@ {
        PropertyRequest::All
    } else if name == property_label(PropertyName::GraphemeNextBoundaryEmptyChunk) {
        PropertyRequest::One(PropertyName::GraphemeNextBoundaryEmptyChunk)
    } else if name == property_label(PropertyName::GraphemePrevBoundaryChunkStart) {
        PropertyRequest::One(PropertyName::GraphemePrevBoundaryChunkStart)
    } else if name == property_label(PropertyName::AsciiWordBoundIndicesMatch) {
        PropertyRequest::One(PropertyName::AsciiWordBoundIndicesMatch)
    } else {
        PropertyRequest::Unknown
    }
}

/// Reads a property argument.
pub fn parse_property(name: &str) -> (r: PropertyRequest)
    ensures
        r == property_request(name@),
{
    if same_text(name, "All") {
        PropertyRequest::All
    } else if same_text(name, "GraphemeNextBoundaryEmptyChunk") {
        PropertyRequest::One(PropertyName::GraphemeNextBoundaryEmptyChunk)
    } else if same_text(name, "GraphemePrevBoundaryChunkStart") {
        PropertyRequest::One(PropertyName::GraphemePrevBoundaryChunkStart)
    } else if same_text(name, "AsciiWordBoundIndicesMatch") {
        PropertyRequest::One(PropertyName::AsciiWordBoundIndicesMatch)
    } else {
        PropertyRequest::Unknown
    }
}

/// The property-testing tools a run can use.
#[derive(Clone, Copy, PartialEq, Eq, Structural, Debug)]
pub enum Tool {
    Etna,
    Proptest,
    Quickcheck,
    Crabcheck,
    Hegel,
}

/// The name by which a command line calls a tool.
pub open spec fn tool_label(t: Tool) -> Seq<char> {
    match t {
        Tool::Etna => "etna"@,
        Tool::Proptest => "proptest"@,
        Tool::Quickcheck => "quickcheck"@,
        Tool::Crabcheck => "crabcheck"@,
        Tool::Hegel => "hegel"@,
    }
}

/// The tool a tool argument names, if any.
pub open spec fn tool_named(name: Seq<char>) -> Option<Tool> {
    if name == tool_label(Tool::Etna) {
        Some(Tool::Etna)
    } else if name == tool_label(Tool::Proptest) {
        Some(Tool::Proptest)
    } else if name == tool_label(Tool::Quickcheck) {
        Some(Tool::Quickcheck)
    } else if name == tool_label(Tool::Crabcheck) {
        Some(Tool::Crabcheck)
    } else if name == tool_label(Tool::Hegel) {
        Some(Tool::Hegel)
    } else {
        None
    }
}

/// Reads a tool argument.
pub fn parse_tool(name: &str) -> (r: Option<Tool>)
    ensures
        r == tool_named(name@),
{
    if same_text(name, "etna") {
        Some(Tool::Etna)
    } else if same_text(name, "proptest") {
        Some(Tool::Proptest)
    } else if same_text(name, "quickcheck") {
        Some(Tool::Quickcheck)
    } else if same_text(name, "crabcheck") {
        Some(Tool::Crabcheck)
    } else if same_text(name, "hegel") {
        Some(Tool::Hegel)
    } else {
        None
    }
}

/// Law: a property's label reads back as that property, and no label reads as
/// "All".
pub proof fn lemma_property_label_parses(p: PropertyName)
    ensures
        property_request(property_label(p)) == PropertyRequest::One(p),
{
    reveal_strlit("All");
    reveal_strlit("GraphemeNextBoundaryEmptyChunk");
    reveal_strlit("GraphemePrevBoundaryChunkStart");
    reveal_strlit("AsciiWordBoundIndicesMatch");
    let l = property_label(p);
    assert(l != "All"@) by {
        assert(l.len() != "All"@.len());
    }
    match p {
        PropertyName::GraphemeNextBoundaryEmptyChunk => {},
        PropertyName::GraphemePrevBoundaryChunkStart => {
            assert(l[8] != property_label(PropertyName::GraphemeNextBoundaryEmptyChunk)[8]);
        },
        PropertyName::AsciiWordBoundIndicesMatch => {
            assert(l[0] != property_label(PropertyName::GraphemeNextBoundaryEmptyChunk)[0]);
            assert(l[0] != property_label(PropertyName::GraphemePrevBoundaryChunkStart)[0]);
        },
    }
}

/// Law: a tool's label reads back as that tool.
pub proof fn lemma_tool_label_parses(t: Tool)
    ensures
        tool_named(tool_label(t)) == Some(t),
{
    reveal_strlit("etna");
    reveal_strlit("proptest");
    reveal_strlit("quickcheck");
    reveal_strlit("crabcheck");
    reveal_strlit("hegel");
    let l = tool_label(t);
    if t != Tool::Etna {
        assert(l != tool_label(Tool::Etna)) by {
            assert(l.len() != 4 || l[0] != 'e');
        }
    }
    if t != Tool::Proptest {
        assert(l != tool_label(Tool::Proptest)) by {
            assert(l.len() != 8 || l[0] != 'p');
        }
    }
    if t != Tool::Quickcheck {
        assert(l != tool_label(Tool::Quickcheck)) by {
            assert(l.len() != 10 || l[0] != 'q');
        }
    }
    if t != Tool::Crabcheck {
        assert(l != tool_label(Tool::Crabcheck)) by {
            assert(l.len() != 9 || l[0] != 'c');
        }
    }
}

/// The message with which `tool` refuses a property name it does not know.
pub open spec fn unknown_property_message(tool: Tool, property: Seq<char>) -> Seq<char> {
    match tool {
        Tool::Etna => "Unknown property: "@ + property,
        _ => "Unknown property for "@ + tool_label(tool) + ": "@ + property,
    }
}

/// What `tool` reports for a property name it does not know: the refusal, at
/// no cost.
pub fn unknown_property(tool: Tool, property: &str) -> (o: Outcome)
    ensures
        o.0 matches Err(m) && m@ == unknown_property_message(tool, property@),
        o.1.inputs == 0,
        o.1.elapsed_us == 0,
{
    let mut m = String::new();
    match tool {
        Tool::Etna => push_text(&mut m, "Unknown property: "),
        Tool::Proptest => push_text(&mut m, "Unknown property for proptest: "),
        Tool::Quickcheck => push_text(&mut m, "Unknown property for quickcheck: "),
        Tool::Crabcheck => push_text(&mut m, "Unknown property for crabcheck: "),
        Tool::Hegel => push_text(&mut m, "Unknown property for hegel: "),
    }
    proof {
        reveal_strlit("Unknown property for ");
        reveal_strlit(": ");
        reveal_strlit("Unknown property for proptest: ");
        reveal_strlit("Unknown property for quickcheck: ");
        reveal_strlit("Unknown property for crabcheck: ");
        reveal_strlit("Unknown property for hegel: ");
        reveal_strlit("proptest");
        reveal_strlit("quickcheck");
        reveal_strlit("crabcheck");
        reveal_strlit("hegel");
    }
    let ghost head = m@;
    push_text(&mut m, property);
    assert(m@ == unknown_property_message(tool, property@)) by {
        if tool != Tool::Etna {
            assert(head =~= "Unknown property for "@ + tool_label(tool) + ": "@);
        }
    }
    (Err(m), Metrics::default())
}

/// What a run reports for a tool name it does not know: the refusal, at no
/// cost.
pub fn unknown_tool(tool: &str) -> (o: Outcome)
    ensures
        o.0 matches Err(m) && m@ == "Unknown tool: "@ + tool@,
        o.1.inputs == 0,
        o.1.elapsed_us == 0,
{
    let mut m = String::new();
    push_text(&mut m, "Unknown tool: ");
    push_text(&mut m, tool);
    (Err(m), Metrics::default())
}

/// The fixed-input check of a property that the `etna` tool runs: the
/// next-boundary property on `"abcdefgh"` at offset 4 with `next_cursor`, the
/// previous-boundary property on `"abcd"` at offset 2 with `prev_cursor` (both
/// in extended mode), and the word-bound property on `"Hello, world!"`, each
/// read as `to_err` reads it.
pub fn etna_check<FN, FP, FS>(p: PropertyName, next_cursor: FN, prev_cursor: FP, segment: FS) -> (r: Result<(), String>) where
    FN: Fn(CursorProbe) -> CursorOutcome,
    FP: Fn(CursorProbe) -> CursorOutcome,
    FS: Fn(String) -> WordBoundRun,

    requires
        forall|q: CursorProbe| next_cursor.requires((q,)),
        forall|q: CursorProbe| prev_cursor.requires((q,)),
        forall|t: String| segment.requires((t,)),
    ensures
        p == PropertyName::GraphemeNextBoundaryEmptyChunk ==> exists|q: CursorProbe, o: CursorOutcome|
            #[trigger] next_cursor.ensures((q,), o) && next_boundary_probe(q, "abcdefgh"@, 4, true)
                && result_view(r) == verdict_err(next_boundary_verdict(4, o)),
        p == PropertyName::GraphemePrevBoundaryChunkStart ==> exists|q: CursorProbe, o: CursorOutcome|
            #[trigger] prev_cursor.ensures((q,), o) && prev_boundary_probe(q, "abcd"@, 2, true)
                && result_view(r) == verdict_err(prev_boundary_verdict(2, o)),
        p == PropertyName::AsciiWordBoundIndicesMatch ==> exists|t: String, run: WordBoundRun|
            #[trigger] segment.ensures((t,), run) && t@ == "Hello, world!"@
                && result_view(r) == verdict_err(word_bound_verdict("Hello, world!"@, run)),
{
    match p {
        PropertyName::GraphemeNextBoundaryEmptyChunk => {
            let s = "abcdefgh".to_owned();
            proof {
                reveal_strlit("abcdefgh");
                assert(is_ascii_chars(s@));
                lemma_ascii_boundaries(s@);
            }
            to_err(property_grapheme_next_boundary_empty_chunk_no_panic(s, 4, true, next_cursor))
        },
        PropertyName::GraphemePrevBoundaryChunkStart => {
            let s = "abcd".to_owned();
            proof {
                reveal_strlit("abcd");
                assert(is_ascii_chars(s@));
                lemma_ascii_boundaries(s@);
            }
            to_err(property_grapheme_prev_boundary_chunk_start_no_panic(s, 2, true, prev_cursor))
        },
        PropertyName::AsciiWordBoundIndicesMatch => {
            let s = "Hello, world!".to_owned();
            proof {
                reveal_strlit("Hello, world!");
                assert(is_ascii_chars(s@));
            }
            to_err(property_ascii_word_bound_indices_match(s, segment))
        },
    }
}

} // verus!
