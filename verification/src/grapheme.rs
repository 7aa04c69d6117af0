//! The two grapheme-cursor properties: the cursor, handed a chunk that begins
//! exactly at its own offset, must ask for another chunk and must not panic.
//!
//! The cursor itself is the code under test and is not part of this crate: each
//! property prepares the call (or discards the input), hands it to the caller's
//! `cursor` function, and judges what came back.

use vstd::prelude::*;
use vstd::utf8::{encode_utf8, is_char_boundary};
use crate::panic_payload::{downcast_panic, panic_message, PanicPayload};
use crate::render::{decimal, push_decimal, push_text};
use crate::verdict::{
    contains_text, ends_with, lemma_contains_end, lemma_contains_middle, lemma_ends_with_concat, PropertyResult,
    Verdict,
};

verus! {

/// Why a cursor could not answer from the chunk it was given.
#[derive(Debug, Clone, Copy, PartialEq, Eq, Structural)]
pub enum GraphemeIncomplete {
    /// It needs the text before the given byte offset.
    PreContext(usize),
    /// It needs the chunk before the one it was given.
    PrevChunk,
    /// It needs the chunk after the one it was given.
    NextChunk,
    /// The offset is not valid for the text.
    InvalidOffset,
}

/// How `{:?}` writes an `GraphemeIncomplete`.
pub open spec fn incomplete_debug(e: GraphemeIncomplete) -> Seq<char> {
    match e {
        GraphemeIncomplete::PreContext(n) => "PreContext("@ + decimal(n as nat) + ")"@,
        GraphemeIncomplete::PrevChunk => "PrevChunk"@,
        GraphemeIncomplete::NextChunk => "NextChunk"@,
        GraphemeIncomplete::InvalidOffset => "InvalidOffset"@,
    }
}

fn push_incomplete_debug(out: &mut String, e: &GraphemeIncomplete)
    ensures
        final(out)@ == old(out)@ + incomplete_debug(*e),
{
    match e {
        GraphemeIncomplete::PreContext(n) => {
            let ghost before = out@;
            push_text(out, "PreContext(");
            push_decimal(out, *n as u128);
            push_text(out, ")");
            assert(out@ =~= before + incomplete_debug(*e));
        },
        GraphemeIncomplete::PrevChunk => push_text(out, "PrevChunk"),
        GraphemeIncomplete::NextChunk => push_text(out, "NextChunk"),
        GraphemeIncomplete::InvalidOffset => push_text(out, "InvalidOffset"),
    }
}

/// One call of the cursor: a cursor made with `new(offset, len, is_extended)`
/// is asked for a boundary with `chunk`, which starts at byte `chunk_start`.
#[derive(Debug)]
pub struct CursorProbe {
    pub offset: usize,
    pub len: usize,
    pub is_extended: bool,
    pub chunk: String,
    pub chunk_start: usize,
}

/// What one call of the cursor came to.
#[derive(Debug)]
pub enum CursorOutcome {
    /// The call returned `Ok` with this boundary, if any.
    Boundary(Option<usize>),
    /// The call returned this error.
    Incomplete(GraphemeIncomplete),
    /// The call panicked.
    Panicked(PanicPayload),
}

/// The UTF-8 bytes of a text.
pub open spec fn utf8(s: Seq<char>) -> Seq<u8> {
    encode_utf8(s)
}

/// The inputs on which the next-boundary property says something: an offset
/// strictly inside the text, on a character boundary.
pub open spec fn next_boundary_domain(s: Seq<char>, offset: int) -> bool {
    &&& 0 < offset < utf8(s).len()
    &&& is_char_boundary(utf8(s), offset)
}

/// The call the next-boundary property makes: the cursor stands at `offset` of
/// the whole text and is given the empty chunk that starts there.
pub open spec fn next_boundary_probe(p: CursorProbe, s: Seq<char>, offset: usize, is_extended: bool) -> bool {
    &&& p.offset == offset
    &&& p.len == utf8(s).len()
    &&& p.is_extended == is_extended
    &&& p.chunk@ == Seq::<char>::empty()
    &&& p.chunk_start == offset
}

/// The verdict on what the cursor did with an empty chunk at `offset`: asking
/// for the next chunk passes; returning, any other error, or a panic fails.
pub open spec fn next_boundary_verdict(offset: usize, o: CursorOutcome) -> Verdict {
    match o {
        CursorOutcome::Boundary(_) => Verdict::Fail(
            "next_boundary returned Ok on empty suffix chunk at offset="@ + decimal(offset as nat)
                + " (expected NextChunk)"@,
        ),
        CursorOutcome::Incomplete(GraphemeIncomplete::NextChunk) => Verdict::Pass,
        CursorOutcome::Incomplete(e) => Verdict::Fail(
            "next_boundary returned unexpected error "@ + incomplete_debug(e)
                + " on empty suffix chunk at offset="@ + decimal(offset as nat),
        ),
        CursorOutcome::Panicked(p) => Verdict::Fail(
            "next_boundary panicked on empty suffix chunk at offset="@ + decimal(offset as nat)
                + ": "@ + panic_message(p),
        ),
    }
}

/// Judges what the cursor did with an empty chunk at `offset`.
pub fn judge_next_boundary(offset: usize, outcome: CursorOutcome) -> (r: PropertyResult)
    ensures
        r@ == next_boundary_verdict(offset, outcome),
{
    match outcome {
        CursorOutcome::Incomplete(GraphemeIncomplete::NextChunk) => PropertyResult::Pass,
        CursorOutcome::Boundary(_) => {
            let mut m = String::new();
            push_text(&mut m, "next_boundary returned Ok on empty suffix chunk at offset=");
            push_decimal(&mut m, offset as u128);
            push_text(&mut m, " (expected NextChunk)");
            PropertyResult::Fail(m)
        },
        CursorOutcome::Incomplete(e) => {
            let mut m = String::new();
            push_text(&mut m, "next_boundary returned unexpected error ");
            push_incomplete_debug(&mut m, &e);
            push_text(&mut m, " on empty suffix chunk at offset=");
            push_decimal(&mut m, offset as u128);
            PropertyResult::Fail(m)
        },
        CursorOutcome::Panicked(p) => {
            let msg = downcast_panic(&p);
            let mut m = String::new();
            push_text(&mut m, "next_boundary panicked on empty suffix chunk at offset=");
            push_decimal(&mut m, offset as u128);
            push_text(&mut m, ": ");
            push_text(&mut m, msg.as_str());
            PropertyResult::Fail(m)
        },
    }
}

/// `next_boundary` must never panic when handed a well-formed `(chunk,
/// chunk_start)` pair whose chunk is empty at the cursor's own offset: it must
/// ask for the next chunk. Inputs whose offset is not strictly inside `s` on a
/// character boundary are discarded without a call; otherwise `cursor` is
/// called once, with the cursor standing at `offset` of `s` and the empty chunk
/// that starts there, and its outcome is judged.
pub fn property_grapheme_next_boundary_empty_chunk_no_panic<F>(
    s: String,
    offset: usize,
    is_extended: bool,
    cursor: F,
) -> (r: PropertyResult) where F: Fn(CursorProbe) -> CursorOutcome
    requires
        utf8(s@).len() <= usize::MAX,
        forall|p: CursorProbe| cursor.requires((p,)),
    ensures
        !next_boundary_domain(s@, offset as int) ==> r@ == Verdict::Discard,
        next_boundary_domain(s@, offset as int) ==> exists|p: CursorProbe, o: CursorOutcome|
            #[trigger] cursor.ensures((p,), o) && next_boundary_probe(p, s@, offset, is_extended)
                && r@ == next_boundary_verdict(offset, o),
        next_boundary_result(cursor, s@, offset, is_extended, r@),
{
    let text = s.as_str();
    let len: usize = text.len();
    if offset == 0 || offset >= len {
        return PropertyResult::Discard;
    }
    if !text.is_char_boundary(offset) {
        return PropertyResult::Discard;
    }
    let probe = CursorProbe {
        offset,
        len,
        is_extended,
        chunk: String::new(),
        chunk_start: offset,
    };
    let ghost p = probe;
    let outcome = cursor(probe);
    let ghost o = outcome;
    let r = judge_next_boundary(offset, outcome);
    assert(cursor.ensures((p,), o) && next_boundary_probe(p, s@, offset, is_extended));
    r
}

/// The inputs on which the previous-boundary property says something: an
/// offset inside the text or at its end, on a character boundary.
pub open spec fn prev_boundary_domain(s: Seq<char>, offset: int) -> bool {
    &&& 0 < offset <= utf8(s).len()
    &&& is_char_boundary(utf8(s), offset)
}

/// The call the previous-boundary property makes: the cursor stands at
/// `offset` of the whole text and is given the rest of the text, which starts
/// there.
pub open spec fn prev_boundary_probe(p: CursorProbe, s: Seq<char>, offset: usize, is_extended: bool) -> bool {
    &&& p.offset == offset
    &&& p.len == utf8(s).len()
    &&& p.is_extended == is_extended
    &&& utf8(p.chunk@) == utf8(s).subrange(offset as int, utf8(s).len() as int)
    &&& p.chunk_start == offset
}

/// The verdict on what the cursor did when asked for the boundary before a
/// chunk that starts at its own offset: asking for the previous chunk passes;
/// returning, any other error, or a panic fails.
pub open spec fn prev_boundary_verdict(offset: usize, o: CursorOutcome) -> Verdict {
    match o {
        CursorOutcome::Boundary(_) => Verdict::Fail(
            "prev_boundary returned Ok on offset==chunk_start at offset="@ + decimal(offset as nat)
                + " (expected PrevChunk)"@,
        ),
        CursorOutcome::Incomplete(GraphemeIncomplete::PrevChunk) => Verdict::Pass,
        CursorOutcome::Incomplete(e) => Verdict::Fail(
            "prev_boundary returned unexpected error "@ + incomplete_debug(e)
                + " on offset==chunk_start at offset="@ + decimal(offset as nat),
        ),
        CursorOutcome::Panicked(p) => Verdict::Fail(
            "prev_boundary panicked on offset==chunk_start at offset="@ + decimal(offset as nat)
                + ": "@ + panic_message(p),
        ),
    }
}

/// Judges what the cursor did when asked for the boundary before a chunk that
/// starts at its own offset `offset`.
pub fn judge_prev_boundary(offset: usize, outcome: CursorOutcome) -> (r: PropertyResult)
    ensures
        r@ == prev_boundary_verdict(offset, outcome),
{
    match outcome {
        CursorOutcome::Incomplete(GraphemeIncomplete::PrevChunk) => PropertyResult::Pass,
        CursorOutcome::Boundary(_) => {
            let mut m = String::new();
            push_text(&mut m, "prev_boundary returned Ok on offset==chunk_start at offset=");
            push_decimal(&mut m, offset as u128);
            push_text(&mut m, " (expected PrevChunk)");
            PropertyResult::Fail(m)
        },
        CursorOutcome::Incomplete(e) => {
            let mut m = String::new();
            push_text(&mut m, "prev_boundary returned unexpected error ");
            push_incomplete_debug(&mut m, &e);
            push_text(&mut m, " on offset==chunk_start at offset=");
            push_decimal(&mut m, offset as u128);
            PropertyResult::Fail(m)
        },
        CursorOutcome::Panicked(p) => {
            let msg = downcast_panic(&p);
            let mut m = String::new();
            push_text(&mut m, "prev_boundary panicked on offset==chunk_start at offset=");
            push_decimal(&mut m, offset as u128);
            push_text(&mut m, ": ");
            push_text(&mut m, msg.as_str());
            PropertyResult::Fail(m)
        },
    }
}

/// `prev_boundary` must never panic when the chunk it is handed starts exactly
/// at the cursor's offset: it must ask for the previous chunk. Inputs whose
/// offset is not in `1..=len` on a character boundary are discarded without a
/// call; otherwise `cursor` is called once, with the cursor standing at
/// `offset` of `s` and the suffix of `s` that starts there as the chunk, and
/// its outcome is judged.
pub fn property_grapheme_prev_boundary_chunk_start_no_panic<F>(
    s: String,
    offset: usize,
    is_extended: bool,
    cursor: F,
) -> (r: PropertyResult) where F: Fn(CursorProbe) -> CursorOutcome
    requires
        utf8(s@).len() <= usize::MAX,
        forall|p: CursorProbe| cursor.requires((p,)),
    ensures
        !prev_boundary_domain(s@, offset as int) ==> r@ == Verdict::Discard,
        prev_boundary_domain(s@, offset as int) ==> exists|p: CursorProbe, o: CursorOutcome|
            #[trigger] cursor.ensures((p,), o) && prev_boundary_probe(p, s@, offset, is_extended)
                && r@ == prev_boundary_verdict(offset, o),
        prev_boundary_result(cursor, s@, offset, is_extended, r@),
{
    let text = s.as_str();
    let len: usize = text.len();
    if offset == 0 || offset > len {
        return PropertyResult::Discard;
    }
    if !text.is_char_boundary(offset) {
        return PropertyResult::Discard;
    }
    let (_, suffix) = text.split_at(offset);
    let probe = CursorProbe {
        offset,
        len,
        is_extended,
        chunk: suffix.to_owned(),
        chunk_start: offset,
    };
    let ghost p = probe;
    let outcome = cursor(probe);
    let ghost o = outcome;
    let r = judge_prev_boundary(offset, outcome);
    assert(cursor.ensures((p,), o) && prev_boundary_probe(p, s@, offset, is_extended));
    r
}

/// Two calls ask the cursor the same thing: the same cursor and the same
/// chunk, byte for byte, at the same place.
pub open spec fn same_request(p1: CursorProbe, p2: CursorProbe) -> bool {
    &&& p1.offset == p2.offset
    &&& p1.len == p2.len
    &&& p1.is_extended == p2.is_extended
    &&& utf8(p1.chunk@) == utf8(p2.chunk@)
    &&& p1.chunk_start == p2.chunk_start
}

/// The cursor answers the same request alike every time it is asked.
pub open spec fn answers_alike<F: Fn(CursorProbe) -> CursorOutcome>(cursor: F) -> bool {
    forall|p1: CursorProbe, p2: CursorProbe, o1: CursorOutcome, o2: CursorOutcome|
        #[trigger] cursor.ensures((p1,), o1) && #[trigger] cursor.ensures((p2,), o2) && same_request(p1, p2)
            ==> o1 == o2
}

/// The verdicts that the next-boundary property may give on `s`, `offset` and
/// `is_extended` with `cursor`: a discard off its domain, else the verdict on
/// what the cursor answered to the one call the property makes.
pub open spec fn next_boundary_result<F: Fn(CursorProbe) -> CursorOutcome>(
    cursor: F,
    s: Seq<char>,
    offset: usize,
    is_extended: bool,
    v: Verdict,
) -> bool {
    if !next_boundary_domain(s, offset as int) {
        v == Verdict::Discard
    } else {
        exists|p: CursorProbe, o: CursorOutcome|
            #[trigger] cursor.ensures((p,), o) && next_boundary_probe(p, s, offset, is_extended)
                && v == next_boundary_verdict(offset, o)
    }
}

/// The verdicts that the previous-boundary property may give, as
/// `next_boundary_result` says of the next-boundary property.
pub open spec fn prev_boundary_result<F: Fn(CursorProbe) -> CursorOutcome>(
    cursor: F,
    s: Seq<char>,
    offset: usize,
    is_extended: bool,
    v: Verdict,
) -> bool {
    if !prev_boundary_domain(s, offset as int) {
        v == Verdict::Discard
    } else {
        exists|p: CursorProbe, o: CursorOutcome|
            #[trigger] cursor.ensures((p,), o) && prev_boundary_probe(p, s, offset, is_extended)
                && v == prev_boundary_verdict(offset, o)
    }
}

/// Law: with a cursor that answers the same request alike, the next-boundary
/// property is a function of its inputs: two calls on the same text, offset
/// and flag give the same verdict, message included.
pub proof fn lemma_next_boundary_deterministic<F: Fn(CursorProbe) -> CursorOutcome>(
    cursor: F,
    s: Seq<char>,
    offset: usize,
    is_extended: bool,
    v1: Verdict,
    v2: Verdict,
)
    requires
        answers_alike(cursor),
        next_boundary_result(cursor, s, offset, is_extended, v1),
        next_boundary_result(cursor, s, offset, is_extended, v2),
    ensures
        v1 == v2,
{
    if next_boundary_domain(s, offset as int) {
        let (p1, o1) = choose|p: CursorProbe, o: CursorOutcome|
            #[trigger] cursor.ensures((p,), o) && next_boundary_probe(p, s, offset, is_extended)
                && v1 == next_boundary_verdict(offset, o);
        let (p2, o2) = choose|p: CursorProbe, o: CursorOutcome|
            #[trigger] cursor.ensures((p,), o) && next_boundary_probe(p, s, offset, is_extended)
                && v2 == next_boundary_verdict(offset, o);
        assert(same_request(p1, p2));
        assert(o1 == o2);
    }
}

/// Law: with a cursor that answers the same request alike, the
/// previous-boundary property is a function of its inputs.
pub proof fn lemma_prev_boundary_deterministic<F: Fn(CursorProbe) -> CursorOutcome>(
    cursor: F,
    s: Seq<char>,
    offset: usize,
    is_extended: bool,
    v1: Verdict,
    v2: Verdict,
)
    requires
        answers_alike(cursor),
        prev_boundary_result(cursor, s, offset, is_extended, v1),
        prev_boundary_result(cursor, s, offset, is_extended, v2),
    ensures
        v1 == v2,
{
    if prev_boundary_domain(s, offset as int) {
        let (p1, o1) = choose|p: CursorProbe, o: CursorOutcome|
            #[trigger] cursor.ensures((p,), o) && prev_boundary_probe(p, s, offset, is_extended)
                && v1 == prev_boundary_verdict(offset, o);
        let (p2, o2) = choose|p: CursorProbe, o: CursorOutcome|
            #[trigger] cursor.ensures((p,), o) && prev_boundary_probe(p, s, offset, is_extended)
                && v2 == prev_boundary_verdict(offset, o);
        assert(same_request(p1, p2));
        assert(o1 == o2);
    }
}

/// Law: the next-boundary verdict on a call that was made passes exactly when
/// the cursor asked for the next chunk. Every other outcome, any panic
/// whatever its payload included, fails and is never discarded, and the
/// failure of a panic ends with the panic's text.
pub proof fn lemma_next_boundary_verdict_passes_only_on_next_chunk(offset: usize, o: CursorOutcome)
    ensures
        (next_boundary_verdict(offset, o) == Verdict::Pass) <==> (o == CursorOutcome::Incomplete(
            GraphemeIncomplete::NextChunk,
        )),
        next_boundary_verdict(offset, o) !is Discard,
        o is Panicked ==> next_boundary_verdict(offset, o) is Fail,
        o matches CursorOutcome::Panicked(p) ==> (next_boundary_verdict(offset, o) matches Verdict::Fail(m)
            && ends_with(m, panic_message(p))),
{
    if let CursorOutcome::Panicked(p) = o {
        lemma_ends_with_concat(
            "next_boundary panicked on empty suffix chunk at offset="@ + decimal(offset as nat) + ": "@,
            panic_message(p),
        );
    }
}

/// Law: the previous-boundary verdict on a call that was made passes exactly
/// when the cursor asked for the previous chunk. Every other outcome, any
/// panic whatever its payload included, fails and is never discarded, and the
/// failure of a panic ends with the panic's text.
pub proof fn lemma_prev_boundary_verdict_passes_only_on_prev_chunk(offset: usize, o: CursorOutcome)
    ensures
        (prev_boundary_verdict(offset, o) == Verdict::Pass) <==> (o == CursorOutcome::Incomplete(
            GraphemeIncomplete::PrevChunk,
        )),
        prev_boundary_verdict(offset, o) !is Discard,
        o is Panicked ==> prev_boundary_verdict(offset, o) is Fail,
        o matches CursorOutcome::Panicked(p) ==> (prev_boundary_verdict(offset, o) matches Verdict::Fail(m)
            && ends_with(m, panic_message(p))),
{
    if let CursorOutcome::Panicked(p) = o {
        lemma_ends_with_concat(
            "prev_boundary panicked on offset==chunk_start at offset="@ + decimal(offset as nat) + ": "@,
            panic_message(p),
        );
    }
}

/// Law: every failure of the next-boundary property names the offset it was
/// checked at.
pub proof fn lemma_next_boundary_failure_names_offset(offset: usize, o: CursorOutcome)
    ensures
        next_boundary_verdict(offset, o) matches Verdict::Fail(m) ==> contains_text(m, decimal(offset as nat)),
{
    let d = decimal(offset as nat);
    match o {
        CursorOutcome::Boundary(_) => {
            lemma_contains_middle(
                "next_boundary returned Ok on empty suffix chunk at offset="@,
                d,
                " (expected NextChunk)"@,
            );
        },
        CursorOutcome::Incomplete(GraphemeIncomplete::NextChunk) => {},
        CursorOutcome::Incomplete(e) => {
            lemma_contains_end(
                "next_boundary returned unexpected error "@ + incomplete_debug(e)
                    + " on empty suffix chunk at offset="@,
                d,
            );
        },
        CursorOutcome::Panicked(p) => {
            lemma_contains_middle(
                "next_boundary panicked on empty suffix chunk at offset="@,
                d,
                ": "@ + panic_message(p),
            );
            assert("next_boundary panicked on empty suffix chunk at offset="@ + d + (": "@ + panic_message(p))
                =~= "next_boundary panicked on empty suffix chunk at offset="@ + d + ": "@ + panic_message(p));
        },
    }
}

/// Law: every failure of the previous-boundary property names the offset it
/// was checked at.
pub proof fn lemma_prev_boundary_failure_names_offset(offset: usize, o: CursorOutcome)
    ensures
        prev_boundary_verdict(offset, o) matches Verdict::Fail(m) ==> contains_text(m, decimal(offset as nat)),
{
    let d = decimal(offset as nat);
    match o {
        CursorOutcome::Boundary(_) => {
            lemma_contains_middle(
                "prev_boundary returned Ok on offset==chunk_start at offset="@,
                d,
                " (expected PrevChunk)"@,
            );
        },
        CursorOutcome::Incomplete(GraphemeIncomplete::PrevChunk) => {},
        CursorOutcome::Incomplete(e) => {
            lemma_contains_end(
                "prev_boundary returned unexpected error "@ + incomplete_debug(e)
                    + " on offset==chunk_start at offset="@,
                d,
            );
        },
        CursorOutcome::Panicked(p) => {
            lemma_contains_middle(
                "prev_boundary panicked on offset==chunk_start at offset="@,
                d,
                ": "@ + panic_message(p),
            );
            assert("prev_boundary panicked on offset==chunk_start at offset="@ + d + (": "@ + panic_message(p))
                =~= "prev_boundary panicked on offset==chunk_start at offset="@ + d + ": "@ + panic_message(p));
        },
    }
}

} // verus!
