//! What the fixed-argument runners do with the integers their frameworks
//! generate: choose a text and an offset, run a property, and read its result.

use vstd::prelude::*;
use vstd::utf8::is_ascii_chars;
use crate::grapheme::{
    next_boundary_domain, next_boundary_probe, next_boundary_verdict, prev_boundary_domain,
    prev_boundary_probe, prev_boundary_verdict, property_grapheme_next_boundary_empty_chunk_no_panic,
    property_grapheme_prev_boundary_chunk_start_no_panic, CursorOutcome, CursorProbe,
};
use crate::inputs::{lemma_picked_text_short, pick_offset, pick_string, picked_offset, picked_text};
use crate::verdict::{to_opt, verdict_opt, PropertyResult, Verdict};
use crate::word::{property_ascii_word_bound_indices_match, word_bound_verdict, WordBoundRun};

verus! {

/// The text chosen for a string tag.
pub open spec fn tag_text(tag: u8) -> Seq<char> {
    picked_text(tag as int % 9)
}

/// The offset chosen for an offset tag in the text chosen for a string tag.
pub open spec fn tag_offset(s_tag: u8, off_tag: u8) -> int {
    picked_offset(tag_text(s_tag), off_tag)
}

/// The low byte of a wide tag, as `as u8` takes it.
pub open spec fn low_byte(t: usize) -> u8 {
    (t % 256) as u8
}

fn low_byte_of(t: usize) -> (b: u8)
    ensures
        b == low_byte(t),
{
    (t % 256) as u8
}

/// Whether the lowest bit of a flag is set.
pub fn flag_set(flag: usize) -> (b: bool)
    ensures
        b == (flag % 2 == 1),
{
    let low: usize = flag & 1;
    assert(flag & 1 == flag % 2) by (bit_vector);
    low == 1
}

/// The next-boundary property on the text and offset chosen by two tags.
pub fn next_boundary_from_tags<F>(s_tag: u8, off_tag: u8, is_extended: bool, cursor: F) -> (r: PropertyResult) where
    F: Fn(CursorProbe) -> CursorOutcome,

    requires
        forall|p: CursorProbe| cursor.requires((p,)),
    ensures
        !next_boundary_domain(tag_text(s_tag), tag_offset(s_tag, off_tag)) ==> r@ == Verdict::Discard,
        next_boundary_domain(tag_text(s_tag), tag_offset(s_tag, off_tag)) ==> exists|p: CursorProbe, o: CursorOutcome|
            #[trigger] cursor.ensures((p,), o)
                && next_boundary_probe(p, tag_text(s_tag), tag_offset(s_tag, off_tag) as usize, is_extended)
                && r@ == next_boundary_verdict(tag_offset(s_tag, off_tag) as usize, o),
{
    let s = pick_string(s_tag);
    proof {
        lemma_picked_text_short(s_tag as int % 9);
    }
    let off = pick_offset(s.as_str(), off_tag);
    property_grapheme_next_boundary_empty_chunk_no_panic(s, off, is_extended, cursor)
}

/// The previous-boundary property on the text and offset chosen by two tags.
pub fn prev_boundary_from_tags<F>(s_tag: u8, off_tag: u8, is_extended: bool, cursor: F) -> (r: PropertyResult) where
    F: Fn(CursorProbe) -> CursorOutcome,

    requires
        forall|p: CursorProbe| cursor.requires((p,)),
    ensures
        !prev_boundary_domain(tag_text(s_tag), tag_offset(s_tag, off_tag)) ==> r@ == Verdict::Discard,
        prev_boundary_domain(tag_text(s_tag), tag_offset(s_tag, off_tag)) ==> exists|p: CursorProbe, o: CursorOutcome|
            #[trigger] cursor.ensures((p,), o)
                && prev_boundary_probe(p, tag_text(s_tag), tag_offset(s_tag, off_tag) as usize, is_extended)
                && r@ == prev_boundary_verdict(tag_offset(s_tag, off_tag) as usize, o),
{
    let s = pick_string(s_tag);
    proof {
        lemma_picked_text_short(s_tag as int % 9);
    }
    let off = pick_offset(s.as_str(), off_tag);
    property_grapheme_prev_boundary_chunk_start_no_panic(s, off, is_extended, cursor)
}

/// The next-boundary case of the crabcheck runner: the text, offset and
/// extended flag come from the low bytes of two tags and the low bit of a
/// flag, and the result is read as `to_opt` reads it.
pub fn cc_grapheme_next_boundary_empty_chunk<F>(tags: (usize, usize, usize), cursor: F) -> (r: Option<bool>) where
    F: Fn(CursorProbe) -> CursorOutcome,

    requires
        forall|p: CursorProbe| cursor.requires((p,)),
    ensures
        ({
            let (s_tag, off_tag) = (low_byte(tags.0), low_byte(tags.1));
            &&& !next_boundary_domain(tag_text(s_tag), tag_offset(s_tag, off_tag)) ==> r is None
            &&& next_boundary_domain(tag_text(s_tag), tag_offset(s_tag, off_tag)) ==> exists|p: CursorProbe, o: CursorOutcome|
                #[trigger] cursor.ensures((p,), o)
                    && next_boundary_probe(p, tag_text(s_tag), tag_offset(s_tag, off_tag) as usize, tags.2 % 2 == 1)
                    && r == verdict_opt(next_boundary_verdict(tag_offset(s_tag, off_tag) as usize, o))
        }),
{
    let (s_tag, off_tag, flag) = tags;
    let ext = flag_set(flag);
    let res = next_boundary_from_tags(low_byte_of(s_tag), low_byte_of(off_tag), ext, cursor);
    to_opt(res)
}

/// The previous-boundary case of the crabcheck runner, read as the
/// next-boundary case is.
pub fn cc_grapheme_prev_boundary_chunk_start<F>(tags: (usize, usize, usize), cursor: F) -> (r: Option<bool>) where
    F: Fn(CursorProbe) -> CursorOutcome,

    requires
        forall|p: CursorProbe| cursor.requires((p,)),
    ensures
        ({
            let (s_tag, off_tag) = (low_byte(tags.0), low_byte(tags.1));
            &&& !prev_boundary_domain(tag_text(s_tag), tag_offset(s_tag, off_tag)) ==> r is None
            &&& prev_boundary_domain(tag_text(s_tag), tag_offset(s_tag, off_tag)) ==> exists|p: CursorProbe, o: CursorOutcome|
                #[trigger] cursor.ensures((p,), o)
                    && prev_boundary_probe(p, tag_text(s_tag), tag_offset(s_tag, off_tag) as usize, tags.2 % 2 == 1)
                    && r == verdict_opt(prev_boundary_verdict(tag_offset(s_tag, off_tag) as usize, o))
        }),
{
    let (s_tag, off_tag, flag) = tags;
    let ext = flag_set(flag);
    let res = prev_boundary_from_tags(low_byte_of(s_tag), low_byte_of(off_tag), ext, cursor);
    to_opt(res)
}

/// The word-bound case of the crabcheck runner: the text chosen by the low
/// byte of `tag`; `None` where it is not ASCII, else the property's result as
/// `to_opt` reads it.
pub fn cc_ascii_word_bound_indices_match<F>(tag: usize, segment: F) -> (r: Option<bool>) where
    F: Fn(String) -> WordBoundRun,

    requires
        forall|t: String| segment.requires((t,)),
    ensures
        !is_ascii_chars(tag_text(low_byte(tag))) ==> r is None,
        is_ascii_chars(tag_text(low_byte(tag))) ==> exists|t: String, run: WordBoundRun|
            #[trigger] segment.ensures((t,), run) && t@ == tag_text(low_byte(tag))
                && r == verdict_opt(word_bound_verdict(tag_text(low_byte(tag)), run)),
{
    let s = pick_string(low_byte_of(tag));
    if !s.as_str().is_ascii() {
        return None;
    }
    to_opt(property_ascii_word_bound_indices_match(s, segment))
}

} // verus!
