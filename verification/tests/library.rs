//! Concrete checks of the library's functions, one or more per contract.

use std::cell::Cell;

use segmentation_etna::frameworks::{fold_to_ascii, hegel_outcome, status_result, strip_prefix, RunStatus};
use segmentation_etna::grapheme::{judge_next_boundary, judge_prev_boundary};
use segmentation_etna::metrics::{etna_outcome, run_all, Metrics, Outcome};
use segmentation_etna::render::{json_str, push_decimal};
use segmentation_etna::report::{final_report, report_line};
use segmentation_etna::runners::{
    cc_ascii_word_bound_indices_match, cc_grapheme_next_boundary_empty_chunk,
    cc_grapheme_prev_boundary_chunk_start, flag_set, next_boundary_from_tags, prev_boundary_from_tags,
};
use segmentation_etna::textgen::{
    apply_mutation, bytes_as_chars, chars_to_text, mutate_any_text, mutate_ascii_text, plan_mutation,
    text_chars, text_from_utf8_or_empty, Mutation, ANY_TEXT_MAX_CHARS, ASCII_TEXT_MAX_BYTES,
};
use segmentation_etna::word::judge_word_bounds;
use segmentation_etna::workload::{
    etna_check, parse_property, parse_tool, unknown_property, unknown_tool, PropertyName, PropertyRequest,
    Tool,
};
use segmentation_etna::panic_payload::panic_text;
use segmentation_etna::{
    downcast_panic, pick_offset, pick_string, property_ascii_word_bound_indices_match,
    property_grapheme_next_boundary_empty_chunk_no_panic,
    property_grapheme_prev_boundary_chunk_start_no_panic, to_err, to_opt, CursorOutcome, CursorProbe,
    GraphemeIncomplete, PanicPayload, PropertyResult, Segment, WordBoundRun,
};

fn next_chunk(_: CursorProbe) -> CursorOutcome {
    CursorOutcome::Incomplete(GraphemeIncomplete::NextChunk)
}

fn prev_chunk(_: CursorProbe) -> CursorOutcome {
    CursorOutcome::Incomplete(GraphemeIncomplete::PrevChunk)
}

fn never_called(_: CursorProbe) -> CursorOutcome {
    panic!("the cursor must not be called on a discarded input")
}

fn seg(start: usize, text: &str) -> Segment {
    Segment { start, text: text.to_string() }
}

fn pairs(v: &[Segment]) -> Vec<(usize, &str)> {
    v.iter().map(|s| (s.start, s.text.as_str())).collect()
}

fn same_words(s: String) -> WordBoundRun {
    WordBoundRun::Completed { fast: vec![seg(0, &s)], uni: vec![seg(0, &s)] }
}

fn copy(v: &[Segment]) -> Vec<Segment> {
    v.iter().map(|s| seg(s.start, &s.text)).collect()
}

fn fail_text(r: PropertyResult) -> String {
    match r {
        PropertyResult::Fail(m) => m,
        other => panic!("expected a failure, got {:?}", other),
    }
}

#[test]
fn to_opt_reads_every_result() {
    assert_eq!(to_opt(PropertyResult::Pass), Some(true));
    assert_eq!(to_opt(PropertyResult::Fail("x".to_string())), Some(false));
    assert_eq!(to_opt(PropertyResult::Discard), None);
}

#[test]
fn to_err_reads_every_result() {
    assert_eq!(to_err(PropertyResult::Pass), Ok(()));
    assert_eq!(to_err(PropertyResult::Discard), Ok(()));
    assert_eq!(to_err(PropertyResult::Fail("broken".to_string())), Err("broken".to_string()));
}

#[test]
fn readings_agree_on_every_result() {
    for r in [PropertyResult::Pass, PropertyResult::Fail("m".to_string()), PropertyResult::Discard] {
        let o = to_opt(r.clone_for_test());
        let e = to_err(r);
        assert_eq!(e.is_err(), o == Some(false));
    }
}

trait CloneForTest {
    fn clone_for_test(&self) -> Self;
}

impl CloneForTest for PropertyResult {
    fn clone_for_test(&self) -> Self {
        match self {
            PropertyResult::Pass => PropertyResult::Pass,
            PropertyResult::Fail(m) => PropertyResult::Fail(m.clone()),
            PropertyResult::Discard => PropertyResult::Discard,
        }
    }
}

#[test]
fn pick_offset_on_empty_text_is_zero() {
    assert_eq!(pick_offset("", 0), 0);
    assert_eq!(pick_offset("", 200), 0);
}

#[test]
fn pick_offset_takes_the_boundary_at_or_below_the_reduced_tag() {
    // Four bytes: the tag is reduced modulo five.
    assert_eq!(pick_offset("abcd", 1), 1);
    assert_eq!(pick_offset("abcd", 2), 2);
    assert_eq!(pick_offset("abcd", 3), 3);
    assert_eq!(pick_offset("abcd", 7), 2);
}

#[test]
fn pick_offset_moves_off_the_ends_to_an_interior_boundary() {
    // Zero moves up to the first interior boundary, the length down to the last.
    assert_eq!(pick_offset("abcd", 0), 1);
    assert_eq!(pick_offset("abcd", 5), 1);
    assert_eq!(pick_offset("abcd", 10), 1);
    assert_eq!(pick_offset("abcd", 4), 3);
    assert_eq!(pick_offset("abcd", 9), 3);
    assert_eq!(pick_offset("ab", 200), 1);
}

#[test]
fn pick_offset_is_zero_without_an_interior_boundary() {
    assert_eq!(pick_offset("a", 0), 0);
    assert_eq!(pick_offset("a", 77), 0);
    assert_eq!(pick_offset("é", 0), 0);
    assert_eq!(pick_offset("é", 1), 0);
    assert_eq!(pick_offset("é", 2), 0);
    assert_eq!(pick_offset("\u{1F600}", 5), 0);
}

#[test]
fn pick_offset_moves_down_to_a_character_boundary() {
    // "héllo": h at 0, é at 1..3, then l, l, o; six bytes; the tag modulo seven.
    assert_eq!(pick_offset("héllo", 0), 1);
    assert_eq!(pick_offset("héllo", 1), 1);
    assert_eq!(pick_offset("héllo", 2), 1);
    assert_eq!(pick_offset("héllo", 3), 3);
    assert_eq!(pick_offset("héllo", 13), 5);
    assert_eq!(pick_offset("héllo", 255), 3);
    // "éa": é at 0..2, then a; from 1 the offset falls to 0 and moves up to 2.
    assert_eq!(pick_offset("éa", 0), 2);
    assert_eq!(pick_offset("éa", 1), 2);
    assert_eq!(pick_offset("éa", 2), 2);
    assert_eq!(pick_offset("éa", 3), 2);
}

#[test]
fn picked_offsets_are_char_boundaries() {
    for s in ["", "a", "héllo", "€uro", "日本語", "a\u{1F600}b"] {
        for tag in 0..=255u8 {
            let off = pick_offset(s, tag);
            assert!(off <= s.len());
            assert!(s.is_char_boundary(off));
            let interior = (1..s.len()).any(|k| s.is_char_boundary(k));
            if !s.is_empty() {
                let mut below = (tag as usize) % (s.len() + 1);
                while !s.is_char_boundary(below) {
                    below -= 1;
                }
                if 0 < below && below < s.len() {
                    assert_eq!(off, below);
                }
            }
            if interior {
                assert!(1 <= off && off < s.len());
            } else {
                assert_eq!(off, 0);
            }
        }
    }
}

#[test]
fn pick_string_chooses_by_tag_modulo_nine() {
    let expected = ["", "a", "ab", "abcd", "abcdefgh", "héllo", "Hello, world!", "can't", "127.0.0.1:9090"];
    for (k, e) in expected.iter().enumerate() {
        assert_eq!(pick_string(k as u8), *e);
        assert_eq!(pick_string(k as u8 + 9), *e);
    }
    assert_eq!(pick_string(255), "abcd");
}

fn decimal(n: u128) -> String {
    let mut s = String::from("n=");
    push_decimal(&mut s, n);
    s
}

#[test]
fn push_decimal_writes_numerals() {
    assert_eq!(decimal(0), "n=0");
    assert_eq!(decimal(7), "n=7");
    assert_eq!(decimal(10), "n=10");
    assert_eq!(decimal(1234567890), "n=1234567890");
    assert_eq!(decimal(u128::MAX), format!("n={}", u128::MAX));
}

#[test]
fn json_str_escapes_quotes_backslashes_and_controls() {
    assert_eq!(json_str(""), "\"\"");
    assert_eq!(json_str("plain"), "\"plain\"");
    assert_eq!(
        json_str("a\"b\\c\nd\re\tf\u{1}g\u{1f}h"),
        "\"a\\\"b\\\\c\\nd\\re\\tf\\u0001g\\u001fh\""
    );
    assert_eq!(json_str("é €"), "\"é €\"");
    assert_eq!(json_str("\u{0}\u{8}\u{c}\u{1b}"), "\"\\u0000\\u0008\\u000c\\u001b\"");
}

#[test]
fn next_boundary_discards_out_of_domain_offsets() {
    assert_eq!(property_grapheme_next_boundary_empty_chunk_no_panic("abcd".to_string(), 0, true, never_called), PropertyResult::Discard);
    assert_eq!(property_grapheme_next_boundary_empty_chunk_no_panic("abcd".to_string(), 4, true, never_called), PropertyResult::Discard);
    assert_eq!(property_grapheme_next_boundary_empty_chunk_no_panic("abcd".to_string(), 9, true, never_called), PropertyResult::Discard);
    assert_eq!(property_grapheme_next_boundary_empty_chunk_no_panic("héllo".to_string(), 2, true, never_called), PropertyResult::Discard);
    assert_eq!(property_grapheme_next_boundary_empty_chunk_no_panic(String::new(), 0, false, never_called), PropertyResult::Discard);
}

#[test]
fn next_boundary_hands_the_cursor_an_empty_chunk_at_its_offset() {
    let seen = Cell::new(false);
    let r = property_grapheme_next_boundary_empty_chunk_no_panic("héllo".to_string(), 3, false, |p: CursorProbe| {
        assert_eq!(p.offset, 3);
        assert_eq!(p.len, 6);
        assert!(!p.is_extended);
        assert_eq!(p.chunk, "");
        assert_eq!(p.chunk_start, 3);
        seen.set(true);
        CursorOutcome::Incomplete(GraphemeIncomplete::NextChunk)
    });
    assert_eq!(r, PropertyResult::Pass);
    assert!(seen.get());
}

#[test]
fn next_boundary_fails_on_every_other_outcome() {
    let run = |o: fn() -> CursorOutcome| {
        fail_text(property_grapheme_next_boundary_empty_chunk_no_panic("abcdefgh".to_string(), 4, true, move |_| o()))
    };
    assert_eq!(
        run(|| CursorOutcome::Boundary(Some(5))),
        "next_boundary returned Ok on empty suffix chunk at offset=4 (expected NextChunk)"
    );
    assert_eq!(
        run(|| CursorOutcome::Boundary(None)),
        "next_boundary returned Ok on empty suffix chunk at offset=4 (expected NextChunk)"
    );
    assert_eq!(
        run(|| CursorOutcome::Incomplete(GraphemeIncomplete::PreContext(3))),
        "next_boundary returned unexpected error PreContext(3) on empty suffix chunk at offset=4"
    );
    assert_eq!(
        run(|| CursorOutcome::Incomplete(GraphemeIncomplete::PrevChunk)),
        "next_boundary returned unexpected error PrevChunk on empty suffix chunk at offset=4"
    );
    assert_eq!(
        run(|| CursorOutcome::Incomplete(GraphemeIncomplete::InvalidOffset)),
        "next_boundary returned unexpected error InvalidOffset on empty suffix chunk at offset=4"
    );
    assert_eq!(
        run(|| CursorOutcome::Panicked(PanicPayload::Static("called `Option::unwrap()` on a `None` value".to_string()))),
        "next_boundary panicked on empty suffix chunk at offset=4: called `Option::unwrap()` on a `None` value"
    );
    assert_eq!(
        run(|| CursorOutcome::Panicked(PanicPayload::Other)),
        "next_boundary panicked on empty suffix chunk at offset=4: <non-string panic payload>"
    );
}

#[test]
fn error_debug_matches_derived_debug() {
    #[derive(Debug)]
    #[allow(dead_code)]
    enum Mirror {
        PreContext(usize),
    }
    let m = fail_text(judge_next_boundary(12, CursorOutcome::Incomplete(GraphemeIncomplete::PreContext(1024))));
    assert!(m.contains(&format!("{:?}", Mirror::PreContext(1024))));
    assert!(m.ends_with("offset=12"));
}

#[test]
fn prev_boundary_discards_out_of_domain_offsets() {
    assert_eq!(property_grapheme_prev_boundary_chunk_start_no_panic("abcd".to_string(), 0, true, never_called), PropertyResult::Discard);
    assert_eq!(property_grapheme_prev_boundary_chunk_start_no_panic("abcd".to_string(), 5, true, never_called), PropertyResult::Discard);
    assert_eq!(property_grapheme_prev_boundary_chunk_start_no_panic("héllo".to_string(), 2, true, never_called), PropertyResult::Discard);
    assert_eq!(property_grapheme_prev_boundary_chunk_start_no_panic(String::new(), 0, true, never_called), PropertyResult::Discard);
}

#[test]
fn prev_boundary_hands_the_cursor_the_suffix_at_its_offset() {
    let seen = Cell::new(false);
    let r = property_grapheme_prev_boundary_chunk_start_no_panic("héllo".to_string(), 3, true, |p: CursorProbe| {
        assert_eq!(p.offset, 3);
        assert_eq!(p.len, 6);
        assert!(p.is_extended);
        assert_eq!(p.chunk, "llo");
        assert_eq!(p.chunk_start, 3);
        seen.set(true);
        CursorOutcome::Incomplete(GraphemeIncomplete::PrevChunk)
    });
    assert_eq!(r, PropertyResult::Pass);
    assert!(seen.get());
    let at_end = property_grapheme_prev_boundary_chunk_start_no_panic("abcd".to_string(), 4, true, |p: CursorProbe| {
        assert_eq!(p.chunk, "");
        CursorOutcome::Incomplete(GraphemeIncomplete::PrevChunk)
    });
    assert_eq!(at_end, PropertyResult::Pass);
}

#[test]
fn prev_boundary_fails_on_every_other_outcome() {
    assert_eq!(
        fail_text(judge_prev_boundary(2, CursorOutcome::Boundary(Some(1)))),
        "prev_boundary returned Ok on offset==chunk_start at offset=2 (expected PrevChunk)"
    );
    assert_eq!(
        fail_text(judge_prev_boundary(2, CursorOutcome::Incomplete(GraphemeIncomplete::NextChunk))),
        "prev_boundary returned unexpected error NextChunk on offset==chunk_start at offset=2"
    );
    assert_eq!(
        fail_text(judge_prev_boundary(2, CursorOutcome::Panicked(PanicPayload::Owned("index out of bounds".to_string())))),
        "prev_boundary panicked on offset==chunk_start at offset=2: index out of bounds"
    );
    assert_eq!(judge_prev_boundary(2, CursorOutcome::Incomplete(GraphemeIncomplete::PrevChunk)), PropertyResult::Pass);
    assert_eq!(judge_next_boundary(2, CursorOutcome::Incomplete(GraphemeIncomplete::NextChunk)), PropertyResult::Pass);
}

#[test]
fn word_bounds_discard_non_ascii_text() {
    let r = property_ascii_word_bound_indices_match("héllo".to_string(), |_: String| -> WordBoundRun {
        panic!("the segmenter must not be called on a discarded input")
    });
    assert_eq!(r, PropertyResult::Discard);
}

#[test]
fn word_bounds_pass_when_both_paths_agree() {
    assert_eq!(property_ascii_word_bound_indices_match("can't".to_string(), same_words), PropertyResult::Pass);
    assert_eq!(property_ascii_word_bound_indices_match(String::new(), same_words), PropertyResult::Pass);
}

#[test]
fn word_bounds_report_a_divergence_as_debug_formats_it() {
    let fast = vec![seg(0, "can"), seg(3, "'"), seg(4, "t")];
    let uni = vec![seg(0, "can't")];
    let expected = format!(
        "ASCII fast path vs Unicode path diverge for {:?}: fast={:?}, uni={:?}",
        "can't",
        pairs(&fast),
        pairs(&uni)
    );
    let r = property_ascii_word_bound_indices_match("can't".to_string(), move |_| WordBoundRun::Completed {
        fast: copy(&fast),
        uni: copy(&uni),
    });
    let m = fail_text(r);
    assert_eq!(m, expected);
    assert_eq!(
        m,
        "ASCII fast path vs Unicode path diverge for \"can't\": fast=[(0, \"can\"), (3, \"'\"), (4, \"t\")], uni=[(0, \"can't\")]"
    );
}

#[test]
fn word_bounds_quote_texts_with_escapes() {
    let s = "a\"b\\c\td";
    let fast: Vec<Segment> = vec![];
    let uni = vec![seg(0, s)];
    let m = fail_text(judge_word_bounds(s, WordBoundRun::Completed { fast: copy(&fast), uni: copy(&uni) }));
    assert_eq!(
        m,
        format!("ASCII fast path vs Unicode path diverge for {:?}: fast={:?}, uni={:?}", s, pairs(&fast), pairs(&uni))
    );
    assert!(m.contains("fast=[], uni=[(0, \"a\\\"b\\\\c\\td\")]"));
}

#[test]
fn word_bounds_report_a_panic() {
    let m = fail_text(judge_word_bounds("ab", WordBoundRun::Panicked(PanicPayload::Owned("oops".to_string()))));
    assert_eq!(m, "word-bound iteration panicked for \"ab\": oops");
    let m = fail_text(judge_word_bounds("ab", WordBoundRun::Panicked(PanicPayload::Other)));
    assert_eq!(m, "word-bound iteration panicked for \"ab\": <non-string panic payload>");
}

#[test]
fn word_bounds_compare_offsets_too() {
    let r = judge_word_bounds("ab", WordBoundRun::Completed { fast: vec![seg(0, "ab")], uni: vec![seg(1, "ab")] });
    assert!(matches!(r, PropertyResult::Fail(_)));
    let r = judge_word_bounds("ab", WordBoundRun::Completed { fast: vec![seg(0, "a"), seg(1, "b")], uni: vec![seg(0, "a")] });
    assert!(matches!(r, PropertyResult::Fail(_)));
}

#[test]
fn downcast_panic_reads_every_payload() {
    assert_eq!(downcast_panic(&PanicPayload::Owned("owned".to_string())), "owned");
    assert_eq!(downcast_panic(&PanicPayload::Static("static".to_string())), "static");
    assert_eq!(downcast_panic(&PanicPayload::Other), "<non-string panic payload>");
    assert_eq!(panic_text(&PanicPayload::Other, "fallback"), "fallback");
}

#[test]
fn tag_runners_choose_text_and_offset() {
    assert_eq!(next_boundary_from_tags(4, 4, true, next_chunk), PropertyResult::Pass);
    assert_eq!(next_boundary_from_tags(0, 4, true, never_called), PropertyResult::Discard);
    assert_eq!(next_boundary_from_tags(1, 13, true, never_called), PropertyResult::Discard);
    assert_eq!(next_boundary_from_tags(5, 13, true, next_chunk), PropertyResult::Pass);
    assert_eq!(next_boundary_from_tags(5, 2, true, next_chunk), PropertyResult::Pass);
    assert_eq!(prev_boundary_from_tags(3, 4, true, prev_chunk), PropertyResult::Pass);
    assert_eq!(prev_boundary_from_tags(1, 5, true, never_called), PropertyResult::Discard);
    assert_eq!(prev_boundary_from_tags(3, 5, true, prev_chunk), PropertyResult::Pass);
}

#[test]
fn crabcheck_cases_read_low_bytes_and_flag_bit() {
    let saw_ext = Cell::new(None);
    let r = cc_grapheme_next_boundary_empty_chunk((4 + 256, 4 + 512, 3), |p: CursorProbe| {
        saw_ext.set(Some(p.is_extended));
        assert_eq!(p.offset, 4);
        next_chunk(p)
    });
    assert_eq!(r, Some(true));
    assert_eq!(saw_ext.get(), Some(true));
    assert_eq!(cc_grapheme_next_boundary_empty_chunk((0, 7, 0), never_called), None);
    assert_eq!(
        cc_grapheme_next_boundary_empty_chunk((2, 1, 2), |p: CursorProbe| {
            assert!(!p.is_extended);
            CursorOutcome::Boundary(Some(2))
        }),
        Some(false)
    );
    assert_eq!(cc_grapheme_prev_boundary_chunk_start((3, 2, 1), prev_chunk), Some(true));
    assert_eq!(cc_grapheme_prev_boundary_chunk_start((1, 0, 1), never_called), None);
    assert_eq!(cc_grapheme_prev_boundary_chunk_start((3, 2, 1), next_chunk), Some(false));
}

#[test]
fn crabcheck_word_case_skips_non_ascii_texts() {
    assert_eq!(cc_ascii_word_bound_indices_match(5, |_: String| -> WordBoundRun { panic!("not called") }), None);
    assert_eq!(cc_ascii_word_bound_indices_match(7, same_words), Some(true));
    assert_eq!(
        cc_ascii_word_bound_indices_match(7 + 256, |_| WordBoundRun::Completed { fast: vec![], uni: vec![seg(0, "can't")] }),
        Some(false)
    );
}

#[test]
fn flag_set_reads_the_low_bit() {
    assert!(!flag_set(0));
    assert!(flag_set(1));
    assert!(!flag_set(2));
    assert!(flag_set(usize::MAX));
}

#[test]
fn metrics_combine_adds_both_fields() {
    let a = Metrics { inputs: 2, elapsed_us: 30 };
    let b = Metrics { inputs: 5, elapsed_us: 7 };
    assert_eq!(a.combine(b), Metrics { inputs: 7, elapsed_us: 37 });
    assert_eq!(Metrics::default(), Metrics { inputs: 0, elapsed_us: 0 });
    assert_eq!(a.combine(Metrics::default()), a);
}

#[test]
fn run_all_runs_every_property_in_order() {
    let order = std::cell::RefCell::new(Vec::new());
    let r: Outcome = run_all(|p: PropertyName| {
        order.borrow_mut().push(p);
        (Ok(()), Metrics { inputs: 10, elapsed_us: 100 })
    });
    assert_eq!(r, (Ok(()), Metrics { inputs: 30, elapsed_us: 300 }));
    assert_eq!(
        *order.borrow(),
        vec![
            PropertyName::GraphemeNextBoundaryEmptyChunk,
            PropertyName::GraphemePrevBoundaryChunkStart,
            PropertyName::AsciiWordBoundIndicesMatch
        ]
    );
}

#[test]
fn run_all_adds_up_large_runs_that_fit() {
    let r: Outcome = run_all(|p: PropertyName| {
        if p == PropertyName::GraphemeNextBoundaryEmptyChunk {
            (Ok(()), Metrics { inputs: u64::MAX - 2, elapsed_us: u128::MAX - 10 })
        } else {
            (Ok(()), Metrics { inputs: 1, elapsed_us: 5 })
        }
    });
    assert_eq!(r, (Ok(()), Metrics { inputs: u64::MAX, elapsed_us: u128::MAX }));
}

#[test]
fn etna_runs_count_one_input_each() {
    assert_eq!(etna_outcome(Ok(()), 42), (Ok(()), Metrics { inputs: 1, elapsed_us: 42 }));
    assert_eq!(
        etna_outcome(Err("no".to_string()), 0),
        (Err("no".to_string()), Metrics { inputs: 1, elapsed_us: 0 })
    );
    let r: Outcome = run_all(|_p: PropertyName| etna_outcome(Ok(()), 7));
    assert_eq!(r, (Ok(()), Metrics { inputs: 3, elapsed_us: 21 }));
}

#[test]
fn run_all_stops_at_the_first_failure() {
    let calls = Cell::new(0);
    let r: Outcome = run_all(|p: PropertyName| {
        calls.set(calls.get() + 1);
        if p == PropertyName::GraphemePrevBoundaryChunkStart {
            (Err("second failed".to_string()), Metrics { inputs: 1, elapsed_us: 5 })
        } else {
            (Ok(()), Metrics { inputs: 4, elapsed_us: 6 })
        }
    });
    assert_eq!(r, (Err("second failed".to_string()), Metrics { inputs: 5, elapsed_us: 11 }));
    assert_eq!(calls.get(), 2);
}

#[test]
fn property_and_tool_names_parse() {
    assert_eq!(parse_property("All"), PropertyRequest::All);
    assert_eq!(
        parse_property("GraphemeNextBoundaryEmptyChunk"),
        PropertyRequest::One(PropertyName::GraphemeNextBoundaryEmptyChunk)
    );
    assert_eq!(
        parse_property("GraphemePrevBoundaryChunkStart"),
        PropertyRequest::One(PropertyName::GraphemePrevBoundaryChunkStart)
    );
    assert_eq!(parse_property("AsciiWordBoundIndicesMatch"), PropertyRequest::One(PropertyName::AsciiWordBoundIndicesMatch));
    assert_eq!(parse_property("all"), PropertyRequest::Unknown);
    assert_eq!(parse_property(""), PropertyRequest::Unknown);
    assert_eq!(parse_tool("etna"), Some(Tool::Etna));
    assert_eq!(parse_tool("proptest"), Some(Tool::Proptest));
    assert_eq!(parse_tool("quickcheck"), Some(Tool::Quickcheck));
    assert_eq!(parse_tool("crabcheck"), Some(Tool::Crabcheck));
    assert_eq!(parse_tool("hegel"), Some(Tool::Hegel));
    assert_eq!(parse_tool("Hegel"), None);
    for p in [
        PropertyName::GraphemeNextBoundaryEmptyChunk,
        PropertyName::GraphemePrevBoundaryChunkStart,
        PropertyName::AsciiWordBoundIndicesMatch,
    ] {
        assert_eq!(parse_property(p.label()), PropertyRequest::One(p));
    }
}

#[test]
fn unknown_names_are_refused_at_no_cost() {
    assert_eq!(unknown_property(Tool::Etna, "Foo"), (Err("Unknown property: Foo".to_string()), Metrics::default()));
    assert_eq!(
        unknown_property(Tool::Proptest, "Foo"),
        (Err("Unknown property for proptest: Foo".to_string()), Metrics::default())
    );
    assert_eq!(
        unknown_property(Tool::Quickcheck, "Foo").0,
        Err("Unknown property for quickcheck: Foo".to_string())
    );
    assert_eq!(unknown_property(Tool::Crabcheck, "Foo").0, Err("Unknown property for crabcheck: Foo".to_string()));
    assert_eq!(unknown_property(Tool::Hegel, "Foo").0, Err("Unknown property for hegel: Foo".to_string()));
    assert_eq!(unknown_tool("nope"), (Err("Unknown tool: nope".to_string()), Metrics::default()));
}

#[test]
fn etna_checks_use_the_fixed_witnesses() {
    let segmenter = |s: String| {
        assert_eq!(s, "Hello, world!");
        same_words(s)
    };
    assert_eq!(
        etna_check(PropertyName::GraphemeNextBoundaryEmptyChunk, |p: CursorProbe| {
            assert_eq!((p.offset, p.len, p.is_extended, p.chunk.as_str(), p.chunk_start), (4, 8, true, "", 4));
            next_chunk(p)
        }, never_called, segmenter),
        Ok(())
    );
    assert_eq!(
        etna_check(PropertyName::GraphemePrevBoundaryChunkStart, never_called, |p: CursorProbe| {
            assert_eq!((p.offset, p.len, p.is_extended, p.chunk.as_str(), p.chunk_start), (2, 4, true, "cd", 2));
            prev_chunk(p)
        }, segmenter),
        Ok(())
    );
    assert_eq!(etna_check(PropertyName::AsciiWordBoundIndicesMatch, never_called, never_called, segmenter), Ok(()));
    assert_eq!(
        etna_check(PropertyName::GraphemeNextBoundaryEmptyChunk, |_| CursorOutcome::Boundary(None), never_called, segmenter),
        Err("next_boundary returned Ok on empty suffix chunk at offset=4 (expected NextChunk)".to_string())
    );
    assert_eq!(
        etna_check(PropertyName::GraphemePrevBoundaryChunkStart, never_called, |_| CursorOutcome::Boundary(None), segmenter),
        Err("prev_boundary returned Ok on offset==chunk_start at offset=2 (expected PrevChunk)".to_string())
    );
}

#[test]
fn framework_statuses_are_read() {
    assert_eq!(status_result(Tool::Quickcheck, RunStatus::Finished), Ok(()));
    assert_eq!(
        status_result(Tool::Quickcheck, RunStatus::Failed { arguments: vec!["1".to_string(), "2".to_string(), "true".to_string()] }),
        Err("quickcheck failed with counterexample: (1 2 true)".to_string())
    );
    assert_eq!(
        status_result(Tool::Crabcheck, RunStatus::Failed { arguments: vec![] }),
        Err("crabcheck failed with counterexample: ()".to_string())
    );
    assert_eq!(
        status_result(Tool::Crabcheck, RunStatus::Aborted { error: "boom".to_string() }),
        Err("crabcheck aborted: boom".to_string())
    );
    assert_eq!(status_result(Tool::Quickcheck, RunStatus::TimedOut), Err("quickcheck timed out".to_string()));
    assert_eq!(
        status_result(Tool::Crabcheck, RunStatus::GaveUp { passed: 3, discarded: 400 }),
        Err("crabcheck gave up: passed=3, discarded=400".to_string())
    );
}

#[test]
fn strip_prefix_keeps_the_rest() {
    assert_eq!(strip_prefix("__unknown_property:Foo", "__unknown_property:"), Some("Foo".to_string()));
    assert_eq!(strip_prefix("abc", "abc"), Some(String::new()));
    assert_eq!(strip_prefix("ab", "abc"), None);
    assert_eq!(strip_prefix("xbc", "abc"), None);
    assert_eq!(strip_prefix("é€x", "é"), Some("€x".to_string()));
}

#[test]
fn hegel_outcomes_are_read() {
    let m = Metrics { inputs: 200, elapsed_us: 9 };
    assert_eq!(hegel_outcome(None, m), (Ok(()), m));
    assert_eq!(
        hegel_outcome(Some(PanicPayload::Owned("__unknown_property:Foo".to_string())), m),
        (Err("Unknown property for hegel: Foo".to_string()), Metrics::default())
    );
    assert_eq!(
        hegel_outcome(Some(PanicPayload::Static("bad".to_string())), m),
        (Err("hegel found counterexample: bad".to_string()), m)
    );
    assert_eq!(
        hegel_outcome(Some(PanicPayload::Other), m),
        (Err("hegel found counterexample: hegel panicked with non-string payload".to_string()), m)
    );
}

#[test]
fn fold_to_ascii_keeps_seven_bits() {
    assert_eq!(fold_to_ascii("abc"), "abc");
    assert_eq!(fold_to_ascii("aé€"), "ai,");
    assert_eq!(fold_to_ascii(""), "");
    let s = "日本\u{7f}\u{80}";
    let expected: String = s.chars().map(|c| ((c as u32 & 0x7f) as u8 as char)).collect();
    assert_eq!(fold_to_ascii(s), expected);
}

#[test]
fn report_line_renders_the_json_object() {
    assert_eq!(
        report_line("etna", "All", "passed", Metrics { inputs: 3, elapsed_us: 120 }, None, None),
        "{\"status\":\"passed\",\"tests\":3,\"discards\":0,\"time\":\"120us\",\"counterexample\":null,\"error\":null,\"tool\":\"etna\",\"property\":\"All\"}"
    );
    assert_eq!(
        report_line("quickcheck", "P", "failed", Metrics { inputs: 0, elapsed_us: 0 }, Some("a\"b\n"), Some("e")),
        "{\"status\":\"failed\",\"tests\":0,\"discards\":0,\"time\":\"0us\",\"counterexample\":\"a\\\"b\\n\",\"error\":\"e\",\"tool\":\"quickcheck\",\"property\":\"P\"}"
    );
}

#[test]
fn final_report_covers_pass_failure_and_panic() {
    let m = Metrics { inputs: 7, elapsed_us: 42 };
    assert_eq!(
        final_report("hegel", "X", Ok((Ok(()), m))),
        "{\"status\":\"passed\",\"tests\":7,\"discards\":0,\"time\":\"42us\",\"counterexample\":null,\"error\":null,\"tool\":\"hegel\",\"property\":\"X\"}"
    );
    assert_eq!(
        final_report("hegel", "X", Ok((Err("cex".to_string()), m))),
        "{\"status\":\"failed\",\"tests\":7,\"discards\":0,\"time\":\"42us\",\"counterexample\":\"cex\",\"error\":null,\"tool\":\"hegel\",\"property\":\"X\"}"
    );
    assert_eq!(
        final_report("etna", "All", Err(PanicPayload::Static("boom".to_string()))),
        "{\"status\":\"aborted\",\"tests\":0,\"discards\":0,\"time\":\"0us\",\"counterexample\":null,\"error\":\"adapter panic: boom\",\"tool\":\"etna\",\"property\":\"All\"}"
    );
    let line = final_report("etna", "All", Err(PanicPayload::Other));
    assert!(line.contains("\"error\":\"adapter panic: panic with non-string payload\""));
    assert!(!line.contains('\n'));
}

#[test]
fn reports_are_single_lines() {
    let line = final_report("t\n", "p\r", Ok((Err("line one\nline two\u{0}".to_string()), Metrics::default())));
    assert!(!line.contains('\n'));
    assert!(line.chars().all(|c| c as u32 >= 0x20));
}

#[test]
fn mutation_steps_follow_the_drawn_choice() {
    assert_eq!(plan_mutation(0, 3, ANY_TEXT_MAX_CHARS), Mutation::Replace);
    assert_eq!(plan_mutation(0, 0, ANY_TEXT_MAX_CHARS), Mutation::Keep);
    assert_eq!(plan_mutation(1, 3, ANY_TEXT_MAX_CHARS), Mutation::Push);
    assert_eq!(plan_mutation(1, 16, ANY_TEXT_MAX_CHARS), Mutation::Pop);
    assert_eq!(plan_mutation(1, 0, ANY_TEXT_MAX_CHARS), Mutation::Push);
    assert_eq!(plan_mutation(2, 3, ASCII_TEXT_MAX_BYTES), Mutation::Pop);
    assert_eq!(plan_mutation(2, 0, ASCII_TEXT_MAX_BYTES), Mutation::Keep);
    assert_eq!(plan_mutation(1, 32, ASCII_TEXT_MAX_BYTES), Mutation::Pop);
    assert_eq!(plan_mutation(1, 31, ASCII_TEXT_MAX_BYTES), Mutation::Push);
}

#[test]
fn mutations_apply_to_vectors() {
    let mut v = vec![1u8, 2, 3];
    apply_mutation(&mut v, Mutation::Replace, 1, 9);
    assert_eq!(v, vec![1, 9, 3]);
    apply_mutation(&mut v, Mutation::Push, 0, 4);
    assert_eq!(v, vec![1, 9, 3, 4]);
    apply_mutation(&mut v, Mutation::Pop, 0, 0);
    assert_eq!(v, vec![1, 9, 3]);
    apply_mutation(&mut v, Mutation::Keep, 0, 0);
    assert_eq!(v, vec![1, 9, 3]);
}

#[test]
fn any_text_mutation_works_on_characters() {
    assert_eq!(mutate_any_text("héllo", Mutation::Replace, 1, 'e'), "hello");
    assert_eq!(mutate_any_text("日本", Mutation::Push, 0, '語'), "日本語");
    assert_eq!(mutate_any_text("日本", Mutation::Pop, 0, 'x'), "日");
    assert_eq!(mutate_any_text("", Mutation::Keep, 0, 'x'), "");
}

#[test]
fn ascii_text_mutation_works_on_bytes() {
    assert_eq!(mutate_ascii_text("abc", Mutation::Replace, 2, b'z'), "abz");
    assert_eq!(mutate_ascii_text("abc", Mutation::Push, 0, b'!'), "abc!");
    assert_eq!(mutate_ascii_text("abc", Mutation::Pop, 0, 0), "ab");
    assert_eq!(mutate_ascii_text("", Mutation::Keep, 0, 0), "");
    // Overwriting the first byte of a two-byte character leaves invalid UTF-8.
    assert_eq!(mutate_ascii_text("é", Mutation::Replace, 0, b'a'), "");
}

#[test]
fn texts_are_built_from_parts() {
    assert_eq!(chars_to_text(&vec!['a', 'é', '€']), "aé€");
    assert_eq!(text_chars("aé€"), vec!['a', 'é', '€']);
    assert_eq!(bytes_as_chars(&vec![104, 105, 0, 127]), "hi\u{0}\u{7f}");
    assert_eq!(text_from_utf8_or_empty(vec![0xc3, 0xa9]), "é");
    assert_eq!(text_from_utf8_or_empty(vec![0xc3]), "");
}

#[test]
fn json_literals_are_quoted_and_free_of_controls() {
    for s in ["", "plain", "a\"b\\c", "\u{0}\u{1f}\n\r\t", "é €\u{1F600}", "\u{7f}"] {
        let j = json_str(s);
        assert!(j.starts_with('"') && j.ends_with('"'));
        assert!(j.chars().count() >= s.chars().count() + 2);
        assert!(j.chars().all(|c| (c as u32) >= 0x20));
    }
}

#[test]
fn ascii_mutations_stay_ascii_and_one_step_apart() {
    for s in ["", "a", "abc", "0123456789abcdef0123456789abcdef"] {
        for choice in 0..3u8 {
            for b in [0u8, b'x', 127] {
                let m = plan_mutation(choice, s.len(), ASCII_TEXT_MAX_BYTES);
                let index = if s.is_empty() { 0 } else { s.len() - 1 };
                let r = mutate_ascii_text(s, m, index, b);
                assert!(r.is_ascii());
                assert!(r.len() <= ASCII_TEXT_MAX_BYTES);
                let (sb, rb) = (s.as_bytes(), r.as_bytes());
                let one_step = (rb.len() == sb.len() && sb.iter().zip(rb).filter(|(x, y)| x != y).count() <= 1)
                    || (rb.len() == sb.len() + 1 && rb.starts_with(sb))
                    || (rb.len() + 1 == sb.len() && sb.starts_with(rb));
                assert!(one_step);
            }
        }
    }
}
