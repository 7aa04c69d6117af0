//! The word-bound property: on ASCII text the ASCII fast path of the
//! word-boundary iterator must yield exactly what the general Unicode path
//! yields.
//!
//! Both iterators belong to the code under test and are not part of this
//! crate: the property discards non-ASCII input, hands the text to the
//! caller's `segment` function, and compares the two segmentations it returns.

use vstd::prelude::*;
use vstd::utf8::is_ascii_chars;
use crate::panic_payload::{downcast_panic, panic_message, PanicPayload};
use crate::render::{decimal, push_decimal, push_text};
use crate::verdict::{
    contains_text, ends_with, lemma_contains_end, lemma_contains_middle, lemma_ends_with_concat, PropertyResult,
    Verdict,
};

verus! {

/// How `{:?}` writes a string slice: quoted, with escapes.
pub uninterp spec fn debug_quoted(s: Seq<char>) -> Seq<char>;

/// Formats a string slice with `format!("{:?}", ..)`, that is `<str as
/// Debug>::fmt`. Claims only that the text is `debug_quoted` of the slice's
/// characters, a function of them alone; what that function is (the quotes,
/// and which characters are escaped how, which std decides by Unicode
/// tables) is not stated.
#[verifier::external_body]
fn debug_quote(s: &str) -> (r: String)
    ensures
        r@ == debug_quoted(s@),
{
    format!("{:?}", s)
}

/// One word segment: its byte offset in the text and its text.
#[derive(Debug)]
pub struct Segment {
    pub start: usize,
    pub text: String,
}

/// A segmentation with each segment's text taken as characters.
pub open spec fn segments_view(v: Seq<Segment>) -> Seq<(usize, Seq<char>)> {
    Seq::new(v.len(), |i: int| (v[i].start, v[i].text@))
}

/// What running both iterators on the text came to.
#[derive(Debug)]
pub enum WordBoundRun {
    /// Both iterators ran to the end: `fast` from the ASCII fast path, `uni`
    /// from the Unicode path.
    Completed { fast: Vec<Segment>, uni: Vec<Segment> },
    /// One of them panicked.
    Panicked(PanicPayload),
}

/// How `{:?}` writes one `(usize, &str)` pair.
pub open spec fn segment_debug(p: (usize, Seq<char>)) -> Seq<char> {
    "("@ + decimal(p.0 as nat) + ", "@ + debug_quoted(p.1) + ")"@
}

/// The pairs written by `segment_debug`, separated by `", "`.
pub open spec fn segment_list_items(v: Seq<(usize, Seq<char>)>) -> Seq<char>
    decreases v.len(),
{
    if v.len() == 0 {
        Seq::empty()
    } else if v.len() == 1 {
        segment_debug(v[0])
    } else {
        segment_list_items(v.drop_last()) + ", "@ + segment_debug(v.last())
    }
}

/// How `{:?}` writes a `Vec<(usize, &str)>`.
pub open spec fn segment_list_debug(v: Seq<(usize, Seq<char>)>) -> Seq<char> {
    "["@ + segment_list_items(v) + "]"@
}

fn push_segment_list_debug(out: &mut String, v: &Vec<Segment>)
    ensures
        final(out)@ == old(out)@ + segment_list_debug(segments_view(v@)),
{
    let ghost start = out@;
    let ghost view = segments_view(v@);
    push_text(out, "[");
    let mut i: usize = 0;
    while i < v.len()
        invariant
            i <= v.len(),
            view == segments_view(v@),
            out@ == start + "["@ + segment_list_items(view.take(i as int)),
        decreases v.len() - i,
    {
        if i > 0 {
            push_text(out, ", ");
        }
        push_text(out, "(");
        push_decimal(out, v[i].start as u128);
        push_text(out, ", ");
        let q = debug_quote(v[i].text.as_str());
        push_text(out, q.as_str());
        push_text(out, ")");
        let ghost taken = view.take(i + 1);
        assert(taken.drop_last() =~= view.take(i as int));
        assert(taken.last() == view[i as int]);
        assert(out@ =~= start + "["@ + segment_list_items(taken));
        i = i + 1;
    }
    assert(view.take(v.len() as int) =~= view);
    push_text(out, "]");
    assert(out@ =~= start + segment_list_debug(view));
}

/// Whether two segmentations are the same pairs in the same order.
pub fn same_segments(a: &Vec<Segment>, b: &Vec<Segment>) -> (eq: bool)
    ensures
        eq == (segments_view(a@) == segments_view(b@)),
{
    if a.len() != b.len() {
        assert(segments_view(a@).len() != segments_view(b@).len());
        return false;
    }
    let mut i: usize = 0;
    while i < a.len()
        invariant
            i <= a.len(),
            a.len() == b.len(),
            forall|j: int| 0 <= j < i ==> #[trigger] segments_view(a@)[j] == segments_view(b@)[j],
        decreases a.len() - i,
    {
        if a[i].start != b[i].start || a[i].text != b[i].text {
            assert(segments_view(a@)[i as int] != segments_view(b@)[i as int]);
            return false;
        }
        i = i + 1;
    }
    assert(segments_view(a@) =~= segments_view(b@));
    true
}

/// The verdict on what the two iterators produced for the ASCII text `s`:
/// equal segmentations pass, different ones or a panic fail.
pub open spec fn word_bound_verdict(s: Seq<char>, run: WordBoundRun) -> Verdict {
    match run {
        WordBoundRun::Completed { fast, uni } => {
            if segments_view(fast@) == segments_view(uni@) {
                Verdict::Pass
            } else {
                Verdict::Fail(
                    "ASCII fast path vs Unicode path diverge for "@ + debug_quoted(s) + ": fast="@
                        + segment_list_debug(segments_view(fast@)) + ", uni="@
                        + segment_list_debug(segments_view(uni@)),
                )
            }
        },
        WordBoundRun::Panicked(p) => Verdict::Fail(
            "word-bound iteration panicked for "@ + debug_quoted(s) + ": "@ + panic_message(p),
        ),
    }
}

/// Judges what the two iterators produced for the text `s`.
pub fn judge_word_bounds(s: &str, run: WordBoundRun) -> (r: PropertyResult)
    ensures
        r@ == word_bound_verdict(s@, run),
{
    match run {
        WordBoundRun::Completed { fast, uni } => {
            if same_segments(&fast, &uni) {
                PropertyResult::Pass
            } else {
                let mut m = String::new();
                push_text(&mut m, "ASCII fast path vs Unicode path diverge for ");
                let q = debug_quote(s);
                push_text(&mut m, q.as_str());
                push_text(&mut m, ": fast=");
                push_segment_list_debug(&mut m, &fast);
                push_text(&mut m, ", uni=");
                push_segment_list_debug(&mut m, &uni);
                PropertyResult::Fail(m)
            }
        },
        WordBoundRun::Panicked(p) => {
            let msg = downcast_panic(&p);
            let mut m = String::new();
            push_text(&mut m, "word-bound iteration panicked for ");
            let q = debug_quote(s);
            push_text(&mut m, q.as_str());
            push_text(&mut m, ": ");
            push_text(&mut m, msg.as_str());
            PropertyResult::Fail(m)
        },
    }
}

/// For any ASCII input the ASCII fast-path word-bound iterator must yield
/// exactly the `(offset, segment)` pairs of the general Unicode word-bound
/// iterator. Non-ASCII input is discarded without a call; otherwise `segment`
/// is called once with the text and both segmentations it returns are
/// compared.
pub fn property_ascii_word_bound_indices_match<F>(s: String, segment: F) -> (r: PropertyResult) where
    F: Fn(String) -> WordBoundRun,

    requires
        forall|t: String| segment.requires((t,)),
    ensures
        !is_ascii_chars(s@) ==> r@ == Verdict::Discard,
        is_ascii_chars(s@) ==> exists|t: String, run: WordBoundRun|
            #[trigger] segment.ensures((t,), run) && t@ == s@ && r@ == word_bound_verdict(s@, run),
        word_bound_result(segment, s@, r@),
{
    if !s.as_str().is_ascii() {
        return PropertyResult::Discard;
    }
    let t = s.clone();
    let ghost tt = t;
    let run = segment(t);
    let ghost rr = run;
    let r = judge_word_bounds(s.as_str(), run);
    assert(segment.ensures((tt,), rr) && tt@ == s@);
    r
}

/// The segmenter answers the same text alike every time it is asked.
pub open spec fn segments_alike<F: Fn(String) -> WordBoundRun>(segment: F) -> bool {
    forall|t1: String, t2: String, r1: WordBoundRun, r2: WordBoundRun|
        #[trigger] segment.ensures((t1,), r1) && #[trigger] segment.ensures((t2,), r2) && t1@ == t2@ ==> r1 == r2
}

/// The verdicts that the word-bound property may give on `s` with `segment`:
/// a discard for text that is not ASCII, else the verdict on what the
/// segmenter answered to the one call the property makes.
pub open spec fn word_bound_result<F: Fn(String) -> WordBoundRun>(segment: F, s: Seq<char>, v: Verdict) -> bool {
    if !is_ascii_chars(s) {
        v == Verdict::Discard
    } else {
        exists|t: String, run: WordBoundRun|
            #[trigger] segment.ensures((t,), run) && t@ == s && v == word_bound_verdict(s, run)
    }
}

/// Law: with a segmenter that answers the same text alike, the word-bound
/// property is a function of its text: two calls give the same verdict,
/// message included.
pub proof fn lemma_word_bound_deterministic<F: Fn(String) -> WordBoundRun>(
    segment: F,
    s: Seq<char>,
    v1: Verdict,
    v2: Verdict,
)
    requires
        segments_alike(segment),
        word_bound_result(segment, s, v1),
        word_bound_result(segment, s, v2),
    ensures
        v1 == v2,
{
    if is_ascii_chars(s) {
        let (t1, r1) = choose|t: String, run: WordBoundRun|
            #[trigger] segment.ensures((t,), run) && t@ == s && v1 == word_bound_verdict(s, run);
        let (t2, r2) = choose|t: String, run: WordBoundRun|
            #[trigger] segment.ensures((t,), run) && t@ == s && v2 == word_bound_verdict(s, run);
        assert(r1 == r2);
    }
}

/// Law: the word-bound verdict on a call that was made passes exactly when
/// both iterators finished with the same segmentation. Any panic, whatever
/// its payload, fails; no run is discarded; and the failure of a panic ends
/// with the panic's text.
pub proof fn lemma_word_bound_verdict_passes_only_on_equal_runs(s: Seq<char>, run: WordBoundRun)
    ensures
        (word_bound_verdict(s, run) == Verdict::Pass) <==> (run matches WordBoundRun::Completed { fast, uni }
            && segments_view(fast@) == segments_view(uni@)),
        word_bound_verdict(s, run) !is Discard,
        run is Panicked ==> word_bound_verdict(s, run) is Fail,
        run matches WordBoundRun::Panicked(p) ==> (word_bound_verdict(s, run) matches Verdict::Fail(m)
            && ends_with(m, panic_message(p))),
{
    if let WordBoundRun::Panicked(p) = run {
        lemma_ends_with_concat(
            "word-bound iteration panicked for "@ + debug_quoted(s) + ": "@,
            panic_message(p),
        );
    }
}

/// Law: every failure of the word-bound property quotes the text it was
/// checked on, and a divergence shows both segmentations.
pub proof fn lemma_word_bound_failure_shows_its_inputs(s: Seq<char>, run: WordBoundRun)
    ensures
        word_bound_verdict(s, run) matches Verdict::Fail(m) ==> contains_text(m, debug_quoted(s)),
        run matches WordBoundRun::Completed { fast, uni } ==> (word_bound_verdict(s, run) matches Verdict::Fail(m)
            ==> contains_text(m, segment_list_debug(segments_view(fast@))) && contains_text(
            m,
            segment_list_debug(segments_view(uni@)),
        )),
{
    let q = debug_quoted(s);
    let head = "ASCII fast path vs Unicode path diverge for "@;
    match run {
        WordBoundRun::Completed { fast, uni } => {
            let f = segment_list_debug(segments_view(fast@));
            let u = segment_list_debug(segments_view(uni@));
            let m = head + q + ": fast="@ + f + ", uni="@ + u;
            lemma_contains_middle(head, q, ": fast="@ + f + ", uni="@ + u);
            assert(head + q + (": fast="@ + f + ", uni="@ + u) =~= m);
            lemma_contains_middle(head + q + ": fast="@, f, ", uni="@ + u);
            assert(head + q + ": fast="@ + f + (", uni="@ + u) =~= m);
            lemma_contains_end(head + q + ": fast="@ + f + ", uni="@, u);
        },
        WordBoundRun::Panicked(p) => {
            let h = "word-bound iteration panicked for "@;
            lemma_contains_middle(h, q, ": "@ + panic_message(p));
            assert(h + q + (": "@ + panic_message(p)) =~= h + q + ": "@ + panic_message(p));
        },
    }
}

} // verus!
