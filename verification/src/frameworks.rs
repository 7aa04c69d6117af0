//! What the framework runners make of a finished run: the status a framework
//! reports, the panic a failing hegel run leaves, and the ASCII text that the
//! hegel word-bound run derives from arbitrary text.

use vstd::prelude::*;
use vstd::string::StrSliceExecFns;
use crate::metrics::{Metrics, Outcome};
use crate::panic_payload::{panic_text, panic_text_or, PanicPayload};
use crate::render::{decimal, push_char, push_decimal, push_text};
use crate::verdict::{
    contains_text, ends_with, lemma_contains_end, lemma_contains_middle, lemma_contains_within, lemma_ends_with_concat,
};
use crate::workload::{tool_label, unknown_property_message, Tool};

verus! {

/// How a framework's run of a property ended.
#[derive(Debug)]
pub enum RunStatus {
    /// Every test passed.
    Finished,
    /// A test failed on these arguments, each as the framework writes it.
    Failed { arguments: Vec<String> },
    /// The run was stopped by this error, as the framework writes it.
    Aborted { error: String },
    /// The run ran out of time.
    TimedOut,
    /// Too many inputs were discarded.
    GaveUp { passed: u64, discarded: u64 },
}

/// Texts joined with a separator between each two.
pub open spec fn joined(v: Seq<Seq<char>>, sep: Seq<char>) -> Seq<char>
    decreases v.len(),
{
    if v.len() == 0 {
        Seq::empty()
    } else if v.len() == 1 {
        v[0]
    } else {
        joined(v.drop_last(), sep) + sep + v.last()
    }
}

/// The texts of a vector of strings.
pub open spec fn texts(v: Seq<String>) -> Seq<Seq<char>> {
    Seq::new(v.len(), |i: int| v[i]@)
}

fn push_joined(out: &mut String, v: &Vec<String>, sep: &str)
    ensures
        final(out)@ == old(out)@ + joined(texts(v@), sep@),
{
    let ghost start = out@;
    let ghost ts = texts(v@);
    let mut i: usize = 0;
    while i < v.len()
        invariant
            i <= v.len(),
            ts == texts(v@),
            out@ == start + joined(ts.take(i as int), sep@),
        decreases v.len() - i,
    {
        if i > 0 {
            push_text(out, sep);
        }
        push_text(out, v[i].as_str());
        assert(ts.take(i + 1).drop_last() =~= ts.take(i as int));
        assert(out@ =~= start + joined(ts.take(i + 1), sep@));
        i = i + 1;
    }
    assert(ts.take(v.len() as int) =~= ts);
}

/// What a runner reports for the status a framework gave: success for a
/// finished run, else a message that names the framework and says why.
pub open spec fn status_message(tool: Tool, status: RunStatus) -> Result<(), Seq<char>> {
    match status {
        RunStatus::Finished => Ok(()),
        RunStatus::Failed { arguments } => Err(
            tool_label(tool) + " failed with counterexample: ("@ + joined(texts(arguments@), " "@)
                + ")"@,
        ),
        RunStatus::Aborted { error } => Err(tool_label(tool) + " aborted: "@ + error@),
        RunStatus::TimedOut => Err(tool_label(tool) + " timed out"@),
        RunStatus::GaveUp { passed, discarded } => Err(
            tool_label(tool) + " gave up: passed="@ + decimal(passed as nat) + ", discarded="@
                + decimal(discarded as nat),
        ),
    }
}

fn push_tool_label(out: &mut String, tool: Tool)
    ensures
        final(out)@ == old(out)@ + tool_label(tool),
{
    match tool {
        Tool::Etna => push_text(out, "etna"),
        Tool::Proptest => push_text(out, "proptest"),
        Tool::Quickcheck => push_text(out, "quickcheck"),
        Tool::Crabcheck => push_text(out, "crabcheck"),
        Tool::Hegel => push_text(out, "hegel"),
    }
}

/// Reads the status that `tool` gave for a run.
pub fn status_result(tool: Tool, status: RunStatus) -> (r: Result<(), String>)
    ensures
        match status_message(tool, status) {
            Ok(_) => r is Ok,
            Err(m) => r matches Err(s) && s@ == m,
        },
{
    match status {
        RunStatus::Finished => Ok(()),
        RunStatus::Failed { arguments } => {
            let mut m = String::new();
            push_tool_label(&mut m, tool);
            push_text(&mut m, " failed with counterexample: (");
            push_joined(&mut m, &arguments, " ");
            push_text(&mut m, ")");
            Err(m)
        },
        RunStatus::Aborted { error } => {
            let mut m = String::new();
            push_tool_label(&mut m, tool);
            push_text(&mut m, " aborted: ");
            push_text(&mut m, error.as_str());
            Err(m)
        },
        RunStatus::TimedOut => {
            let mut m = String::new();
            push_tool_label(&mut m, tool);
            push_text(&mut m, " timed out");
            Err(m)
        },
        RunStatus::GaveUp { passed, discarded } => {
            let mut m = String::new();
            push_tool_label(&mut m, tool);
            push_text(&mut m, " gave up: passed=");
            push_decimal(&mut m, passed as u128);
            push_text(&mut m, ", discarded=");
            push_decimal(&mut m, discarded as u128);
            Err(m)
        },
    }
}

/// `s` without the leading `prefix`, where `s` starts with it.
pub open spec fn without_prefix(s: Seq<char>, prefix: Seq<char>) -> Option<Seq<char>> {
    if prefix.len() <= s.len() && s.subrange(0, prefix.len() as int) == prefix {
        Some(s.subrange(prefix.len() as int, s.len() as int))
    } else {
        None
    }
}

/// `s` without the leading `prefix`, where `s` starts with it.
pub fn strip_prefix(s: &str, prefix: &str) -> (r: Option<String>)
    ensures
        match without_prefix(s@, prefix@) {
            Some(rest) => r matches Some(t) && t@ == rest,
            None => r is None,
        },
{
    let n: usize = s.unicode_len();
    let k: usize = prefix.unicode_len();
    if k > n {
        return None;
    }
    let mut i: usize = 0;
    while i < k
        invariant
            k <= n,
            n == s@.len(),
            k == prefix@.len(),
            i <= k,
            forall|j: int| 0 <= j < i ==> s@[j] == prefix@[j],
        decreases k - i,
    {
        if s.get_char(i) != prefix.get_char(i) {
            assert(s@.subrange(0, k as int)[i as int] != prefix@[i as int]);
            return None;
        }
        i = i + 1;
    }
    assert(s@.subrange(0, k as int) =~= prefix@);
    Some(s.substring_char(k, n).to_owned())
}

/// The prefix by which a hegel run's panic says that the property name was
/// not known.
pub open spec fn unknown_marker() -> Seq<char> {
    "__unknown_property:"@
}

/// What a hegel run of a property came to: success where it did not panic; a
/// panic whose text starts with the unknown-property marker refuses the name
/// that follows, at no cost; any other panic is a counterexample.
pub open spec fn hegel_message(panic: Option<PanicPayload>) -> Result<(), Seq<char>> {
    match panic {
        None => Ok(()),
        Some(p) => {
            let msg = panic_text_or(p, "hegel panicked with non-string payload"@);
            match without_prefix(msg, unknown_marker()) {
                Some(rest) => Err(unknown_property_message(Tool::Hegel, rest)),
                None => Err("hegel found counterexample: "@ + msg),
            }
        },
    }
}

/// Reads a hegel run of a property: `panic` is the payload of the panic that
/// ended it, if any, and `metrics` what it cost.
pub fn hegel_outcome(panic: Option<PanicPayload>, metrics: Metrics) -> (o: Outcome)
    ensures
        match hegel_message(panic) {
            Ok(_) => o.0 is Ok && o.1 == metrics,
            Err(m) => o.0 matches Err(s) && s@ == m,
        },
        panic matches Some(p) && without_prefix(
            panic_text_or(p, "hegel panicked with non-string payload"@),
            unknown_marker(),
        ) is Some ==> o.1.inputs == 0 && o.1.elapsed_us == 0,
        panic matches Some(p) && without_prefix(
            panic_text_or(p, "hegel panicked with non-string payload"@),
            unknown_marker(),
        ) is None ==> o.1 == metrics,
{
    match panic {
        None => (Ok(()), metrics),
        Some(p) => {
            let msg = panic_text(&p, "hegel panicked with non-string payload");
            match strip_prefix(msg.as_str(), "__unknown_property:") {
                Some(rest) => {
                    let mut m = String::new();
                    push_text(&mut m, "Unknown property for hegel: ");
                    push_text(&mut m, rest.as_str());
                    proof {
                        reveal_strlit("Unknown property for hegel: ");
                        reveal_strlit("Unknown property for ");
                        reveal_strlit("hegel");
                        reveal_strlit(": ");
                        assert(m@ =~= unknown_property_message(Tool::Hegel, rest@));
                    }
                    (Err(m), Metrics::default())
                },
                None => {
                    let mut m = String::new();
                    push_text(&mut m, "hegel found counterexample: ");
                    push_text(&mut m, msg.as_str());
                    (Err(m), metrics)
                },
            }
        },
    }
}

/// The ASCII character that keeps the low seven bits of `c`.
pub open spec fn ascii_fold_char(c: char) -> char {
    ((c as u32) % 128) as char
}

/// Maps every character of `s` to the ASCII character with its low seven bits.
pub fn fold_to_ascii(s: &str) -> (r: String)
    ensures
        r@ == Seq::new(s@.len(), |i: int| ascii_fold_char(s@[i])),
{
    let mut out = String::new();
    let ghost chars = s@;
    for c in it: s.chars()
        invariant
            it.seq() == chars,
            out@ == Seq::new(it.index() as nat, |i: int| ascii_fold_char(chars[i])),
    {
        let v: u32 = c as u32;
        let low: u32 = v & 0x7f;
        assert(v & 0x7f == v % 128) by (bit_vector);
        let b: u8 = low as u8;
        push_char(&mut out, b as char);
        assert(out@ =~= Seq::new((it.index() + 1) as nat, |i: int| ascii_fold_char(chars[i])));
    }
    out
}

/// Law: folding any text gives ASCII text of the same length, so the
/// word-bound property never discards what hegel's run derives.
pub proof fn lemma_folded_text_is_ascii(s: Seq<char>)
    ensures
        vstd::utf8::is_ascii_chars(Seq::new(s.len(), |i: int| ascii_fold_char(s[i]))),
        Seq::new(s.len(), |i: int| ascii_fold_char(s[i])).len() == s.len(),
{
}

/// The text a hegel run's panic carries, with the fallback for a payload that
/// carries none.
pub open spec fn hegel_panic_text(p: PanicPayload) -> Seq<char> {
    panic_text_or(p, "hegel panicked with non-string payload"@)
}

/// Law: a hegel run passes exactly when it did not panic. A run that
/// panicked, whatever its payload, is an error: the refusal of the name that
/// follows the unknown-property marker where its text starts with that
/// marker, and otherwise a counterexample whose message ends with the panic's
/// text.
pub proof fn lemma_hegel_panic_never_passes(p: PanicPayload)
    ensures
        hegel_message(None) is Ok,
        hegel_message(Some(p)) is Err,
        without_prefix(hegel_panic_text(p), unknown_marker()) matches Some(rest) ==> hegel_message(Some(p))
            == Err::<(), Seq<char>>(unknown_property_message(Tool::Hegel, rest)),
        without_prefix(hegel_panic_text(p), unknown_marker()) is None ==> (hegel_message(Some(p)) matches Err(m)
            && ends_with(m, hegel_panic_text(p))),
{
    lemma_ends_with_concat("hegel found counterexample: "@, hegel_panic_text(p));
}

/// Law: how a hegel run reads depends on the text of its panic alone, not on
/// whether that text was an owned or a static string.
pub proof fn lemma_hegel_reads_text_not_payload_kind(p: PanicPayload, q: PanicPayload)
    requires
        hegel_panic_text(p) == hegel_panic_text(q),
    ensures
        hegel_message(Some(p)) == hegel_message(Some(q)),
{
}

/// Law: a framework's status reads as success exactly when the run finished;
/// a failure on any arguments, an abort, a timeout or giving up is an error
/// whose message starts with the framework's name.
pub proof fn lemma_status_ok_only_when_finished(tool: Tool, status: RunStatus)
    ensures
        status_message(tool, status) is Ok <==> status is Finished,
        status is Failed ==> status_message(tool, status) is Err,
        status_message(tool, status) matches Err(m) ==> tool_label(tool).len() <= m.len() && m.subrange(
            0,
            tool_label(tool).len() as int,
        ) == tool_label(tool),
{
    if let Err(m) = status_message(tool, status) {
        let l = tool_label(tool);
        assert(m.subrange(0, l.len() as int) =~= l);
    }
}

proof fn lemma_joined_contains(v: Seq<Seq<char>>, sep: Seq<char>, i: int)
    requires
        0 <= i < v.len(),
    ensures
        contains_text(joined(v, sep), v[i]),
    decreases v.len(),
{
    if v.len() == 1 {
        crate::verdict::lemma_contains_self(v[0]);
    } else if i == v.len() - 1 {
        lemma_contains_end(joined(v.drop_last(), sep) + sep, v.last());
    } else {
        lemma_joined_contains(v.drop_last(), sep, i);
        assert(v.drop_last()[i] == v[i]);
        lemma_contains_within(Seq::empty(), joined(v.drop_last(), sep), sep + v.last(), v[i]);
        assert(Seq::<char>::empty() + joined(v.drop_last(), sep) + (sep + v.last()) =~= joined(v, sep));
    }
}

/// Law: the error for a framework's status carries what the framework said:
/// every argument of a counterexample, the error of an abort, and both counts
/// of a run that gave up.
pub proof fn lemma_status_error_carries_details(tool: Tool, status: RunStatus)
    ensures
        status matches RunStatus::Failed { arguments } ==> (status_message(tool, status) matches Err(m)
            && forall|i: int| 0 <= i < arguments@.len() ==> contains_text(m, #[trigger] arguments@[i]@)),
        status matches RunStatus::Aborted { error } ==> (status_message(tool, status) matches Err(m)
            && contains_text(m, error@)),
        status matches RunStatus::GaveUp { passed, discarded } ==> (status_message(tool, status) matches Err(m)
            && contains_text(m, decimal(passed as nat)) && contains_text(m, decimal(discarded as nat))),
{
    let l = tool_label(tool);
    match status {
        RunStatus::Failed { arguments } => {
            let ts = texts(arguments@);
            let j = joined(ts, " "@);
            let a = l + " failed with counterexample: ("@;
            assert forall|i: int| 0 <= i < arguments@.len() implies contains_text(
                a + j + ")"@,
                #[trigger] arguments@[i]@,
            ) by {
                lemma_joined_contains(ts, " "@, i);
                lemma_contains_within(a, j, ")"@, ts[i]);
            }
        },
        RunStatus::Aborted { error } => {
            lemma_contains_end(l + " aborted: "@, error@);
        },
        RunStatus::GaveUp { passed, discarded } => {
            let dp = decimal(passed as nat);
            let dd = decimal(discarded as nat);
            let a = l + " gave up: passed="@;
            lemma_contains_middle(a, dp, ", discarded="@ + dd);
            assert(a + dp + (", discarded="@ + dd) =~= a + dp + ", discarded="@ + dd);
            lemma_contains_end(a + dp + ", discarded="@, dd);
        },
        _ => {},
    }
}

} // verus!
