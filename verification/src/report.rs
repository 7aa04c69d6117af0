//! The one line of JSON that a run of the workload prints.

use vstd::prelude::*;
use crate::metrics::{Metrics, Outcome};
use crate::panic_payload::{panic_text, panic_text_or, PanicPayload};
use crate::render::{
    decimal, digit_char, hex_digit_char, json_escape, json_escape_char, json_literal, json_str,
    push_decimal, push_text,
};

verus! {

/// A JSON string literal, or `null` where there is no text.
pub open spec fn json_or_null(t: Option<Seq<char>>) -> Seq<char> {
    match t {
        Some(s) => json_literal(s),
        None => "null"@,
    }
}

/// The JSON object that reports a run: its status, the number of inputs tried,
/// no discards, the time taken in microseconds, the counterexample and the
/// error (each a string or `null`), and the tool and property run.
pub open spec fn report_json(
    tool: Seq<char>,
    property: Seq<char>,
    status: Seq<char>,
    inputs: nat,
    elapsed_us: nat,
    counterexample: Option<Seq<char>>,
    error: Option<Seq<char>>,
) -> Seq<char> {
    "{\"status\":"@ + json_literal(status) + ",\"tests\":"@ + decimal(inputs)
        + ",\"discards\":0,\"time\":"@ + json_literal(decimal(elapsed_us) + "us"@)
        + ",\"counterexample\":"@ + json_or_null(counterexample) + ",\"error\":"@
        + json_or_null(error) + ",\"tool\":"@ + json_literal(tool) + ",\"property\":"@
        + json_literal(property) + "}"@
}

/// An optional string slice taken as characters.
pub open spec fn opt_text(t: Option<&str>) -> Option<Seq<char>> {
    match t {
        Some(s) => Some(s@),
        None => None,
    }
}

fn push_json_or_null(out: &mut String, t: Option<&str>)
    ensures
        final(out)@ == old(out)@ + json_or_null(opt_text(t)),
{
    match t {
        Some(s) => {
            let j = json_str(s);
            push_text(out, j.as_str());
        },
        None => push_text(out, "null"),
    }
}

/// Renders the JSON object that reports a run.
pub fn report_line(
    tool: &str,
    property: &str,
    status: &str,
    metrics: Metrics,
    counterexample: Option<&str>,
    error: Option<&str>,
) -> (line: String)
    ensures
        line@ == report_json(
            tool@,
            property@,
            status@,
            metrics.inputs as nat,
            metrics.elapsed_us as nat,
            opt_text(counterexample),
            opt_text(error),
        ),
{
    let mut out = String::new();
    push_text(&mut out, "{\"status\":");
    let j = json_str(status);
    push_text(&mut out, j.as_str());
    push_text(&mut out, ",\"tests\":");
    push_decimal(&mut out, metrics.inputs as u128);
    push_text(&mut out, ",\"discards\":0,\"time\":");
    let mut time = String::new();
    push_decimal(&mut time, metrics.elapsed_us);
    push_text(&mut time, "us");
    let j = json_str(time.as_str());
    push_text(&mut out, j.as_str());
    push_text(&mut out, ",\"counterexample\":");
    push_json_or_null(&mut out, counterexample);
    push_text(&mut out, ",\"error\":");
    push_json_or_null(&mut out, error);
    push_text(&mut out, ",\"tool\":");
    let j = json_str(tool);
    push_text(&mut out, j.as_str());
    push_text(&mut out, ",\"property\":");
    let j = json_str(property);
    push_text(&mut out, j.as_str());
    push_text(&mut out, "}");
    out
}

/// The line that reports a run of `property` with `tool`: where the run
/// panicked, an aborted run at no cost whose error quotes the panic; else a
/// passed run, or a failed one whose counterexample is the failure's message,
/// with what the run cost.
pub open spec fn final_report_json(tool: Seq<char>, property: Seq<char>, caught: Result<Outcome, PanicPayload>) -> Seq<char> {
    match caught {
        Err(p) => report_json(
            tool,
            property,
            "aborted"@,
            0,
            0,
            None,
            Some("adapter panic: "@ + panic_text_or(p, "panic with non-string payload"@)),
        ),
        Ok((Ok(_), m)) => report_json(tool, property, "passed"@, m.inputs as nat, m.elapsed_us as nat, None, None),
        Ok((Err(msg), m)) => report_json(
            tool,
            property,
            "failed"@,
            m.inputs as nat,
            m.elapsed_us as nat,
            Some(msg@),
            None,
        ),
    }
}

/// Renders the line that reports a run of `property` with `tool`; `caught` is
/// what the run came to, or the payload of the panic that ended it.
pub fn final_report(tool: &str, property: &str, caught: Result<Outcome, PanicPayload>) -> (line: String)
    ensures
        line@ == final_report_json(tool@, property@, caught),
{
    match caught {
        Err(p) => {
            let msg = panic_text(&p, "panic with non-string payload");
            let mut e = String::new();
            push_text(&mut e, "adapter panic: ");
            push_text(&mut e, msg.as_str());
            report_line(tool, property, "aborted", Metrics::default(), None, Some(e.as_str()))
        },
        Ok((Ok(()), m)) => report_line(tool, property, "passed", m, None, None),
        Ok((Err(msg), m)) => report_line(tool, property, "failed", m, Some(msg.as_str()), None),
    }
}

/// No character of `s` is a control character below U+0020; in particular
/// `s` holds no line break.
pub open spec fn no_control_chars(s: Seq<char>) -> bool {
    forall|i: int| 0 <= i < s.len() ==> (#[trigger] s[i] as u32) >= 0x20
}

proof fn lemma_concat_no_control(a: Seq<char>, b: Seq<char>)
    requires
        no_control_chars(a),
        no_control_chars(b),
    ensures
        no_control_chars(a + b),
{
    assert forall|i: int| 0 <= i < (a + b).len() implies ((#[trigger] (a + b)[i]) as u32) >= 0x20 by {
        if i < a.len() {
            assert((a + b)[i] == a[i]);
        } else {
            assert((a + b)[i] == b[i - a.len()]);
        }
    }
}

proof fn lemma_escape_char_no_control(c: char)
    ensures
        no_control_chars(json_escape_char(c)),
{
    let v: u32 = c as u32;
    if v < 0x20 && c != '"' && c != '\\' && c != '\n' && c != '\r' && c != '\t' {
        assert(v as int / 16 < 2);
        let e = json_escape_char(c);
        assert(e[4] == hex_digit_char(v as int / 16));
        assert(e[5] == hex_digit_char(v as int % 16));
    }
}

proof fn lemma_escape_no_control(s: Seq<char>)
    ensures
        no_control_chars(json_escape(s)),
    decreases s.len(),
{
    if s.len() > 0 {
        lemma_escape_no_control(s.drop_last());
        lemma_escape_char_no_control(s.last());
        lemma_concat_no_control(json_escape(s.drop_last()), json_escape_char(s.last()));
    }
}

/// Law: a JSON literal holds no control character below U+0020, so it never
/// breaks a line.
pub proof fn lemma_literal_no_control(s: Seq<char>)
    ensures
        no_control_chars(json_literal(s)),
{
    lemma_escape_no_control(s);
    lemma_concat_no_control(seq!['"'], json_escape(s));
    lemma_concat_no_control(seq!['"'] + json_escape(s), seq!['"']);
}

proof fn lemma_decimal_no_control(n: nat)
    ensures
        no_control_chars(decimal(n)),
    decreases n,
{
    if n >= 10 {
        lemma_decimal_no_control(n / 10);
        assert(no_control_chars(seq![digit_char((n % 10) as int)]));
        lemma_concat_no_control(decimal(n / 10), seq![digit_char((n % 10) as int)]);
        assert(decimal(n) =~= decimal(n / 10) + seq![digit_char((n % 10) as int)]);
    }
}

proof fn lemma_json_or_null_no_control(t: Option<Seq<char>>)
    ensures
        no_control_chars(json_or_null(t)),
{
    reveal_strlit("null");
    if let Some(s) = t {
        lemma_literal_no_control(s);
    }
}

/// Law: the report of a run is one line. No character of it is a control
/// character, so it holds no line break and `println!` prints it as exactly
/// one line, whatever the texts it quotes.
pub proof fn lemma_report_is_one_line(
    tool: Seq<char>,
    property: Seq<char>,
    status: Seq<char>,
    inputs: nat,
    elapsed_us: nat,
    counterexample: Option<Seq<char>>,
    error: Option<Seq<char>>,
)
    ensures
        no_control_chars(report_json(tool, property, status, inputs, elapsed_us, counterexample, error)),
{
    reveal_strlit("{\"status\":");
    reveal_strlit(",\"tests\":");
    reveal_strlit(",\"discards\":0,\"time\":");
    reveal_strlit("us");
    reveal_strlit(",\"counterexample\":");
    reveal_strlit(",\"error\":");
    reveal_strlit(",\"tool\":");
    reveal_strlit(",\"property\":");
    reveal_strlit("}");
    lemma_literal_no_control(status);
    lemma_decimal_no_control(inputs);
    lemma_decimal_no_control(elapsed_us);
    lemma_concat_no_control(decimal(elapsed_us), "us"@);
    lemma_literal_no_control(decimal(elapsed_us) + "us"@);
    lemma_json_or_null_no_control(counterexample);
    lemma_json_or_null_no_control(error);
    lemma_literal_no_control(tool);
    lemma_literal_no_control(property);
    let acc = "{\"status\":"@;
    lemma_concat_no_control(acc, json_literal(status));
    let acc = acc + json_literal(status);
    lemma_concat_no_control(acc, ",\"tests\":"@);
    let acc = acc + ",\"tests\":"@;
    lemma_concat_no_control(acc, decimal(inputs));
    let acc = acc + decimal(inputs);
    lemma_concat_no_control(acc, ",\"discards\":0,\"time\":"@);
    let acc = acc + ",\"discards\":0,\"time\":"@;
    lemma_concat_no_control(acc, json_literal(decimal(elapsed_us) + "us"@));
    let acc = acc + json_literal(decimal(elapsed_us) + "us"@);
    lemma_concat_no_control(acc, ",\"counterexample\":"@);
    let acc = acc + ",\"counterexample\":"@;
    lemma_concat_no_control(acc, json_or_null(counterexample));
    let acc = acc + json_or_null(counterexample);
    lemma_concat_no_control(acc, ",\"error\":"@);
    let acc = acc + ",\"error\":"@;
    lemma_concat_no_control(acc, json_or_null(error));
    let acc = acc + json_or_null(error);
    lemma_concat_no_control(acc, ",\"tool\":"@);
    let acc = acc + ",\"tool\":"@;
    lemma_concat_no_control(acc, json_literal(tool));
    let acc = acc + json_literal(tool);
    lemma_concat_no_control(acc, ",\"property\":"@);
    let acc = acc + ",\"property\":"@;
    lemma_concat_no_control(acc, json_literal(property));
    let acc = acc + json_literal(property);
    lemma_concat_no_control(acc, "}"@);
    let acc = acc + "}"@;
}

/// Law: whatever a run came to, even a panic, its report is one line.
pub proof fn lemma_final_report_is_one_line(
    tool: Seq<char>,
    property: Seq<char>,
    caught: Result<Outcome, PanicPayload>,
)
    ensures
        no_control_chars(final_report_json(tool, property, caught)),
{
    match caught {
        Err(p) => lemma_report_is_one_line(
            tool,
            property,
            "aborted"@,
            0,
            0,
            None,
            Some("adapter panic: "@ + panic_text_or(p, "panic with non-string payload"@)),
        ),
        Ok((Ok(_), m)) => lemma_report_is_one_line(
            tool,
            property,
            "passed"@,
            m.inputs as nat,
            m.elapsed_us as nat,
            None,
            None,
        ),
        Ok((Err(msg), m)) => lemma_report_is_one_line(
            tool,
            property,
            "failed"@,
            m.inputs as nat,
            m.elapsed_us as nat,
            Some(msg@),
            None,
        ),
    }
}

} // verus!
