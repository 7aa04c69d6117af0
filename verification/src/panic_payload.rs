//! What a panic left behind, and the message a failure report quotes from it.

use vstd::prelude::*;

verus! {

/// The payload of a caught panic, told apart by what it carries: the `String`
/// that `panic!` with arguments leaves, the `&str` that `panic!` with a bare
/// literal leaves, or anything else.
#[derive(Debug)]
pub enum PanicPayload {
    Owned(String),
    Static(String),
    Other,
}

/// The message of a panic: its text where the payload is text, else a fixed
/// placeholder.
pub open spec fn panic_message(p: PanicPayload) -> Seq<char> {
    match p {
        PanicPayload::Owned(s) => s@,
        PanicPayload::Static(s) => s@,
        PanicPayload::Other => "<non-string panic payload>"@,
    }
}

/// The text of a panic, or `fallback` where the payload is not text.
pub open spec fn panic_text_or(p: PanicPayload, fallback: Seq<char>) -> Seq<char> {
    match p {
        PanicPayload::Owned(s) => s@,
        PanicPayload::Static(s) => s@,
        PanicPayload::Other => fallback,
    }
}

/// The text of a panic, or `fallback` where the payload is not text.
pub fn panic_text(payload: &PanicPayload, fallback: &str) -> (msg: String)
    ensures
        msg@ == panic_text_or(*payload, fallback@),
{
    match payload {
        PanicPayload::Owned(s) => s.clone(),
        PanicPayload::Static(s) => s.clone(),
        PanicPayload::Other => fallback.to_owned(),
    }
}

/// The message that a failure report quotes for a caught panic.
pub fn downcast_panic(payload: &PanicPayload) -> (msg: String)
    ensures
        msg@ == panic_message(*payload),
{
    panic_text(payload, "<non-string panic payload>")
}

} // verus!
