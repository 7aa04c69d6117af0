//! The outcome of one property check, and the two ways runners read it.

use vstd::prelude::*;

verus! {

/// What one check of a property on one input concluded.
#[derive(Debug, PartialEq, Eq)]
pub enum PropertyResult {
    /// The invariant held.
    Pass,
    /// The invariant was broken; the text says how.
    Fail(String),
    /// The input lies outside the property's domain and says nothing.
    Discard,
}

/// A `PropertyResult` with its message taken as a sequence of characters.
pub enum Verdict {
    Pass,
    Fail(Seq<char>),
    Discard,
}

impl View for PropertyResult {
    type V = Verdict;

    open spec fn view(&self) -> Verdict {
        match self {
            PropertyResult::Pass => Verdict::Pass,
            PropertyResult::Fail(m) => Verdict::Fail(m@),
            PropertyResult::Discard => Verdict::Discard,
        }
    }
}

/// A verdict as runners that count discards read it.
pub open spec fn verdict_opt(v: Verdict) -> Option<bool> {
    match v {
        Verdict::Pass => Some(true),
        Verdict::Fail(_) => Some(false),
        Verdict::Discard => None,
    }
}

/// Reads a result the way runners that count discards do: `Some(true)` for a
/// pass, `Some(false)` for a failure, `None` for a discarded input.
pub fn to_opt(r: PropertyResult) -> (o: Option<bool>)
    ensures
        o == verdict_opt(r@),
{
    match r {
        PropertyResult::Pass => Some(true),
        PropertyResult::Fail(_) => Some(false),
        PropertyResult::Discard => None,
    }
}

/// A result whose error is taken as characters.
pub open spec fn result_view(r: Result<(), String>) -> Result<(), Seq<char>> {
    match r {
        Ok(_) => Ok(()),
        Err(m) => Err(m@),
    }
}

/// A verdict as runners without discards read it.
pub open spec fn verdict_err(v: Verdict) -> Result<(), Seq<char>> {
    match v {
        Verdict::Fail(m) => Err(m),
        _ => Ok(()),
    }
}

/// Reads a result the way runners without discards do: a pass or a discard is
/// `Ok(())`, a failure is its message as the error.
pub fn to_err(r: PropertyResult) -> (e: Result<(), String>)
    ensures
        result_view(e) == verdict_err(r@),
{
    match r {
        PropertyResult::Pass | PropertyResult::Discard => Ok(()),
        PropertyResult::Fail(m) => Err(m),
    }
}

/// Law: the two readings of a result agree. A result is an error to runners
/// without discards exactly when it is `Some(false)` to runners that count
/// discards, and then the error is the failure's message.
pub proof fn lemma_readings_agree(v: Verdict)
    ensures
        verdict_err(v) is Err <==> verdict_opt(v) == Some(false),
        verdict_err(v) is Ok <==> (verdict_opt(v) == Some(true) || verdict_opt(v) is None),
        v matches Verdict::Fail(m) ==> verdict_err(v) == Err::<(), Seq<char>>(m),
{
}

/// `m` ends with the characters of `t`.
pub open spec fn ends_with(m: Seq<char>, t: Seq<char>) -> bool {
    &&& t.len() <= m.len()
    &&& m.subrange(m.len() - t.len(), m.len() as int) == t
}

/// A text followed by `t` ends with `t`.
pub proof fn lemma_ends_with_concat(a: Seq<char>, t: Seq<char>)
    ensures
        ends_with(a + t, t),
{
    assert((a + t).subrange(a.len() as int, (a + t).len() as int) =~= t);
}

/// `t` occurs in `m` starting at position `i`.
pub open spec fn occurs_at(m: Seq<char>, t: Seq<char>, i: int) -> bool {
    &&& 0 <= i
    &&& i + t.len() <= m.len()
    &&& m.subrange(i, i + t.len()) == t
}

/// `t` occurs somewhere in `m`.
pub open spec fn contains_text(m: Seq<char>, t: Seq<char>) -> bool {
    exists|i: int| #[trigger] occurs_at(m, t, i)
}

/// What occurs in `b` occurs in `a + b + c`.
pub proof fn lemma_contains_within(a: Seq<char>, b: Seq<char>, c: Seq<char>, t: Seq<char>)
    requires
        contains_text(b, t),
    ensures
        contains_text(a + b + c, t),
{
    let k = choose|i: int| #[trigger] occurs_at(b, t, i);
    let m = a + b + c;
    assert(m.subrange(a.len() + k, a.len() + k + t.len()) =~= b.subrange(k, k + t.len()));
    assert(occurs_at(m, t, a.len() + k));
}

/// A text occurs in itself.
pub proof fn lemma_contains_self(t: Seq<char>)
    ensures
        contains_text(t, t),
{
    assert(t.subrange(0, t.len() as int) =~= t);
    assert(occurs_at(t, t, 0));
}

/// `t` occurs in `a + t + c`.
pub proof fn lemma_contains_middle(a: Seq<char>, t: Seq<char>, c: Seq<char>)
    ensures
        contains_text(a + t + c, t),
{
    lemma_contains_self(t);
    lemma_contains_within(a, t, c, t);
}

/// `t` occurs in `a + t`.
pub proof fn lemma_contains_end(a: Seq<char>, t: Seq<char>)
    ensures
        contains_text(a + t, t),
{
    lemma_contains_middle(a, t, Seq::empty());
    assert(a + t + Seq::<char>::empty() =~= a + t);
}

} // verus!
