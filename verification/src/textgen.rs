//! The texts that random generation and mutation produce: arbitrary text of at
//! most sixteen characters, and ASCII text of at most thirty-two bytes.
//!
//! The random draws themselves are made by the caller; these functions take
//! what was drawn.

use vstd::prelude::*;
use vstd::string::StrSliceExecFns;
use vstd::utf8::{decode_utf8, encode_utf8, is_ascii_chars, valid_utf8};

verus! {

broadcast use vstd::utf8::encode_utf8_valid_utf8, vstd::utf8::encode_utf8_decode_utf8;

/// The most characters an arbitrary text holds.
pub const ANY_TEXT_MAX_CHARS: usize = 16;

/// The most bytes an ASCII text holds.
pub const ASCII_TEXT_MAX_BYTES: usize = 32;

/// Calls `String::from_utf8` and keeps the string, dropping the error.
/// Claims that the result is `Some` exactly when the bytes are valid UTF-8,
/// and that the string then holds the characters whose UTF-8 encoding they
/// are.
#[verifier::external_body]
fn string_from_utf8(bytes: Vec<u8>) -> (r: Option<String>)
    ensures
        r is Some <==> valid_utf8(bytes@),
        r matches Some(s) ==> encode_utf8(s@) == bytes@,
{
    String::from_utf8(bytes).ok()
}

/// The text made of the given characters, in order.
pub fn chars_to_text(chars: &Vec<char>) -> (s: String)
    ensures
        s@ == chars@,
{
    let mut s = String::new();
    let mut i: usize = 0;
    while i < chars.len()
        invariant
            i <= chars.len(),
            s@ == chars@.take(i as int),
        decreases chars.len() - i,
    {
        crate::render::push_char(&mut s, chars[i]);
        assert(chars@.take(i + 1) =~= chars@.take(i as int).push(chars@[i as int]));
        i = i + 1;
    }
    assert(chars@.take(chars.len() as int) =~= chars@);
    s
}

/// The characters of a text, in order.
pub fn text_chars(s: &str) -> (v: Vec<char>)
    ensures
        v@ == s@,
{
    let mut v: Vec<char> = Vec::new();
    let ghost chars = s@;
    for c in it: s.chars()
        invariant
            it.seq() == chars,
            v@ == chars.take(it.index()),
    {
        v.push(c);
        assert(chars.take(it.index() + 1) =~= chars.take(it.index()).push(c));
    }
    assert(chars.take(chars.len() as int) =~= chars);
    v
}

/// The character with each byte's value as its code point.
pub open spec fn byte_chars(bytes: Seq<u8>) -> Seq<char> {
    Seq::new(bytes.len(), |i: int| bytes[i] as char)
}

/// The text whose characters have the given bytes as code points, in order.
pub fn bytes_as_chars(bytes: &Vec<u8>) -> (s: String)
    ensures
        s@ == byte_chars(bytes@),
{
    let mut s = String::new();
    let mut i: usize = 0;
    while i < bytes.len()
        invariant
            i <= bytes.len(),
            s@ == byte_chars(bytes@.take(i as int)),
        decreases bytes.len() - i,
    {
        crate::render::push_char(&mut s, bytes[i] as char);
        assert(byte_chars(bytes@.take(i + 1)) =~= byte_chars(bytes@.take(i as int)).push(bytes[i as int] as char));
        i = i + 1;
    }
    assert(bytes@.take(bytes.len() as int) =~= bytes@);
    s
}

/// The text that `bytes` encode, or the empty text where they are not valid
/// UTF-8.
pub fn text_from_utf8_or_empty(bytes: Vec<u8>) -> (s: String)
    ensures
        valid_utf8(bytes@) ==> encode_utf8(s@) == bytes@,
        !valid_utf8(bytes@) ==> s@ == Seq::<char>::empty(),
{
    match string_from_utf8(bytes) {
        Some(s) => s,
        None => String::new(),
    }
}

/// What one mutation step does to a sequence.
#[derive(Clone, Copy, PartialEq, Eq, Structural, Debug)]
pub enum Mutation {
    /// Overwrite one element with a new one.
    Replace,
    /// Add a new element at the end.
    Push,
    /// Remove the last element.
    Pop,
    /// Leave the sequence as it is.
    Keep,
}

/// The step that the drawn `choice` (in `0..3`) selects for a sequence of
/// `len` elements that may hold at most `cap`: `0` overwrites and `1` grows
/// where that is possible; otherwise a nonempty sequence shrinks and an empty
/// one stays.
pub open spec fn mutation_for(choice: u8, len: nat, cap: nat) -> Mutation {
    if choice == 0 && len > 0 {
        Mutation::Replace
    } else if choice == 1 && len < cap {
        Mutation::Push
    } else if len > 0 {
        Mutation::Pop
    } else {
        Mutation::Keep
    }
}

/// Selects the mutation step for the drawn `choice`.
pub fn plan_mutation(choice: u8, len: usize, cap: usize) -> (m: Mutation)
    ensures
        m == mutation_for(choice, len as nat, cap as nat),
{
    if choice == 0 && len > 0 {
        Mutation::Replace
    } else if choice == 1 && len < cap {
        Mutation::Push
    } else if len > 0 {
        Mutation::Pop
    } else {
        Mutation::Keep
    }
}

/// A sequence after one mutation step, with `x` as the new element and
/// `index` as the place overwritten.
pub open spec fn mutated<T>(s: Seq<T>, m: Mutation, index: int, x: T) -> Seq<T> {
    match m {
        Mutation::Replace => s.update(index, x),
        Mutation::Push => s.push(x),
        Mutation::Pop => if s.len() > 0 {
            s.drop_last()
        } else {
            s
        },
        Mutation::Keep => s,
    }
}

/// Applies one mutation step to a vector.
pub fn apply_mutation<T>(v: &mut Vec<T>, m: Mutation, index: usize, x: T)
    requires
        m == Mutation::Replace ==> index < old(v).len(),
    ensures
        final(v)@ == mutated(old(v)@, m, index as int, x),
{
    match m {
        Mutation::Replace => {
            v.set(index, x);
        },
        Mutation::Push => {
            v.push(x);
        },
        Mutation::Pop => {
            v.pop();
        },
        Mutation::Keep => {},
    }
}

/// Mutates an arbitrary text character by character: `c` is the drawn
/// character and `index` the drawn place to overwrite.
pub fn mutate_any_text(s: &str, m: Mutation, index: usize, c: char) -> (r: String)
    requires
        m == Mutation::Replace ==> index < s@.len(),
    ensures
        r@ == mutated(s@, m, index as int, c),
{
    let mut chars = text_chars(s);
    apply_mutation(&mut chars, m, index, c);
    chars_to_text(&chars)
}

/// Mutates an ASCII text byte by byte: `b` is the drawn byte and `index` the
/// drawn place to overwrite; where the bytes that result are not valid UTF-8
/// the result is the empty text.
pub fn mutate_ascii_text(s: &str, m: Mutation, index: usize, b: u8) -> (r: String)
    requires
        m == Mutation::Replace ==> index < encode_utf8(s@).len(),
    ensures
        valid_utf8(mutated(encode_utf8(s@), m, index as int, b)) ==> encode_utf8(r@) == mutated(
            encode_utf8(s@),
            m,
            index as int,
            b,
        ),
        !valid_utf8(mutated(encode_utf8(s@), m, index as int, b)) ==> r@ == Seq::<char>::empty(),
        is_ascii_chars(s@) && b < 128 ==> r@ == mutated(s@, m, index as int, b as char),
{
    let mut bytes = s.as_bytes_vec();
    apply_mutation(&mut bytes, m, index, b);
    proof {
        if is_ascii_chars(s@) && b < 128 {
            vstd::utf8::is_ascii_chars_encode_utf8(s@);
            lemma_ascii_mutation(s@, m, index as int, b);
        }
    }
    let r = text_from_utf8_or_empty(bytes);
    proof {
        if is_ascii_chars(s@) && b < 128 {
            let t = mutated(s@, m, index as int, b as char);
            assert(decode_utf8(encode_utf8(r@)) == r@);
            assert(decode_utf8(encode_utf8(t)) == t);
        }
    }
    r
}

/// Law: mutating an ASCII text byte by byte with an ASCII byte gives valid
/// UTF-8, namely the ASCII text mutated character by character.
pub proof fn lemma_ascii_mutation(s: Seq<char>, m: Mutation, index: int, b: u8)
    requires
        is_ascii_chars(s),
        b < 128,
        m == Mutation::Replace ==> 0 <= index < s.len(),
    ensures
        is_ascii_chars(mutated(s, m, index, b as char)),
        mutated(encode_utf8(s), m, index, b) == encode_utf8(mutated(s, m, index, b as char)),
        valid_utf8(mutated(encode_utf8(s), m, index, b)),
{
    let t = mutated(s, m, index, b as char);
    let bytes = mutated(encode_utf8(s), m, index, b);
    vstd::utf8::is_ascii_chars_encode_utf8(s);
    assert((b as char) as u32 == b as u32);
    assert(is_ascii_chars(t));
    vstd::utf8::is_ascii_chars_encode_utf8(t);
    assert forall|k: int| 0 <= k < bytes.len() implies bytes[k] == encode_utf8(t)[k] by {
        assert(encode_utf8(t)[k] == t[k] as u8);
        if (m == Mutation::Replace && k == index) || (m == Mutation::Push && k == s.len()) {
            assert(t[k] == b as char);
        } else {
            assert(t[k] == s[k]);
            assert(encode_utf8(s)[k] == s[k] as u8);
        }
    }
    assert(bytes =~= encode_utf8(t));
}

/// Law: bytes below 128 make ASCII text that encodes as exactly those bytes,
/// so texts generated from such bytes are never discarded by the word-bound
/// property.
pub proof fn lemma_ascii_bytes_make_ascii_text(bytes: Seq<u8>)
    requires
        forall|i: int| 0 <= i < bytes.len() ==> bytes[i] < 128,
    ensures
        is_ascii_chars(byte_chars(bytes)),
        encode_utf8(byte_chars(bytes)) == bytes,
{
    let t = byte_chars(bytes);
    assert forall|i: int| 0 <= i < t.len() implies '\0' <= #[trigger] t[i] <= '\u{7f}' by {
        assert(t[i] == bytes[i] as char);
        assert((bytes[i] as char) as u32 == bytes[i] as u32);
    }
    vstd::utf8::is_ascii_chars_encode_utf8(t);
    assert forall|i: int| 0 <= i < bytes.len() implies encode_utf8(t)[i] == bytes[i] by {
        assert(encode_utf8(t)[i] == t[i] as u8);
        assert((bytes[i] as char) as u32 == bytes[i] as u32);
    }
    assert(encode_utf8(t) =~= bytes);
}

/// `t` is `s` with one element overwritten, one added at the end, or the last
/// one removed (or `s` itself).
pub open spec fn one_step_apart<T>(s: Seq<T>, t: Seq<T>) -> bool {
    ||| t.len() == s.len() && forall|i: int, j: int|
        0 <= i < s.len() && 0 <= j < s.len() && #[trigger] s[i] != t[i] && #[trigger] s[j] != t[j] ==> i == j
    ||| t.len() == s.len() + 1 && t.subrange(0, s.len() as int) == s
    ||| t.len() + 1 == s.len() && s.subrange(0, t.len() as int) == t
}

/// Law: a mutation step, whatever was drawn, keeps a sequence within its cap
/// and changes it by at most one element: one overwritten, one added at the
/// end below the cap, or the last removed.
pub proof fn lemma_mutation_one_step<T>(s: Seq<T>, choice: u8, cap: nat, index: int, x: T)
    requires
        s.len() <= cap,
        s.len() > 0 ==> 0 <= index < s.len(),
    ensures
        mutated(s, mutation_for(choice, s.len(), cap), index, x).len() <= cap,
        one_step_apart(s, mutated(s, mutation_for(choice, s.len(), cap), index, x)),
        mutated(s, mutation_for(choice, s.len(), cap), index, x).len() == s.len() + 1 ==> s.len() < cap,
{
    let m = mutation_for(choice, s.len(), cap);
    let t = mutated(s, m, index, x);
    match m {
        Mutation::Replace => {
            assert forall|i: int, j: int|
                0 <= i < s.len() && 0 <= j < s.len() && #[trigger] s[i] != t[i] && #[trigger] s[j] != t[j] implies i
                == j by {
                if i != index {
                    assert(t[i] == s[i]);
                }
                if j != index {
                    assert(t[j] == s[j]);
                }
            }
        },
        Mutation::Push => {
            assert(t.subrange(0, s.len() as int) =~= s);
        },
        Mutation::Pop => {
            assert(s.subrange(0, t.len() as int) =~= t);
        },
        Mutation::Keep => {
            assert(t.len() == s.len());
        },
    }
}

/// Law: an ASCII text of at most thirty-two bytes, mutated with a drawn ASCII
/// byte, is again ASCII text of at most thirty-two bytes, one step apart from
/// the text it came from.
pub proof fn lemma_ascii_text_mutation(s: Seq<char>, choice: u8, index: int, b: u8)
    requires
        is_ascii_chars(s),
        s.len() <= ASCII_TEXT_MAX_BYTES,
        s.len() > 0 ==> 0 <= index < s.len(),
        b < 128,
    ensures
        ({
            let t = mutated(s, mutation_for(choice, s.len(), ASCII_TEXT_MAX_BYTES as nat), index, b as char);
            &&& is_ascii_chars(t)
            &&& encode_utf8(t).len() == t.len() <= ASCII_TEXT_MAX_BYTES
            &&& one_step_apart(s, t)
        }),
{
    let m = mutation_for(choice, s.len(), ASCII_TEXT_MAX_BYTES as nat);
    lemma_mutation_one_step(s, choice, ASCII_TEXT_MAX_BYTES as nat, index, b as char);
    lemma_ascii_mutation(s, m, index, b);
    vstd::utf8::is_ascii_chars_encode_utf8(mutated(s, m, index, b as char));
}

} // verus!
