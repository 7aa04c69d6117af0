//! Building text: decimal numerals, JSON string literals, and the two `String`
//! operations that everything else is built from.

use vstd::prelude::*;
use vstd::utf8::encode_utf8;

verus! {

/// Calls `String::push`. Claims that the string afterwards holds its old
/// characters followed by `c`.
#[verifier::external_body]
pub(crate) fn push_char(s: &mut String, c: char)
    ensures
        final(s)@ == old(s)@.push(c),
{
    s.push(c);
}

/// Calls `String::push_str`. Claims that the string afterwards holds its old
/// characters followed by those of `t`.
#[verifier::external_body]
pub(crate) fn push_text(s: &mut String, t: &str)
    ensures
        final(s)@ == old(s)@ + t@,
{
    s.push_str(t);
}

/// The decimal digit `d` (which is below ten) as a character.
pub open spec fn digit_char(d: int) -> char {
    (d + 48) as char
}

/// The decimal numeral of `n`, most significant digit first, without leading zeros.
pub open spec fn decimal(n: nat) -> Seq<char>
    decreases n,
{
    if n < 10 {
        seq![digit_char(n as int)]
    } else {
        decimal(n / 10).push(digit_char((n % 10) as int))
    }
}

fn digit(d: u128) -> (c: char)
    requires
        d < 10,
    ensures
        c == digit_char(d as int),
{
    let b: u8 = d as u8;
    (b + 48) as char
}

/// Appends the decimal numeral of `n` to `out`.
pub fn push_decimal(out: &mut String, n: u128)
    ensures
        final(out)@ == old(out)@ + decimal(n as nat),
    decreases n,
{
    if n < 10 {
        push_char(out, digit(n));
    } else {
        push_decimal(out, n / 10);
        push_char(out, digit(n % 10));
    }
}

/// The lower-case hexadecimal digit `d` (which is below sixteen).
pub open spec fn hex_digit_char(d: int) -> char {
    if d < 10 {
        (d + 48) as char
    } else {
        (d + 87) as char
    }
}

/// How one character stands inside a JSON string literal: the quote, the
/// backslash and the control characters escaped, everything else as it is.
pub open spec fn json_escape_char(c: char) -> Seq<char> {
    if c == '"' {
        seq!['\\', '"']
    } else if c == '\\' {
        seq!['\\', '\\']
    } else if c == '\n' {
        seq!['\\', 'n']
    } else if c == '\r' {
        seq!['\\', 'r']
    } else if c == '\t' {
        seq!['\\', 't']
    } else if (c as u32) < 0x20 {
        seq!['\\', 'u', '0', '0', hex_digit_char((c as u32) as int / 16), hex_digit_char((c as u32) as int % 16)]
    } else {
        seq![c]
    }
}

/// The characters of `s`, each escaped by `json_escape_char`, in order.
pub open spec fn json_escape(s: Seq<char>) -> Seq<char>
    decreases s.len(),
{
    if s.len() == 0 {
        Seq::empty()
    } else {
        json_escape(s.drop_last()) + json_escape_char(s.last())
    }
}

/// The JSON string literal that denotes `s`.
pub open spec fn json_literal(s: Seq<char>) -> Seq<char> {
    seq!['"'] + json_escape(s) + seq!['"']
}

fn hex_digit(d: u32) -> (c: char)
    requires
        d < 16,
    ensures
        c == hex_digit_char(d as int),
{
    let b: u8 = d as u8;
    if b < 10 {
        (b + 48) as char
    } else {
        (b + 87) as char
    }
}

/// Appends the escaped form of `c` to `out`.
fn push_json_escaped(out: &mut String, c: char)
    ensures
        final(out)@ == old(out)@ + json_escape_char(c),
{
    let ghost before = out@;
    if c == '"' {
        push_char(out, '\\');
        push_char(out, '"');
    } else if c == '\\' {
        push_char(out, '\\');
        push_char(out, '\\');
    } else if c == '\n' {
        push_char(out, '\\');
        push_char(out, 'n');
    } else if c == '\r' {
        push_char(out, '\\');
        push_char(out, 'r');
    } else if c == '\t' {
        push_char(out, '\\');
        push_char(out, 't');
    } else if (c as u32) < 0x20 {
        let v: u32 = c as u32;
        push_char(out, '\\');
        push_char(out, 'u');
        push_char(out, '0');
        push_char(out, '0');
        push_char(out, hex_digit(v / 16));
        push_char(out, hex_digit(v % 16));
    } else {
        push_char(out, c);
    }
    assert(out@ =~= before + json_escape_char(c));
}

/// Quotes `s` as a JSON string literal, escaping `"`, `\`, newline, carriage
/// return and tab by their short forms and the other control characters below
/// U+0020 as `\u00XX` with lower-case hex digits.
pub fn json_str(s: &str) -> (out: String)
    ensures
        out@ == json_literal(s@),
{
    let mut out = String::new();
    push_char(&mut out, '"');
    let ghost chars = s@;
    for c in it: s.chars()
        invariant
            it.seq() == chars,
            out@ == seq!['"'] + json_escape(chars.take(it.index())),
    {
        push_json_escaped(&mut out, c);
        assert(chars.take(it.index() + 1).drop_last() =~= chars.take(it.index()));
    }
    assert(chars.take(chars.len() as int) =~= chars);
    push_char(&mut out, '"');
    out
}

proof fn lemma_escape_concat(a: Seq<char>, b: Seq<char>)
    ensures
        json_escape(a + b) == json_escape(a) + json_escape(b),
    decreases b.len(),
{
    if b.len() == 0 {
        assert(a + b =~= a);
        assert(json_escape(a) + json_escape(b) =~= json_escape(a));
    } else {
        lemma_escape_concat(a, b.drop_last());
        assert((a + b).drop_last() =~= a + b.drop_last());
        assert((a + b).last() == b.last());
        assert(json_escape(a + b) =~= json_escape(a) + json_escape(b));
    }
}

proof fn lemma_escape_front(s: Seq<char>)
    requires
        s.len() > 0,
    ensures
        json_escape(s) == json_escape_char(s[0]) + json_escape(s.skip(1)),
{
    let head = seq![s[0]];
    lemma_escape_concat(head, s.skip(1));
    assert(head + s.skip(1) =~= s);
    assert(head.drop_last() =~= Seq::<char>::empty());
    assert(json_escape(head.drop_last()) == Seq::<char>::empty());
    assert(head.last() == s[0]);
    assert(json_escape(head) =~= json_escape_char(s[0]));
}

proof fn lemma_hex_digit_injective(x: int, y: int)
    requires
        0 <= x < 16,
        0 <= y < 16,
        hex_digit_char(x) == hex_digit_char(y),
    ensures
        x == y,
{
    assert((hex_digit_char(x) as u32) == if x < 10 { x + 48 } else { x + 87 });
    assert((hex_digit_char(y) as u32) == if y < 10 { y + 48 } else { y + 87 });
}

proof fn lemma_escape_char_shape(c: char)
    ensures
        json_escape_char(c).len() >= 1,
        json_escape_char(c)[0] != '\\' ==> json_escape_char(c) == seq![c],
        json_escape_char(c)[0] == '\\' ==> json_escape_char(c).len() >= 2,
        json_escape_char(c)[0] == '\\' && json_escape_char(c)[1] == 'u' ==> json_escape_char(c).len() == 6
            && (c as u32) < 0x20,
        json_escape_char(c)[0] == '\\' && json_escape_char(c)[1] != 'u' ==> json_escape_char(c).len() == 2,
{
}

proof fn lemma_escape_token(c: char, d: char, r1: Seq<char>, r2: Seq<char>)
    requires
        json_escape_char(c) + r1 == json_escape_char(d) + r2,
    ensures
        c == d,
        r1 == r2,
{
    let ec = json_escape_char(c);
    let ed = json_escape_char(d);
    lemma_escape_char_shape(c);
    lemma_escape_char_shape(d);
    assert((ec + r1)[0] == ec[0]);
    assert((ed + r2)[0] == ed[0]);
    if ec[0] == '\\' {
        assert((ec + r1)[1] == ec[1]);
        assert((ed + r2)[1] == ed[1]);
        if ec[1] == 'u' {
            let vc: int = (c as u32) as int;
            let vd: int = (d as u32) as int;
            assert((ec + r1)[4] == ec[4]);
            assert((ed + r2)[4] == ed[4]);
            assert((ec + r1)[5] == ec[5]);
            assert((ed + r2)[5] == ed[5]);
            lemma_hex_digit_injective(vc / 16, vd / 16);
            lemma_hex_digit_injective(vc % 16, vd % 16);
            assert(vc == vd);
            vstd::utf8::char_u32_cast(c, c as u32);
            vstd::utf8::char_u32_cast(d, d as u32);
        }
    }
    assert(ec.len() == ed.len());
    assert(ec =~= (ec + r1).subrange(0, ec.len() as int));
    assert(ed =~= (ed + r2).subrange(0, ed.len() as int));
    assert(ec == ed);
    assert(r1 =~= (ec + r1).subrange(ec.len() as int, (ec + r1).len() as int));
    assert(r2 =~= (ed + r2).subrange(ed.len() as int, (ed + r2).len() as int));
}

proof fn lemma_escape_injective(a: Seq<char>, b: Seq<char>)
    requires
        json_escape(a) == json_escape(b),
    ensures
        a == b,
    decreases a.len(),
{
    if a.len() == 0 {
        if b.len() > 0 {
            lemma_escape_front(b);
            lemma_escape_char_shape(b[0]);
        }
        assert(a =~= b);
    } else {
        lemma_escape_front(a);
        lemma_escape_char_shape(a[0]);
        if b.len() == 0 {
            assert(json_escape(a).len() >= 1);
            assert(json_escape(b).len() == 0);
        }
        lemma_escape_front(b);
        lemma_escape_token(a[0], b[0], json_escape(a.skip(1)), json_escape(b.skip(1)));
        lemma_escape_injective(a.skip(1), b.skip(1));
        assert(a =~= seq![a[0]] + a.skip(1));
        assert(b =~= seq![b[0]] + b.skip(1));
    }
}

/// Law: a JSON literal determines the text it quotes, so different texts are
/// never reported alike.
pub proof fn lemma_json_literal_injective(a: Seq<char>, b: Seq<char>)
    requires
        json_literal(a) == json_literal(b),
    ensures
        a == b,
{
    let la = json_literal(a);
    let lb = json_literal(b);
    assert(json_escape(a) =~= la.subrange(1, la.len() - 1));
    assert(json_escape(b) =~= lb.subrange(1, lb.len() - 1));
    lemma_escape_injective(a, b);
}

/// The value of a hexadecimal digit of either case, or `-1` for any other
/// character.
pub open spec fn hex_value(c: char) -> int {
    let v = c as u32 as int;
    if 48 <= v <= 57 {
        v - 48
    } else if 97 <= v <= 102 {
        v - 87
    } else if 65 <= v <= 70 {
        v - 55
    } else {
        -1
    }
}

/// The value of the four hexadecimal digits at `t[i..i + 4]`, or `-1` where
/// one of them is not a hexadecimal digit.
pub open spec fn hex4_value(t: Seq<char>, i: int) -> int {
    let (a, b, c, d) = (hex_value(t[i]), hex_value(t[i + 1]), hex_value(t[i + 2]), hex_value(t[i + 3]));
    if a < 0 || b < 0 || c < 0 || d < 0 {
        -1
    } else {
        ((a * 16 + b) * 16 + c) * 16 + d
    }
}

/// `c` in front of a decoded text; nothing where decoding failed.
pub open spec fn prepend_decoded(c: char, rest: Option<Seq<char>>) -> Option<Seq<char>> {
    match rest {
        Some(r) => Some(seq![c] + r),
        None => None,
    }
}

/// Decodes the characters between the quotes of a JSON string literal as
/// RFC 8259 reads them: any character but the quote, the backslash and the
/// control characters below U+0020 stands for itself; `\"`, `\\`, `\/`, `\b`,
/// `\f`, `\n`, `\r` and `\t` are the short escapes; `\uXXXX` denotes a
/// character by four hex digits of either case, a character above U+FFFF by
/// a high and a low surrogate in two such escapes. Anything else, a lone
/// surrogate included, decodes to `None`.
pub open spec fn json_decode_body(t: Seq<char>) -> Option<Seq<char>>
    decreases t.len(),
{
    if t.len() == 0 {
        Some(Seq::empty())
    } else if t[0] == '"' || (t[0] as u32) < 0x20 {
        None
    } else if t[0] != '\\' {
        prepend_decoded(t[0], json_decode_body(t.skip(1)))
    } else if t.len() < 2 {
        None
    } else if t[1] == '"' || t[1] == '\\' || t[1] == '/' {
        prepend_decoded(t[1], json_decode_body(t.skip(2)))
    } else if t[1] == 'b' {
        prepend_decoded(8u32 as char, json_decode_body(t.skip(2)))
    } else if t[1] == 'f' {
        prepend_decoded(12u32 as char, json_decode_body(t.skip(2)))
    } else if t[1] == 'n' {
        prepend_decoded('\n', json_decode_body(t.skip(2)))
    } else if t[1] == 'r' {
        prepend_decoded('\r', json_decode_body(t.skip(2)))
    } else if t[1] == 't' {
        prepend_decoded('\t', json_decode_body(t.skip(2)))
    } else if t[1] != 'u' || t.len() < 6 || hex4_value(t, 2) < 0 {
        None
    } else {
        let v = hex4_value(t, 2);
        if 0xDC00 <= v < 0xE000 {
            None
        } else if 0xD800 <= v < 0xDC00 {
            if t.len() < 12 || t[6] != '\\' || t[7] != 'u' || !(0xDC00 <= hex4_value(t, 8) < 0xE000) {
                None
            } else {
                let cp = 0x10000 + (v - 0xD800) * 0x400 + (hex4_value(t, 8) - 0xDC00);
                prepend_decoded((cp as u32) as char, json_decode_body(t.skip(12)))
            }
        } else {
            prepend_decoded((v as u32) as char, json_decode_body(t.skip(6)))
        }
    }
}

/// Decodes a JSON string literal: a quote, a body as `json_decode_body`
/// reads it, and a closing quote.
pub open spec fn json_decode_literal(t: Seq<char>) -> Option<Seq<char>> {
    if t.len() >= 2 && t[0] == '"' && t[t.len() - 1] == '"' {
        json_decode_body(t.subrange(1, t.len() - 1))
    } else {
        None
    }
}

proof fn lemma_hex_digit_value(d: int)
    requires
        0 <= d < 16,
    ensures
        hex_value(hex_digit_char(d)) == d,
{
    assert((hex_digit_char(d) as u32) == if d < 10 { d + 48 } else { d + 87 });
}

proof fn lemma_decode_escape_char(c: char, rest: Seq<char>)
    ensures
        json_decode_body(json_escape_char(c) + rest) == prepend_decoded(c, json_decode_body(rest)),
{
    let e = json_escape_char(c);
    let t = e + rest;
    let v: int = (c as u32) as int;
    if c == '"' || c == '\\' || c == '\n' || c == '\r' || c == '\t' {
        assert(t[0] == '\\');
        assert(t[1] == e[1]);
        assert(t.skip(2) =~= rest);
    } else if v < 0x20 {
        assert(t[0] == '\\');
        assert(t[1] == 'u');
        assert(t[2] == '0' && t[3] == '0');
        assert(t[4] == hex_digit_char(v / 16));
        assert(t[5] == hex_digit_char(v % 16));
        lemma_hex_digit_value(0);
        lemma_hex_digit_value(v / 16);
        lemma_hex_digit_value(v % 16);
        assert(hex_value('0') == 0);
        assert(hex4_value(t, 2) == v);
        assert(t.skip(6) =~= rest);
        vstd::utf8::char_u32_cast(c, c as u32);
        assert((v as u32) == (c as u32));
    } else {
        assert(t[0] == c);
        assert(t.skip(1) =~= rest);
    }
}

/// Law: decoding the escaped body of `s` gives back `s`.
pub proof fn lemma_decode_escape(s: Seq<char>)
    ensures
        json_decode_body(json_escape(s)) == Some(s),
    decreases s.len(),
{
    if s.len() == 0 {
        assert(json_escape(s) =~= Seq::<char>::empty());
    } else {
        lemma_escape_front(s);
        lemma_decode_escape(s.skip(1));
        lemma_decode_escape_char(s[0], json_escape(s.skip(1)));
        assert(seq![s[0]] + s.skip(1) =~= s);
    }
}

/// Escaping never shortens a text.
pub proof fn lemma_escape_len(s: Seq<char>)
    ensures
        json_escape(s).len() >= s.len(),
    decreases s.len(),
{
    if s.len() > 0 {
        lemma_escape_len(s.drop_last());
        lemma_escape_char_shape(s.last());
    }
}

/// Law: the JSON literal of `s` is at least two characters, and two UTF-8
/// bytes, longer than `s`, starts and ends with a quote, and decodes back to
/// exactly `s`.
pub proof fn lemma_json_literal_round_trip(s: Seq<char>)
    ensures
        json_literal(s).len() >= s.len() + 2,
        encode_utf8(json_literal(s)).len() >= encode_utf8(s).len() + 2,
        json_literal(s)[0] == '"',
        json_literal(s)[json_literal(s).len() - 1] == '"',
        json_decode_literal(json_literal(s)) == Some(s),
{
    let l = json_literal(s);
    lemma_escape_len(s);
    lemma_json_literal_utf8_len(s);
    lemma_decode_escape(s);
    assert(l.subrange(1, l.len() - 1) =~= json_escape(s));
}

proof fn lemma_utf8_concat(a: Seq<char>, b: Seq<char>)
    ensures
        encode_utf8(a + b) == encode_utf8(a) + encode_utf8(b),
    decreases a.len(),
{
    if a.len() == 0 {
        assert(a + b =~= b);
        assert(encode_utf8(a) + encode_utf8(b) =~= encode_utf8(b));
    } else {
        lemma_utf8_concat(a.drop_first(), b);
        assert((a + b).drop_first() =~= a.drop_first() + b);
        assert((a + b)[0] == a[0]);
        assert(encode_utf8(a + b) =~= encode_utf8(a) + encode_utf8(b));
    }
}

proof fn lemma_utf8_at_least_chars(t: Seq<char>)
    ensures
        encode_utf8(t).len() >= t.len(),
    decreases t.len(),
{
    if t.len() > 0 {
        lemma_utf8_at_least_chars(t.drop_first());
    }
}

proof fn lemma_escape_utf8_len(s: Seq<char>)
    ensures
        encode_utf8(json_escape(s)).len() >= encode_utf8(s).len(),
    decreases s.len(),
{
    if s.len() > 0 {
        let c = s[0];
        let e = json_escape_char(c);
        lemma_escape_front(s);
        lemma_utf8_concat(e, json_escape(s.skip(1)));
        lemma_escape_utf8_len(s.skip(1));
        assert(s.drop_first() =~= s.skip(1));
        lemma_escape_char_shape(c);
        if e == seq![c] {
            lemma_utf8_single(c);
        } else {
            lemma_utf8_at_least_chars(e);
            assert((c as u32) <= 0x7f);
            assert(encode_scalar_len(c) == 1);
        }
    }
}

proof fn lemma_utf8_single(c: char)
    ensures
        encode_utf8(seq![c]).len() == encode_scalar_len(c),
        (c as u32) <= 0x7f ==> encode_utf8(seq![c]).len() == 1,
{
    let one = seq![c];
    assert(one.drop_first() =~= Seq::<char>::empty());
    assert(one[0] == c);
    assert(encode_utf8(one) == vstd::utf8::encode_scalar(c as u32) + encode_utf8(one.drop_first()));
    assert(encode_utf8(one) =~= vstd::utf8::encode_scalar(c as u32));
}

spec fn encode_scalar_len(c: char) -> int {
    vstd::utf8::encode_scalar(c as u32).len() as int
}

proof fn lemma_json_literal_utf8_len(s: Seq<char>)
    ensures
        encode_utf8(json_literal(s)).len() >= encode_utf8(s).len() + 2,
{
    let q = seq!['"'];
    lemma_escape_utf8_len(s);
    lemma_utf8_concat(q, json_escape(s));
    lemma_utf8_concat(q + json_escape(s), q);
    lemma_utf8_single('"');
}

} // verus!
