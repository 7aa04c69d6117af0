//! Turning the small integers that fixed-argument frameworks generate into
//! property inputs: a text chosen from a fixed set, and an offset clamped onto
//! a character boundary of it.

use vstd::prelude::*;
use vstd::utf8::{encode_utf8, is_ascii_chars, is_char_boundary, valid_utf8};
use vstd::string::StringSliceAdditionalSpecFns;
use crate::grapheme::{next_boundary_domain, prev_boundary_domain, utf8};

verus! {

broadcast use vstd::utf8::encode_utf8_valid_utf8, vstd::utf8::is_char_boundary_start_end_of_seq;

/// `c`, or the nearest character boundary of `bytes` below it.
pub open spec fn boundary_at_or_below(bytes: Seq<u8>, c: int) -> int
    decreases c,
{
    if c <= 0 || is_char_boundary(bytes, c) {
        c
    } else {
        boundary_at_or_below(bytes, c - 1)
    }
}

/// `c`, or the nearest character boundary of `bytes` above it and below
/// `limit`; `limit` where there is none.
pub open spec fn boundary_at_or_above(bytes: Seq<u8>, c: int, limit: int) -> int
    decreases limit - c,
{
    if c >= limit || is_char_boundary(bytes, c) {
        c
    } else {
        boundary_at_or_above(bytes, c + 1, limit)
    }
}

/// Whether a text has a character boundary strictly inside it.
pub open spec fn has_interior_boundary(s: Seq<char>) -> bool {
    exists|k: int| 0 < k < utf8(s).len() && #[trigger] is_char_boundary(utf8(s), k)
}

/// The offset that `pick_offset` makes of `tag` for a text of `n` bytes:
/// `tag` modulo `n + 1`, moved down to the nearest character boundary. Where
/// that lands on zero, it moves up to the nearest boundary strictly inside
/// the text; where it lands on the end, down to the nearest one strictly
/// inside. Where the text has no boundary strictly inside it, and for the
/// empty text, the offset is zero.
pub open spec fn picked_offset(s: Seq<char>, tag: u8) -> int {
    let bytes = encode_utf8(s);
    let n = bytes.len() as int;
    if n == 0 {
        0
    } else {
        let c = tag as int % (n + 1);
        let down = boundary_at_or_below(bytes, c);
        if 0 < down < n {
            down
        } else if down == n {
            let inner = boundary_at_or_below(bytes, n - 1);
            if inner > 0 {
                inner
            } else {
                0
            }
        } else {
            let up = boundary_at_or_above(bytes, if c < 1 { 1 } else { c }, n);
            if up < n {
                up
            } else {
                0
            }
        }
    }
}

proof fn lemma_boundary_at_or_below(bytes: Seq<u8>, c: int)
    requires
        valid_utf8(bytes),
        0 <= c <= bytes.len(),
    ensures
        0 <= boundary_at_or_below(bytes, c) <= c,
        is_char_boundary(bytes, boundary_at_or_below(bytes, c)),
        forall|k: int| boundary_at_or_below(bytes, c) < k <= c ==> !is_char_boundary(bytes, k),
    decreases c,
{
    if c > 0 && !is_char_boundary(bytes, c) {
        lemma_boundary_at_or_below(bytes, c - 1);
    }
}

proof fn lemma_boundary_at_or_above(bytes: Seq<u8>, c: int, limit: int)
    requires
        c <= limit,
    ensures
        c <= boundary_at_or_above(bytes, c, limit) <= limit,
        boundary_at_or_above(bytes, c, limit) < limit ==> is_char_boundary(
            bytes,
            boundary_at_or_above(bytes, c, limit),
        ),
        forall|k: int| c <= k < boundary_at_or_above(bytes, c, limit) ==> !is_char_boundary(bytes, k),
    decreases limit - c,
{
    if c < limit && !is_char_boundary(bytes, c) {
        lemma_boundary_at_or_above(bytes, c + 1, limit);
    }
}

/// What a picked offset is: a character boundary of the text, strictly inside
/// it where the text has such a boundary, and zero where it has none; where
/// the boundary at or below `tag` modulo one more than the length is strictly
/// inside the text, it is that boundary.
pub proof fn lemma_picked_offset(s: Seq<char>, tag: u8)
    ensures
        0 <= picked_offset(s, tag) <= utf8(s).len(),
        is_char_boundary(utf8(s), picked_offset(s, tag)),
        has_interior_boundary(s) ==> 0 < picked_offset(s, tag) < utf8(s).len(),
        !has_interior_boundary(s) ==> picked_offset(s, tag) == 0,
        utf8(s).len() > 0 && 0 < boundary_at_or_below(utf8(s), tag as int % (utf8(s).len() + 1) as int)
            < utf8(s).len() ==> picked_offset(s, tag) == boundary_at_or_below(
            utf8(s),
            tag as int % (utf8(s).len() + 1) as int,
        ),
{
    let bytes = encode_utf8(s);
    let n = bytes.len() as int;
    if n > 0 {
        let c = tag as int % (n + 1);
        lemma_boundary_at_or_below(bytes, c);
        let down = boundary_at_or_below(bytes, c);
        if 0 < down < n {
            assert(is_char_boundary(utf8(s), down));
        } else if down == n {
            lemma_boundary_at_or_below(bytes, n - 1);
            let inner = boundary_at_or_below(bytes, n - 1);
            if inner > 0 {
                assert(is_char_boundary(utf8(s), inner));
            } else {
                assert forall|k: int| 0 < k < n implies !is_char_boundary(utf8(s), k) by {
                    assert(!is_char_boundary(bytes, k));
                }
            }
        } else {
            let start = if c < 1 { 1 } else { c };
            lemma_boundary_at_or_above(bytes, start, n);
            let up = boundary_at_or_above(bytes, start, n);
            if up < n {
                assert(is_char_boundary(utf8(s), up));
            } else {
                assert forall|k: int| 0 < k < n implies !is_char_boundary(utf8(s), k) by {
                    if k <= c {
                        assert(!is_char_boundary(bytes, k));
                    }
                }
            }
        }
    } else if has_interior_boundary(s) {
        let k = choose|k: int| 0 < k < utf8(s).len() && #[trigger] is_char_boundary(utf8(s), k);
        assert(false);
    }
}

/// Clamps an offset tag to a character boundary of `s`: `tag` modulo
/// `s.len() + 1`, moved down to the nearest character boundary. Where that
/// gives `0` or `s.len()`, the offset moves to the nearest boundary strictly
/// inside `s`, so that it lies in `1..s.len()` wherever such a boundary
/// exists; where none does (the empty text, a text of one character), the
/// offset is `0`.
pub fn pick_offset(s: &str, tag: u8) -> (r: usize)
    requires
        s.spec_bytes().len() < usize::MAX,
    ensures
        r == picked_offset(s@, tag),
        r <= s.spec_bytes().len(),
        is_char_boundary(s.spec_bytes(), r as int),
        has_interior_boundary(s@) ==> 1 <= r < s.spec_bytes().len(),
        !has_interior_boundary(s@) ==> r == 0,
        s.spec_bytes().len() > 0 && 0 < boundary_at_or_below(
            s.spec_bytes(),
            tag as int % (s.spec_bytes().len() + 1) as int,
        ) < s.spec_bytes().len() ==> r == boundary_at_or_below(
            s.spec_bytes(),
            tag as int % (s.spec_bytes().len() + 1) as int,
        ),
{
    let ghost bytes = s.spec_bytes();
    proof {
        lemma_picked_offset(s@, tag);
    }
    let n: usize = s.len();
    if n == 0 {
        return 0;
    }
    let c: usize = (tag as usize) % (n + 1);
    let mut down: usize = c;
    while down > 0 && !s.is_char_boundary(down)
        invariant
            bytes == s.spec_bytes(),
            0 <= down <= c <= bytes.len(),
            boundary_at_or_below(bytes, down as int) == boundary_at_or_below(bytes, c as int),
        decreases down,
    {
        down = down - 1;
    }
    if down > 0 && down < n {
        return down;
    }
    if down == n {
        let mut inner: usize = n - 1;
        while inner > 0 && !s.is_char_boundary(inner)
            invariant
                bytes == s.spec_bytes(),
                n == bytes.len(),
                0 <= inner < n,
                boundary_at_or_below(bytes, inner as int) == boundary_at_or_below(bytes, n - 1),
            decreases inner,
        {
            inner = inner - 1;
        }
        return inner;
    }
    let start: usize = if c < 1 { 1 } else { c };
    let mut up: usize = start;
    while up < n && !s.is_char_boundary(up)
        invariant
            bytes == s.spec_bytes(),
            n == bytes.len(),
            start <= up <= n,
            boundary_at_or_above(bytes, up as int, n as int) == boundary_at_or_above(bytes, start as int, n as int),
        decreases n - up,
    {
        up = up + 1;
    }
    if up < n {
        up
    } else {
        0
    }
}

/// The text that `pick_string` chooses for a residue modulo nine.
pub open spec fn picked_text(k: int) -> Seq<char> {
    if k == 0 {
        ""@
    } else if k == 1 {
        "a"@
    } else if k == 2 {
        "ab"@
    } else if k == 3 {
        "abcd"@
    } else if k == 4 {
        "abcdefgh"@
    } else if k == 5 {
        "héllo"@
    } else if k == 6 {
        "Hello, world!"@
    } else if k == 7 {
        "can't"@
    } else {
        "127.0.0.1:9090"@
    }
}

/// Picks one of nine fixed texts, by `tag` modulo nine: empty, short ASCII
/// words, one with a two-byte character, and ones with punctuation.
pub fn pick_string(tag: u8) -> (s: String)
    ensures
        s@ == picked_text(tag as int % 9),
{
    let k: u8 = tag % 9;
    if k == 0 {
        proof {
            reveal_strlit("");
        }
        String::new()
    } else if k == 1 {
        "a".to_owned()
    } else if k == 2 {
        "ab".to_owned()
    } else if k == 3 {
        "abcd".to_owned()
    } else if k == 4 {
        "abcdefgh".to_owned()
    } else if k == 5 {
        "héllo".to_owned()
    } else if k == 6 {
        "Hello, world!".to_owned()
    } else if k == 7 {
        "can't".to_owned()
    } else {
        "127.0.0.1:9090".to_owned()
    }
}

/// A UTF-8 encoding takes at most four bytes per character.
pub proof fn lemma_utf8_len_bound(s: Seq<char>)
    ensures
        encode_utf8(s).len() <= 4 * s.len(),
    decreases s.len(),
{
    if s.len() > 0 {
        lemma_utf8_len_bound(s.drop_first());
    }
}

/// The nine texts are at most fourteen characters, hence at most 56 bytes.
pub proof fn lemma_picked_text_short(k: int)
    ensures
        picked_text(k).len() <= 14,
        encode_utf8(picked_text(k)).len() <= 56,
{
    reveal_strlit("");
    reveal_strlit("a");
    reveal_strlit("ab");
    reveal_strlit("abcd");
    reveal_strlit("abcdefgh");
    reveal_strlit("héllo");
    reveal_strlit("Hello, world!");
    reveal_strlit("can't");
    reveal_strlit("127.0.0.1:9090");
    lemma_utf8_len_bound(picked_text(k));
}

/// Law: of the nine texts, all but the one for residue five are ASCII.
pub proof fn lemma_picked_text_ascii(k: int)
    requires
        0 <= k < 9,
    ensures
        is_ascii_chars(picked_text(k)) <==> k != 5,
{
    reveal_strlit("");
    reveal_strlit("a");
    reveal_strlit("ab");
    reveal_strlit("abcd");
    reveal_strlit("abcdefgh");
    reveal_strlit("héllo");
    reveal_strlit("Hello, world!");
    reveal_strlit("can't");
    reveal_strlit("127.0.0.1:9090");
    if k == 5 {
        assert(picked_text(k)[1] == 'é');
    }
}

/// Law: a picked offset is always a character boundary of its text, so the
/// previous-boundary property accepts every positive picked offset and the
/// next-boundary property every one, where the text has a character boundary
/// strictly inside it.
pub proof fn lemma_picked_offset_domains(s: Seq<char>, tag: u8)
    ensures
        0 <= picked_offset(s, tag) <= utf8(s).len(),
        picked_offset(s, tag) > 0 ==> prev_boundary_domain(s, picked_offset(s, tag)),
        has_interior_boundary(s) ==> next_boundary_domain(s, picked_offset(s, tag)),
        has_interior_boundary(s) ==> prev_boundary_domain(s, picked_offset(s, tag)),
{
    lemma_picked_offset(s, tag);
}

/// In ASCII text every byte is a character, so every offset up to the length
/// is a character boundary.
pub proof fn lemma_ascii_boundaries(s: Seq<char>)
    requires
        is_ascii_chars(s),
    ensures
        encode_utf8(s).len() == s.len(),
        forall|k: int| 0 <= k <= s.len() ==> #[trigger] is_char_boundary(encode_utf8(s), k),
{
    let bytes = encode_utf8(s);
    vstd::utf8::is_ascii_chars_encode_utf8(s);
    assert forall|k: int| 0 <= k <= s.len() implies #[trigger] is_char_boundary(bytes, k) by {
        if k < s.len() {
            vstd::utf8::is_char_boundary_iff_not_is_continuation_byte(bytes, k);
            assert(s[k] as u8 == bytes[k]);
        }
    }
}

} // verus!
