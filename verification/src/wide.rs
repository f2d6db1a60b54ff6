//! UTF-16 text, as the operating system hands it out and takes it.

use vstd::prelude::*;
use vstd::slice::slice_subrange;
use crate::text;

verus! {

/// `char::from_u32` gives the character with a code, and nothing for a surrogate or for a code
/// above `0x10FFFF`.
pub assume_specification[ char::from_u32 ](i: u32) -> (r: Option<char>)
    ensures
        r == (if i < 0xd800 || 0xe000 <= i <= 0x10ffff {
            Some(i as char)
        } else {
            None
        }),
;

/// What stands for a unit that is no text.
pub const REPLACEMENT: char = '\u{fffd}';

/// Whether a unit is the first half of a surrogate pair.
pub open spec fn is_high(u: u16) -> bool {
    0xd800 <= u < 0xdc00
}

/// Whether a unit is the second half of a surrogate pair.
pub open spec fn is_low(u: u16) -> bool {
    0xdc00 <= u < 0xe000
}

/// The code of a surrogate pair.
pub open spec fn pair_code(h: u16, l: u16) -> int {
    0x10000 + (h - 0xd800) * 0x400 + (l - 0xdc00)
}

/// The text of a UTF-16 sequence. Each surrogate outside a pair becomes a replacement character.
pub open spec fn utf16_text(s: Seq<u16>) -> Seq<char>
    decreases s.len(),
{
    if s.len() == 0 {
        seq![]
    } else if is_high(s[0]) && s.len() > 1 && is_low(s[1]) {
        seq![pair_code(s[0], s[1]) as char] + utf16_text(s.skip(2))
    } else if is_high(s[0]) || is_low(s[0]) {
        seq![REPLACEMENT] + utf16_text(s.skip(1))
    } else {
        seq![s[0] as char] + utf16_text(s.skip(1))
    }
}

/// The text of a UTF-16 sequence.
pub fn decode_utf16(s: &[u16]) -> (r: Vec<char>)
    ensures
        r@ == utf16_text(s@),
{
    let mut out: Vec<char> = Vec::new();
    let mut i: usize = 0;
    assert(s@.skip(0) =~= s@);
    assert(out@ + utf16_text(s@.skip(0)) =~= utf16_text(s@));
    while i < s.len()
        invariant
            i <= s@.len(),
            out@ + utf16_text(s@.skip(i as int)) == utf16_text(s@),
        decreases s.len() - i,
    {
        let ghost rest = s@.skip(i as int);
        let ghost before = out@;
        let u = s[i];
        let high = 0xd800 <= u && u < 0xdc00;
        let low = 0xdc00 <= u && u < 0xe000;
        if high && i + 1 < s.len() && 0xdc00 <= s[i + 1] && s[i + 1] < 0xe000 {
            let code: u32 = 0x10000 + (u as u32 - 0xd800) * 0x400 + (s[i + 1] as u32 - 0xdc00);
            assert(code == pair_code(rest[0], rest[1]));
            let c = match char::from_u32(code) {
                Some(c) => c,
                None => REPLACEMENT,
            };
            out.push(c);
            i += 2;
            assert(s@.skip(i as int) =~= rest.skip(2));
        } else if high || low {
            out.push(REPLACEMENT);
            i += 1;
            assert(s@.skip(i as int) =~= rest.skip(1));
        } else {
            let c = match char::from_u32(u as u32) {
                Some(c) => c,
                None => REPLACEMENT,
            };
            out.push(c);
            i += 1;
            assert(s@.skip(i as int) =~= rest.skip(1));
        }
        assert(out@ + utf16_text(s@.skip(i as int)) =~= before + utf16_text(rest));
    }
    assert(utf16_text(s@.skip(i as int)) =~= Seq::<char>::empty());
    out
}

/// The index of the first zero unit, or the length if there is none.
pub open spec fn zero_pos(s: Seq<u16>) -> int
    decreases s.len(),
{
    if s.len() == 0 || s[0] == 0 {
        0
    } else {
        1 + zero_pos(s.skip(1))
    }
}

pub proof fn lemma_zero_pos(s: Seq<u16>, i: int)
    requires
        0 <= i <= s.len(),
        forall|k: int| 0 <= k < i ==> #[trigger] s[k] != 0,
        i == s.len() || s[i] == 0,
    ensures
        zero_pos(s) == i,
    decreases s.len(),
{
    if i > 0 {
        let t = s.skip(1);
        assert forall|k: int| 0 <= k < i - 1 implies #[trigger] t[k] != 0 by {
            assert(t[k] == s[k + 1]);
        }
        lemma_zero_pos(t, i - 1);
    }
}

/// The text of a zero-terminated UTF-16 buffer, without surrounding white space.
pub open spec fn wide_text(s: Seq<u16>) -> Seq<char> {
    text::trimmed(utf16_text(s.take(zero_pos(s))))
}

/// The text of a zero-terminated UTF-16 buffer, without surrounding white space.
pub fn wide_to_string(raw: &[u16]) -> (r: String)
    ensures
        r@ == wide_text(raw@),
{
    let mut i: usize = 0;
    while i < raw.len() && raw[i] != 0
        invariant
            i <= raw@.len(),
            forall|k: int| 0 <= k < i ==> #[trigger] raw@[k] != 0,
        decreases raw.len() - i,
    {
        i += 1;
    }
    proof {
        lemma_zero_pos(raw@, i as int);
    }
    let v = decode_utf16(slice_subrange(raw, 0, i));
    text::string_of(text::trim(v.as_slice()))
}

/// The UTF-16 units of a character.
pub open spec fn utf16_units(c: char) -> Seq<u16> {
    let n = c as u32;
    if n < 0x10000 {
        seq![n as u16]
    } else {
        seq![(0xd800 + (n - 0x10000) / 0x400) as u16, (0xdc00 + (n - 0x10000) % 0x400) as u16]
    }
}

/// The UTF-16 form of a text.
pub open spec fn utf16_of(s: Seq<char>) -> Seq<u16>
    decreases s.len(),
{
    if s.len() == 0 {
        seq![]
    } else {
        utf16_of(s.drop_last()) + utf16_units(s.last())
    }
}

/// The zero-terminated UTF-16 form of a text.
pub fn to_wide(s: &str) -> (r: Vec<u16>)
    ensures
        r@ == utf16_of(s@).push(0),
{
    let v = text::chars_of(s);
    let mut out: Vec<u16> = Vec::new();
    let mut i: usize = 0;
    while i < v.len()
        invariant
            i <= v@.len(),
            v@ == s@,
            out@ == utf16_of(v@.take(i as int)),
        decreases v.len() - i,
    {
        let ghost before = out@;
        let c = v[i];
        let n = c as u32;
        if n < 0x10000 {
            out.push(n as u16);
        } else {
            let m: u32 = n - 0x10000;
            out.push((0xd800 + m / 0x400) as u16);
            out.push((0xdc00 + m % 0x400) as u16);
        }
        assert(out@ =~= before + utf16_units(c));
        assert(v@.take(i + 1).drop_last() =~= v@.take(i as int));
        i += 1;
    }
    assert(v@.take(i as int) =~= v@);
    out.push(0);
    out
}

proof fn lemma_utf16_text_prefix(c: char, s: Seq<u16>)
    ensures
        utf16_text(utf16_units(c) + s) == seq![c] + utf16_text(s),
{
    let u = utf16_units(c);
    let t = u + s;
    let n = c as u32;
    if n < 0x10000 {
        assert(t.skip(1) =~= s);
        assert(u[0] == n);
        assert(t[0] as char == c);
    } else {
        let m = (n - 0x10000) as int;
        assert(m < 0x100000);
        assert(m == (m / 0x400) * 0x400 + m % 0x400);
        assert(u[0] == 0xd800 + m / 0x400);
        assert(u[1] == 0xdc00 + m % 0x400);
        assert(t.skip(2) =~= s);
        assert(pair_code(t[0], t[1]) == n);
    }
}

proof fn lemma_utf16_text_of(s: Seq<char>, rest: Seq<u16>)
    ensures
        utf16_text(utf16_of(s) + rest) == s + utf16_text(rest),
    decreases s.len(),
{
    if s.len() == 0 {
        assert(utf16_of(s) + rest =~= rest);
        assert(s + utf16_text(rest) =~= utf16_text(rest));
    } else {
        let u = utf16_units(s.last());
        assert(utf16_of(s) + rest =~= utf16_of(s.drop_last()) + (u + rest));
        lemma_utf16_text_of(s.drop_last(), u + rest);
        lemma_utf16_text_prefix(s.last(), rest);
        assert(s.drop_last() + (seq![s.last()] + utf16_text(rest)) =~= s + utf16_text(rest));
    }
}

pub proof fn lemma_utf16_of_zero_free(s: Seq<char>)
    requires
        !s.contains('\0'),
    ensures
        forall|k: int| 0 <= k < utf16_of(s).len() ==> #[trigger] utf16_of(s)[k] != 0,
    decreases s.len(),
{
    if s.len() > 0 {
        assert forall|i: int| 0 <= i < s.len() implies s[i] != '\0' by {
            if s[i] == '\0' {
                assert(s.contains('\0'));
            }
        }
        assert(!s.drop_last().contains('\0'));
        lemma_utf16_of_zero_free(s.drop_last());
        let c = s.last();
        let n = c as u32;
        vstd::utf8::char_u32_cast(c, n);
        assert(n != 0) by {
            if n == 0 {
                assert(n as char == '\0');
            }
        }
        assert forall|k: int| 0 <= k < utf16_of(s).len() implies #[trigger] utf16_of(s)[k] != 0 by {
            let head = utf16_of(s.drop_last());
            if k < head.len() {
                assert(utf16_of(s)[k] == head[k]);
            } else {
                assert(utf16_of(s)[k] == utf16_units(c)[k - head.len()]);
            }
        }
    }
}

/// Decoding the UTF-16 form of a text gives the text back.
pub proof fn utf16_decodes_back(s: Seq<char>)
    ensures
        utf16_text(utf16_of(s)) == s,
{
    lemma_utf16_text_of(s, Seq::<u16>::empty());
    assert(utf16_of(s) + Seq::<u16>::empty() =~= utf16_of(s));
    assert(s + utf16_text(Seq::<u16>::empty()) =~= s);
}

/// Reading the zero-terminated UTF-16 form of a text that has no zero character gives back the
/// text without surrounding white space.
pub proof fn wide_reads_back(s: Seq<char>)
    requires
        !s.contains('\0'),
    ensures
        wide_text(utf16_of(s).push(0)) == text::trimmed(s),
{
    let w = utf16_of(s).push(0);
    lemma_utf16_of_zero_free(s);
    lemma_zero_pos(w, w.len() - 1);
    assert(w.take(w.len() - 1) =~= utf16_of(s));
    utf16_decodes_back(s);
}

/// A unit that is no surrogate is the character with that code; a pair of surrogates is the
/// character whose code, less `0x10000`, has ten bits from each; any other surrogate is replaced.
pub proof fn units_are_decoded_in_order(s: Seq<u16>)
    requires
        s.len() > 0,
    ensures
        !(0xd800 <= s[0] < 0xe000) ==> utf16_text(s) == seq![s[0] as char] + utf16_text(s.skip(1)),
        s.len() > 1 && 0xd800 <= s[0] < 0xdc00 && 0xdc00 <= s[1] < 0xe000 ==> utf16_text(s) == seq![
            (0x10000 + (s[0] - 0xd800) * 1024 + (s[1] - 0xdc00)) as char,
        ] + utf16_text(s.skip(2)),
        0xdc00 <= s[0] < 0xe000 ==> utf16_text(s) == seq!['\u{fffd}'] + utf16_text(s.skip(1)),
        0xd800 <= s[0] < 0xdc00 && (s.len() == 1 || !(0xdc00 <= s[1] < 0xe000)) ==> utf16_text(s)
            == seq!['\u{fffd}'] + utf16_text(s.skip(1)),
        utf16_text(Seq::<u16>::empty()) == Seq::<char>::empty(),
{
}

/// A buffer holds the text up to its first zero, whatever stands after it; without a zero it holds
/// all of it.
pub proof fn buffers_end_at_the_first_zero(s: Seq<u16>, junk: Seq<u16>)
    requires
        forall|i: int| 0 <= i < s.len() ==> #[trigger] s[i] != 0,
    ensures
        wide_text(s + seq![0u16] + junk) == text::trimmed(utf16_text(s)),
        wide_text(s) == text::trimmed(utf16_text(s)),
{
    let w = s + seq![0u16] + junk;
    assert forall|i: int| 0 <= i < s.len() implies #[trigger] w[i] != 0 by {
        assert(w[i] == s[i]);
    }
    lemma_zero_pos(w, s.len() as int);
    assert(w.take(s.len() as int) =~= s);
    lemma_zero_pos(s, s.len() as int);
    assert(s.take(s.len() as int) =~= s);
}

/// The UTF-16 form of a text is made up of the forms of its characters: those below `0x10000` are
/// one unit, their code.
pub proof fn characters_are_encoded_in_order(s: Seq<char>, c: char)
    ensures
        utf16_of(Seq::<char>::empty()) == Seq::<u16>::empty(),
        utf16_of(s).is_prefix_of(utf16_of(s.push(c))),
        (c as u32) < 0x10000 ==> utf16_of(s.push(c)) == utf16_of(s).push(c as u32 as u16),
        (c as u32) >= 0x10000 ==> utf16_of(s.push(c)).len() == utf16_of(s).len() + 2,
{
    assert(s.push(c).drop_last() =~= s);
    assert(utf16_of(s) =~= utf16_of(s.push(c)).take(utf16_of(s).len() as int));
    if (c as u32) < 0x10000 {
        assert(utf16_of(s.push(c)) =~= utf16_of(s).push(c as u32 as u16));
    }
}

} // verus!
