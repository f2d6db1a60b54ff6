//! Text handling over character sequences.
//!
//! Strings are seen as sequences of `char`. Each operation has a spec function that says what it
//! computes, and an executable function on character slices that is proved to compute it.

use vstd::prelude::*;
use vstd::slice::slice_subrange;

verus! {

// ---------------------------------------------------------------------------
// Strings and characters
// ---------------------------------------------------------------------------

/// `String::push` appends one character.
pub assume_specification[ String::push ](s: &mut String, c: char)
    ensures
        final(s)@ == old(s)@.push(c),
;

/// The upper-case form of a text, as the Unicode case mapping gives it.
pub uninterp spec fn upper_cased(s: Seq<char>) -> Seq<char>;

/// `str::to_uppercase` maps a text to its upper-case form. The full Unicode mapping is only named;
/// what is said of it is that a text of ASCII characters has its letters `a` to `z` replaced by
/// `A` to `Z` and is otherwise unchanged, and that every character maps to one or more, so that
/// only the empty text becomes empty.
pub assume_specification[ str::to_uppercase ](s: &str) -> (r: String)
    ensures
        r@ == upper_cased(s@),
        is_ascii_text(s@) ==> r@ == ascii_upper_text(s@),
        s@.len() > 0 ==> r@.len() > 0,
;

/// The characters of a string, in order.
pub fn chars_of(s: &str) -> (r: Vec<char>)
    ensures
        r@ == s@,
{
    let mut out: Vec<char> = Vec::new();
    for c in it: s.chars()
        invariant
            out@ == it.seq().take(it.index() as int),
    {
        out.push(c);
    }
    out
}

/// The string made of the given characters.
pub fn string_of(v: &[char]) -> (r: String)
    ensures
        r@ == v@,
{
    let mut out = String::new();
    let mut i: usize = 0;
    while i < v.len()
        invariant
            i <= v@.len(),
            out@ == v@.take(i as int),
        decreases v.len() - i,
    {
        out.push(v[i]);
        i += 1;
    }
    assert(v@.take(i as int) =~= v@);
    out
}

/// The text held by an optional string.
pub open spec fn text_of(o: Option<String>) -> Option<Seq<char>> {
    match o {
        Some(s) => Some(s@),
        None => None,
    }
}

/// The texts of a list of strings.
pub open spec fn texts_of(v: Seq<String>) -> Seq<Seq<char>> {
    v.map_values(|s: String| s@)
}

/// The texts of a list of character vectors.
pub open spec fn pieces_of(v: Seq<Vec<char>>) -> Seq<Seq<char>> {
    v.map_values(|s: Vec<char>| s@)
}

/// The empty text counts as absent.
pub open spec fn non_empty(s: Seq<char>) -> Option<Seq<char>> {
    if s.len() == 0 {
        None
    } else {
        Some(s)
    }
}

/// A string, unless it is empty.
pub fn non_empty_string(s: String) -> (r: Option<String>)
    ensures
        text_of(r) == non_empty(s@),
{
    if s.as_str().is_empty() {
        None
    } else {
        Some(s)
    }
}

/// Whether two strings hold the same text.
pub fn same_text(a: &str, b: &str) -> (r: bool)
    ensures
        r == (a@ == b@),
{
    let x = chars_of(a);
    let y = chars_of(b);
    same_chars(x.as_slice(), y.as_slice())
}

/// Whether two character slices hold the same text.
pub fn same_chars(a: &[char], b: &[char]) -> (r: bool)
    ensures
        r == (a@ == b@),
{
    if a.len() != b.len() {
        return false;
    }
    let mut i: usize = 0;
    while i < a.len()
        invariant
            i <= a@.len() == b@.len(),
            forall|k: int| 0 <= k < i ==> a@[k] == b@[k],
        decreases a.len() - i,
    {
        if a[i] != b[i] {
            return false;
        }
        i += 1;
    }
    assert(a@ =~= b@);
    true
}

/// The concatenation of two strings.
pub fn concat2(a: &str, b: &str) -> (r: String)
    ensures
        r@ == a@ + b@,
{
    let mut s = a.to_string();
    s.append(b);
    s
}

/// The concatenation of three strings.
pub fn concat3(a: &str, b: &str, c: &str) -> (r: String)
    ensures
        r@ == a@ + b@ + c@,
{
    let mut s = a.to_string();
    s.append(b);
    s.append(c);
    s
}

// ---------------------------------------------------------------------------
// Character classes
// ---------------------------------------------------------------------------

/// The characters with the Unicode `White_Space` property.
pub open spec fn is_white_space(c: char) -> bool {
    ||| '\u{9}' <= c <= '\u{d}'
    ||| c == '\u{20}'
    ||| c == '\u{85}'
    ||| c == '\u{a0}'
    ||| c == '\u{1680}'
    ||| '\u{2000}' <= c <= '\u{200a}'
    ||| c == '\u{2028}'
    ||| c == '\u{2029}'
    ||| c == '\u{202f}'
    ||| c == '\u{205f}'
    ||| c == '\u{3000}'
}

/// Whether a character is white space.
pub fn white_space(c: char) -> (r: bool)
    ensures
        r == is_white_space(c),
{
    ('\u{9}' <= c && c <= '\u{d}') || c == '\u{20}' || c == '\u{85}' || c == '\u{a0}'
        || c == '\u{1680}' || ('\u{2000}' <= c && c <= '\u{200a}') || c == '\u{2028}'
        || c == '\u{2029}' || c == '\u{202f}' || c == '\u{205f}' || c == '\u{3000}'
}

/// The characters of the Unicode general category `Cc`.
pub open spec fn is_control_char(c: char) -> bool {
    c <= '\u{1f}' || '\u{7f}' <= c <= '\u{9f}'
}

/// Whether a character is a control character.
pub fn control_char(c: char) -> (r: bool)
    ensures
        r == is_control_char(c),
{
    c <= '\u{1f}' || ('\u{7f}' <= c && c <= '\u{9f}')
}

/// Whether a text consists of ASCII characters.
pub open spec fn is_ascii_text(s: Seq<char>) -> bool {
    forall|i: int| 0 <= i < s.len() ==> #[trigger] s[i] <= '\u{7f}'
}

/// The ASCII upper-case form of a character.
pub open spec fn ascii_upper(c: char) -> char {
    if 'a' <= c <= 'z' {
        (c as u32 - 32) as char
    } else {
        c
    }
}

/// The ASCII upper-case form of a text.
pub open spec fn ascii_upper_text(s: Seq<char>) -> Seq<char> {
    s.map_values(|c: char| ascii_upper(c))
}

/// The upper-case form of a text. It is spelled out for ASCII; beyond, it is what the Unicode case
/// mapping gives.
pub open spec fn upper_text(s: Seq<char>) -> Seq<char> {
    if is_ascii_text(s) {
        ascii_upper_text(s)
    } else {
        upper_cased(s)
    }
}

/// Whether two texts are equal up to the case of ASCII letters.
pub open spec fn same_ignoring_case(a: Seq<char>, b: Seq<char>) -> bool {
    &&& a.len() == b.len()
    &&& forall|i: int| 0 <= i < a.len() ==> ascii_upper(#[trigger] a[i]) == ascii_upper(b[i])
}

/// The code of a character after ASCII upper-casing.
fn ascii_upper_code(c: char) -> (r: u32)
    ensures
        r == ascii_upper(c) as u32,
{
    if 'a' <= c && c <= 'z' {
        c as u32 - 32
    } else {
        c as u32
    }
}

/// Whether two strings are equal up to the case of ASCII letters.
pub fn equals_ignoring_case(a: &str, b: &str) -> (r: bool)
    ensures
        r == same_ignoring_case(a@, b@),
{
    let x = chars_of(a);
    let y = chars_of(b);
    if x.len() != y.len() {
        return false;
    }
    let mut i: usize = 0;
    while i < x.len()
        invariant
            i <= x@.len() == y@.len(),
            x@ == a@,
            y@ == b@,
            forall|k: int| 0 <= k < i ==> ascii_upper(#[trigger] x@[k]) == ascii_upper(y@[k]),
        decreases x.len() - i,
    {
        if ascii_upper_code(x[i]) != ascii_upper_code(y[i]) {
            assert(ascii_upper(a@[i as int]) != ascii_upper(b@[i as int]));
            return false;
        }
        assert(ascii_upper(x@[i as int]) as u32 as char == ascii_upper(x@[i as int]));
        assert(ascii_upper(y@[i as int]) as u32 as char == ascii_upper(y@[i as int]));
        i += 1;
    }
    true
}

// ---------------------------------------------------------------------------
// Searching
// ---------------------------------------------------------------------------

/// The index of the first character that satisfies `f`, or the length if there is none.
pub open spec fn first_pos(s: Seq<char>, f: spec_fn(char) -> bool) -> int
    decreases s.len(),
{
    if s.len() == 0 || f(s[0]) {
        0
    } else {
        1 + first_pos(s.skip(1), f)
    }
}

/// The length that is left when trailing characters that do not satisfy `f` are dropped.
pub open spec fn last_pos(s: Seq<char>, f: spec_fn(char) -> bool) -> int
    decreases s.len(),
{
    if s.len() == 0 || f(s.last()) {
        s.len() as int
    } else {
        last_pos(s.drop_last(), f)
    }
}

/// The predicate "is the character `c`".
pub open spec fn equals(c: char) -> spec_fn(char) -> bool {
    |x: char| x == c
}

/// The predicate "is not the character `c`".
pub open spec fn differs(c: char) -> spec_fn(char) -> bool {
    |x: char| x != c
}

/// The predicate "is white space".
pub open spec fn white() -> spec_fn(char) -> bool {
    |x: char| is_white_space(x)
}

/// The predicate "is not white space".
pub open spec fn not_white() -> spec_fn(char) -> bool {
    |x: char| !is_white_space(x)
}

pub proof fn lemma_first_pos(s: Seq<char>, f: spec_fn(char) -> bool, i: int)
    requires
        0 <= i <= s.len(),
        forall|k: int| 0 <= k < i ==> !f(#[trigger] s[k]),
        i == s.len() || f(s[i]),
    ensures
        first_pos(s, f) == i,
    decreases s.len(),
{
    if i > 0 {
        let t = s.skip(1);
        assert forall|k: int| 0 <= k < i - 1 implies !f(#[trigger] t[k]) by {
            assert(t[k] == s[k + 1]);
        }
        lemma_first_pos(t, f, i - 1);
    }
}

pub proof fn lemma_first_pos_bounds(s: Seq<char>, f: spec_fn(char) -> bool)
    ensures
        0 <= first_pos(s, f) <= s.len(),
        forall|k: int| 0 <= k < first_pos(s, f) ==> !f(#[trigger] s[k]),
        first_pos(s, f) < s.len() ==> f(s[first_pos(s, f)]),
    decreases s.len(),
{
    if s.len() > 0 && !f(s[0]) {
        let t = s.skip(1);
        lemma_first_pos_bounds(t, f);
        assert forall|k: int| 0 <= k < first_pos(s, f) implies !f(#[trigger] s[k]) by {
            if k > 0 {
                assert(s[k] == t[k - 1]);
            }
        }
    }
}

pub proof fn lemma_last_pos(s: Seq<char>, f: spec_fn(char) -> bool, i: int)
    requires
        0 <= i <= s.len(),
        forall|k: int| i <= k < s.len() ==> !f(#[trigger] s[k]),
        i == 0 || f(s[i - 1]),
    ensures
        last_pos(s, f) == i,
    decreases s.len(),
{
    if i < s.len() {
        lemma_last_pos(s.drop_last(), f, i);
    }
}

pub proof fn lemma_last_pos_bounds(s: Seq<char>, f: spec_fn(char) -> bool)
    ensures
        0 <= last_pos(s, f) <= s.len(),
        forall|k: int| last_pos(s, f) <= k < s.len() ==> !f(#[trigger] s[k]),
        last_pos(s, f) > 0 ==> f(s[last_pos(s, f) - 1]),
    decreases s.len(),
{
    if s.len() > 0 && !f(s.last()) {
        lemma_last_pos_bounds(s.drop_last(), f);
        assert forall|k: int| last_pos(s, f) <= k < s.len() implies !f(#[trigger] s[k]) by {
            if k < s.len() - 1 {
                assert(s[k] == s.drop_last()[k]);
            }
        }
    }
}

/// The index of the first occurrence of a character, or the length if there is none.
pub fn find_char(s: &[char], c: char) -> (r: usize)
    ensures
        r == first_pos(s@, equals(c)),
        r <= s@.len(),
{
    let mut i: usize = 0;
    while i < s.len() && s[i] != c
        invariant
            i <= s@.len(),
            forall|k: int| 0 <= k < i ==> s@[k] != c,
        decreases s.len() - i,
    {
        i += 1;
    }
    proof {
        lemma_first_pos(s@, equals(c), i as int);
    }
    i
}

/// The index of the first white space character, or the length if there is none.
pub fn find_white(s: &[char]) -> (r: usize)
    ensures
        r == first_pos(s@, white()),
        r <= s@.len(),
{
    let mut i: usize = 0;
    while i < s.len() && !white_space(s[i])
        invariant
            i <= s@.len(),
            forall|k: int| 0 <= k < i ==> !is_white_space(s@[k]),
        decreases s.len() - i,
    {
        i += 1;
    }
    proof {
        lemma_first_pos(s@, white(), i as int);
    }
    i
}

/// Whether a text begins with a given prefix.
pub fn starts_with(s: &[char], prefix: &[char]) -> (r: bool)
    ensures
        r == prefix@.is_prefix_of(s@),
{
    if prefix.len() > s.len() {
        return false;
    }
    let r = same_chars(slice_subrange(s, 0, prefix.len()), prefix);
    r
}

/// The index of the first occurrence of a text, if there is one.
pub open spec fn find_text(s: Seq<char>, p: Seq<char>) -> Option<int>
    decreases s.len(),
{
    if p.is_prefix_of(s) {
        Some(0)
    } else if s.len() == 0 {
        None
    } else {
        match find_text(s.skip(1), p) {
            Some(i) => Some(i + 1),
            None => None,
        }
    }
}

pub proof fn lemma_find_text_some(s: Seq<char>, p: Seq<char>, i: int)
    requires
        0 <= i <= s.len(),
        p.is_prefix_of(s.skip(i)),
        forall|k: int| 0 <= k < i ==> !p.is_prefix_of(#[trigger] s.skip(k)),
    ensures
        find_text(s, p) == Some(i),
    decreases s.len(),
{
    assert(s.skip(0) =~= s);
    if i > 0 {
        assert(!p.is_prefix_of(s.skip(0)));
        let t = s.skip(1);
        assert(t.skip(i - 1) =~= s.skip(i));
        assert forall|k: int| 0 <= k < i - 1 implies !p.is_prefix_of(#[trigger] t.skip(k)) by {
            assert(t.skip(k) =~= s.skip(k + 1));
        }
        lemma_find_text_some(t, p, i - 1);
    }
}

pub proof fn lemma_find_text_none(s: Seq<char>, p: Seq<char>)
    requires
        forall|k: int| 0 <= k <= s.len() ==> !p.is_prefix_of(#[trigger] s.skip(k)),
    ensures
        find_text(s, p) is None,
    decreases s.len(),
{
    assert(s.skip(0) =~= s);
    assert(!p.is_prefix_of(s.skip(0)));
    if s.len() > 0 {
        let t = s.skip(1);
        assert forall|k: int| 0 <= k <= t.len() implies !p.is_prefix_of(#[trigger] t.skip(k)) by {
            assert(t.skip(k) =~= s.skip(k + 1));
        }
        lemma_find_text_none(t, p);
    }
}

/// The index of the first occurrence of a text, if there is one.
pub fn find_chars(s: &[char], p: &[char]) -> (r: Option<usize>)
    ensures
        match r {
            Some(i) => find_text(s@, p@) == Some(i as int) && i + p@.len() <= s@.len(),
            None => find_text(s@, p@) is None,
        },
{
    let mut i: usize = 0;
    while i < s.len()
        invariant
            i <= s@.len(),
            forall|k: int| 0 <= k < i ==> !p@.is_prefix_of(#[trigger] s@.skip(k)),
        decreases s.len() - i,
    {
        if starts_with(slice_subrange(s, i, s.len()), p) {
            proof {
                lemma_find_text_some(s@, p@, i as int);
            }
            return Some(i);
        }
        i += 1;
    }
    if p.len() == 0 {
        assert(p@.is_prefix_of(s@.skip(i as int)));
        proof {
            lemma_find_text_some(s@, p@, i as int);
        }
        return Some(i);
    }
    assert(!p@.is_prefix_of(s@.skip(i as int)));
    proof {
        lemma_find_text_none(s@, p@);
    }
    None
}

// ---------------------------------------------------------------------------
// Trimming and filtering
// ---------------------------------------------------------------------------

/// A text without its leading white space.
pub open spec fn trimmed_start(s: Seq<char>) -> Seq<char> {
    s.skip(first_pos(s, not_white()))
}

/// A text without its trailing white space.
pub open spec fn trimmed_end(s: Seq<char>) -> Seq<char> {
    s.take(last_pos(s, not_white()))
}

/// A text without leading and trailing white space.
pub open spec fn trimmed(s: Seq<char>) -> Seq<char> {
    trimmed_end(trimmed_start(s))
}

/// Trimming takes white space away from both ends of a text that begins and ends with something
/// else.
pub proof fn lemma_trimmed(before: Seq<char>, core: Seq<char>, after: Seq<char>)
    requires
        forall|i: int| 0 <= i < before.len() ==> is_white_space(#[trigger] before[i]),
        forall|i: int| 0 <= i < after.len() ==> is_white_space(#[trigger] after[i]),
        core.len() > 0,
        !is_white_space(core[0]),
        !is_white_space(core.last()),
    ensures
        trimmed(before + core + after) == core,
{
    let s = before + core + after;
    let n = before.len() as int;
    assert forall|k: int| 0 <= k < n implies !not_white()(#[trigger] s[k]) by {
        assert(s[k] == before[k]);
    }
    assert(s[n] == core[0]);
    lemma_first_pos(s, not_white(), n);
    let t = s.skip(n);
    assert(t =~= core + after);
    let m = core.len() as int;
    assert forall|k: int| m <= k < t.len() implies !not_white()(#[trigger] t[k]) by {
        assert(t[k] == after[k - m]);
    }
    assert(t[m - 1] == core.last());
    lemma_last_pos(t, not_white(), m);
    assert(t.take(m) =~= core);
}

/// A text is white space, then what trimming leaves, then white space again. What trimming leaves
/// neither begins nor ends with white space.
pub proof fn lemma_trim_parts(s: Seq<char>) -> (r: (Seq<char>, Seq<char>))
    ensures
        s == r.0 + trimmed(s) + r.1,
        forall|i: int| 0 <= i < r.0.len() ==> is_white_space(#[trigger] r.0[i]),
        forall|i: int| 0 <= i < r.1.len() ==> is_white_space(#[trigger] r.1[i]),
        trimmed(s).len() > 0 ==> {
            &&& !is_white_space(trimmed(s)[0])
            &&& !is_white_space(trimmed(s).last())
        },
{
    let i = first_pos(s, not_white());
    lemma_first_pos_bounds(s, not_white());
    let t = s.skip(i);
    let j = last_pos(t, not_white());
    lemma_last_pos_bounds(t, not_white());
    let before = s.take(i);
    let after = t.skip(j);
    assert(s =~= before + t.take(j) + after);
    assert forall|k: int| 0 <= k < before.len() implies is_white_space(#[trigger] before[k]) by {
        assert(!not_white()(s[k]));
    }
    assert forall|k: int| 0 <= k < after.len() implies is_white_space(#[trigger] after[k]) by {
        assert(!not_white()(t[j + k]));
    }
    if j > 0 {
        assert(not_white()(s[i]));
        assert(t[0] == s[i]);
        assert(not_white()(t[j - 1]));
    }
    (before, after)
}

/// Trimming a text that begins with a head takes white space from its end only, if the head itself
/// neither begins nor ends with white space.
pub proof fn lemma_trim_after_head(head: Seq<char>, s: Seq<char>)
    requires
        head.len() > 0,
        !is_white_space(head[0]),
        !is_white_space(head.last()),
    ensures
        trimmed(head + s) == head + trimmed_end(s),
{
    let whole = head + s;
    let j = last_pos(s, not_white());
    let n = head.len() as int;
    lemma_last_pos_bounds(s, not_white());
    assert(whole[0] == head[0]);
    lemma_first_pos(whole, not_white(), 0);
    assert(whole.skip(0) =~= whole);
    assert forall|k: int| n + j <= k < whole.len() implies !not_white()(#[trigger] whole[k]) by {
        assert(whole[k] == s[k - n]);
    }
    assert(whole[n + j - 1] == (if j > 0 {
        s[j - 1]
    } else {
        head.last()
    }));
    lemma_last_pos(whole, not_white(), n + j);
    assert(whole.take(n + j) =~= head + s.take(j));
}

/// Trimming a text whose end was trimmed gives what trimming the text gives.
pub proof fn lemma_trim_trimmed_end(s: Seq<char>)
    ensures
        trimmed(trimmed_end(s)) == trimmed(s),
{
    let (before, after) = lemma_trim_parts(s);
    let core = trimmed(s);
    let n = (before.len() + core.len()) as int;
    assert forall|k: int| n <= k < s.len() implies !not_white()(#[trigger] s[k]) by {
        assert(s[k] == after[k - n]);
    }
    if core.len() > 0 {
        assert(s[n - 1] == core.last());
        lemma_last_pos(s, not_white(), n);
        assert(s.take(n) =~= before + core + Seq::<char>::empty());
        lemma_trimmed(before, core, Seq::empty());
    } else {
        assert forall|k: int| 0 <= k < s.len() implies !not_white()(#[trigger] s[k]) by {
            if k < before.len() {
                assert(s[k] == before[k]);
            }
        }
        lemma_last_pos(s, not_white(), 0);
        assert(trimmed(s.take(0)) =~= Seq::<char>::empty());
    }
}

/// The text without leading and trailing white space.
pub fn trim(s: &[char]) -> (r: &[char])
    ensures
        r@ == trimmed(s@),
{
    let mut i: usize = 0;
    while i < s.len() && white_space(s[i])
        invariant
            i <= s@.len(),
            forall|k: int| 0 <= k < i ==> is_white_space(s@[k]),
        decreases s.len() - i,
    {
        i += 1;
    }
    proof {
        lemma_first_pos(s@, not_white(), i as int);
    }
    let t = slice_subrange(s, i, s.len());
    assert(t@ =~= trimmed_start(s@));
    let mut j: usize = t.len();
    while j > 0 && white_space(t[j - 1])
        invariant
            j <= t@.len(),
            forall|k: int| j <= k < t@.len() ==> is_white_space(t@[k]),
        decreases j,
    {
        j -= 1;
    }
    proof {
        lemma_last_pos(t@, not_white(), j as int);
    }
    slice_subrange(t, 0, j)
}

/// The text of a string without leading and trailing white space.
pub fn trim_str(s: &str) -> (r: String)
    ensures
        r@ == trimmed(s@),
{
    let v = chars_of(s);
    string_of(trim(v.as_slice()))
}

/// A text without its control characters.
pub open spec fn without_controls(s: Seq<char>) -> Seq<char> {
    s.filter(|c: char| !is_control_char(c))
}

/// A display name without control characters and without surrounding white space.
pub open spec fn cleaned(s: Seq<char>) -> Seq<char> {
    trimmed(without_controls(s))
}

/// Removes control characters and then surrounding white space.
pub fn clean(s: &str) -> (r: String)
    ensures
        r@ == cleaned(s@),
{
    let v = chars_of(s);
    let mut out: Vec<char> = Vec::new();
    let mut i: usize = 0;
    assert(v@.take(0).filter(|c: char| !is_control_char(c)) =~= Seq::<char>::empty()) by {
        reveal(Seq::filter);
    }
    while i < v.len()
        invariant
            i <= v@.len(),
            v@ == s@,
            out@ == without_controls(v@.take(i as int)),
        decreases v.len() - i,
    {
        assert(v@.take(i + 1).drop_last() =~= v@.take(i as int));
        proof {
            reveal(Seq::filter);
        }
        if !control_char(v[i]) {
            out.push(v[i]);
        }
        i += 1;
    }
    assert(v@.take(i as int) =~= v@);
    string_of(trim(out.as_slice()))
}

/// What cleaning leaves has no control characters, and neither begins nor ends with white space.
pub proof fn lemma_cleaned(s: Seq<char>)
    ensures
        forall|i: int| 0 <= i < cleaned(s).len() ==> !is_control_char(#[trigger] cleaned(s)[i]),
        cleaned(s).len() > 0 ==> {
            &&& !is_white_space(cleaned(s)[0])
            &&& !is_white_space(cleaned(s).last())
        },
{
    let kept = without_controls(s);
    let (before, after) = lemma_trim_parts(kept);
    assert forall|i: int| 0 <= i < cleaned(s).len() implies !is_control_char(
        #[trigger] cleaned(s)[i],
    ) by {
        s.lemma_filter_pred(|c: char| !is_control_char(c), before.len() + i);
        assert(kept[before.len() + i] == cleaned(s)[i]);
    }
}

// ---------------------------------------------------------------------------
// Splitting
// ---------------------------------------------------------------------------

/// The segments of a text between the occurrences of a separator.
pub open spec fn split_all(s: Seq<char>, sep: char) -> Seq<Seq<char>>
    decreases s.len(),
{
    let i = first_pos(s, equals(sep));
    if i < 0 || i >= s.len() {
        seq![s]
    } else {
        seq![s.take(i)] + split_all(s.skip(i + 1), sep)
    }
}

/// The segments of a text between the first `n - 1` occurrences of a separator; the last segment
/// is the rest of the text.
pub open spec fn split_first(s: Seq<char>, n: nat, sep: char) -> Seq<Seq<char>>
    decreases n,
{
    let i = first_pos(s, equals(sep));
    if n <= 1 || i >= s.len() {
        seq![s]
    } else {
        seq![s.take(i)] + split_first(s.skip(i + 1), (n - 1) as nat, sep)
    }
}

/// Splitting at the first separator.
pub proof fn lemma_split_step(head: Seq<char>, tail: Seq<char>, n: nat, sep: char)
    requires
        n > 1,
        !head.contains(sep),
    ensures
        split_first(head + seq![sep] + tail, n, sep) == seq![head] + split_first(
            tail,
            (n - 1) as nat,
            sep,
        ),
{
    let s = head + seq![sep] + tail;
    let i = head.len() as int;
    assert forall|k: int| 0 <= k < i implies !equals(sep)(#[trigger] s[k]) by {
        assert(s[k] == head[k]);
        assert(head.contains(head[k]));
    }
    assert(s[i] == sep);
    lemma_first_pos(s, equals(sep), i);
    assert(s.take(i) =~= head);
    assert(s.skip(i + 1) =~= tail);
}

/// The segment after the first separator, up to the next one, if the separator occurs.
pub open spec fn second_segment(s: Seq<char>, sep: char) -> Option<Seq<char>> {
    if split_all(s, sep).len() > 1 {
        Some(split_all(s, sep)[1])
    } else {
        None
    }
}

/// The segment after the first separator, up to the next one.
pub fn segment_after(s: &[char], sep: char) -> (r: Option<Vec<char>>)
    ensures
        match r {
            Some(v) => second_segment(s@, sep) == Some(v@),
            None => second_segment(s@, sep) is None,
        },
{
    proof {
        reveal_with_fuel(split_all, 3);
    }
    let i = find_char(s, sep);
    if i >= s.len() {
        return None;
    }
    let rest = slice_subrange(s, i + 1, s.len());
    assert(rest@ =~= s@.skip(i + 1));
    let j = find_char(rest, sep);
    let seg = slice_subrange(rest, 0, j);
    assert(seg@ =~= rest@.take(j as int));
    assert(j as int == rest@.len() ==> seg@ =~= rest@);
    assert(split_all(s@, sep)[1] == split_all(rest@, sep)[0]);
    Some(vstd::slice::slice_to_vec(seg))
}

/// The segments between the first `n - 1` separators and the rest.
pub fn split_n(s: &[char], n: usize, sep: char) -> (r: Vec<Vec<char>>)
    ensures
        pieces_of(r@) == split_first(s@, n as nat, sep),
{
    let mut out: Vec<Vec<char>> = Vec::new();
    let mut rest: &[char] = s;
    let mut left: usize = n;
    assert(pieces_of(out@) + split_first(rest@, left as nat, sep) =~= split_first(
        s@,
        n as nat,
        sep,
    ));
    while left > 1
        invariant_except_break
            pieces_of(out@) + split_first(rest@, left as nat, sep) == split_first(
                s@,
                n as nat,
                sep,
            ),
        ensures
            pieces_of(out@) + seq![rest@] == split_first(s@, n as nat, sep),
        decreases left,
    {
        let i = find_char(rest, sep);
        if i >= rest.len() {
            break;
        }
        let head = slice_subrange(rest, 0, i);
        let tail = slice_subrange(rest, i + 1, rest.len());
        let ghost before = out@;
        let v = vstd::slice::slice_to_vec(head);
        assert(v@ =~= rest@.take(i as int));
        assert(tail@ =~= rest@.skip(i + 1));
        out.push(v);
        assert(pieces_of(out@) =~= pieces_of(before).push(v@));
        assert(pieces_of(out@) + split_first(tail@, (left - 1) as nat, sep) =~= pieces_of(before)
            + split_first(rest@, left as nat, sep));
        rest = tail;
        left -= 1;
    }
    let ghost before = out@;
    let v = vstd::slice::slice_to_vec(rest);
    out.push(v);
    assert(pieces_of(out@) =~= pieces_of(before) + seq![rest@]);
    out
}

/// A line without a final carriage return.
pub open spec fn without_return(s: Seq<char>) -> Seq<char> {
    if s.len() > 0 && s.last() == '\r' {
        s.drop_last()
    } else {
        s
    }
}

/// The lines of a text: they end in a line feed, or in a carriage return and a line feed, and the
/// ending of the last one is optional.
pub open spec fn lines_of(s: Seq<char>) -> Seq<Seq<char>>
    decreases s.len(),
{
    let i = first_pos(s, equals('\n'));
    if s.len() == 0 {
        seq![]
    } else if i < 0 || i >= s.len() {
        seq![s]
    } else {
        seq![without_return(s.take(i))] + lines_of(s.skip(i + 1))
    }
}

/// The first line of a text ends at its first line feed.
pub proof fn lemma_lines_step(line: Seq<char>, rest: Seq<char>)
    requires
        forall|i: int| 0 <= i < line.len() ==> #[trigger] line[i] != '\n',
    ensures
        lines_of(line.push('\n') + rest) == seq![without_return(line)] + lines_of(rest),
{
    let s = line.push('\n') + rest;
    let n = line.len() as int;
    assert forall|k: int| 0 <= k < n implies !equals('\n')(#[trigger] s[k]) by {
        assert(s[k] == line[k]);
    }
    lemma_first_pos(s, equals('\n'), n);
    assert(s.take(n) =~= line);
    assert(s.skip(n + 1) =~= rest);
}

/// The lines of a text that ends in a line feed come before those of what follows it.
pub proof fn lemma_lines_append(s: Seq<char>, rest: Seq<char>)
    requires
        s.len() > 0 ==> s.last() == '\n',
    ensures
        lines_of(s + rest) == lines_of(s) + lines_of(rest),
    decreases s.len(),
{
    if s.len() == 0 {
        assert(s + rest =~= rest);
        assert(lines_of(s) + lines_of(rest) =~= lines_of(rest));
    } else {
        let i = first_pos(s, equals('\n'));
        lemma_first_pos_bounds(s, equals('\n'));
        if i == s.len() {
            assert(!equals('\n')(s[s.len() - 1]));
        }
        let line = s.take(i);
        let tail = s.skip(i + 1);
        assert forall|k: int| 0 <= k < line.len() implies #[trigger] line[k] != '\n' by {
            assert(!equals('\n')(s[k]));
        }
        assert(s =~= line.push('\n') + tail);
        assert(s + rest =~= line.push('\n') + (tail + rest));
        lemma_lines_step(line, tail);
        lemma_lines_step(line, tail + rest);
        lemma_lines_append(tail, rest);
        assert(seq![without_return(line)] + (lines_of(tail) + lines_of(rest)) =~= (seq![
            without_return(line),
        ] + lines_of(tail)) + lines_of(rest));
    }
}

/// The lines of a text.
pub fn lines(s: &[char]) -> (r: Vec<Vec<char>>)
    ensures
        pieces_of(r@) == lines_of(s@),
{
    let mut out: Vec<Vec<char>> = Vec::new();
    let mut rest: &[char] = s;
    assert(pieces_of(out@) + lines_of(rest@) =~= lines_of(s@));
    while rest.len() > 0
        invariant
            pieces_of(out@) + lines_of(rest@) == lines_of(s@),
        decreases rest@.len(),
    {
        let ghost before = out@;
        let i = find_char(rest, '\n');
        if i >= rest.len() {
            let v = vstd::slice::slice_to_vec(rest);
            out.push(v);
            assert(pieces_of(out@) =~= pieces_of(before) + lines_of(rest@));
            return out;
        }
        let line = slice_subrange(rest, 0, i);
        assert(line@ =~= rest@.take(i as int));
        let line = if i > 0 && line[i - 1] == '\r' {
            slice_subrange(line, 0, i - 1)
        } else {
            line
        };
        assert(line@ =~= without_return(rest@.take(i as int)));
        let tail = slice_subrange(rest, i + 1, rest.len());
        assert(tail@ =~= rest@.skip(i + 1));
        let v = vstd::slice::slice_to_vec(line);
        out.push(v);
        assert(pieces_of(out@) =~= pieces_of(before).push(line@));
        assert(pieces_of(out@) + lines_of(tail@) =~= pieces_of(before) + lines_of(rest@));
        rest = tail;
    }
    assert(pieces_of(out@) + lines_of(rest@) =~= pieces_of(out@));
    out
}

// ---------------------------------------------------------------------------
// Laws
// ---------------------------------------------------------------------------

/// Characters are equal up to case if they are the same, or if they are an ASCII letter and its
/// counterpart, whose codes are thirty-two apart; texts are, if they are equally long and so are
/// their characters, one by one.
pub proof fn case_is_ignored_character_by_character(a: Seq<char>, b: Seq<char>)
    ensures
        same_ignoring_case(a, b) <==> {
            &&& a.len() == b.len()
            &&& forall|i: int|
                #![trigger a[i]]
                0 <= i < a.len() ==> {
                    ||| a[i] == b[i]
                    ||| 'a' <= a[i] <= 'z' && b[i] as u32 == a[i] as u32 - 32
                    ||| 'a' <= b[i] <= 'z' && a[i] as u32 == b[i] as u32 - 32
                }
        },
{
    if a.len() == b.len() {
        assert forall|i: int| #![trigger a[i]] 0 <= i < a.len() implies (ascii_upper(a[i])
            == ascii_upper(b[i]) <==> {
            ||| a[i] == b[i]
            ||| 'a' <= a[i] <= 'z' && b[i] as u32 == a[i] as u32 - 32
            ||| 'a' <= b[i] <= 'z' && a[i] as u32 == b[i] as u32 - 32
        }) by {
            lemma_upper_codes(a[i], b[i]);
        }
    }
}

proof fn lemma_upper_codes(c: char, d: char)
    ensures
        ascii_upper(c) == ascii_upper(d) <==> {
            ||| c == d
            ||| 'a' <= c <= 'z' && d as u32 == c as u32 - 32
            ||| 'a' <= d <= 'z' && c as u32 == d as u32 - 32
        },
{
    let m = c as u32;
    let n = d as u32;
    vstd::utf8::char_u32_cast(c, m);
    vstd::utf8::char_u32_cast(d, n);
}

/// The upper-case form of an ASCII text is equally long. Its letters `a` to `z` are replaced by
/// those whose codes are thirty-two less, and nothing else is changed.
pub proof fn ascii_letters_are_raised(s: Seq<char>, i: int)
    requires
        forall|k: int| 0 <= k < s.len() ==> #[trigger] s[k] <= '\u{7f}',
        0 <= i < s.len(),
    ensures
        upper_text(s).len() == s.len(),
        'a' <= s[i] <= 'z' ==> upper_text(s)[i] as u32 == s[i] as u32 - 32,
        !('a' <= s[i] <= 'z') ==> upper_text(s)[i] == s[i],
{
}

/// Trimming leaves the middle of a text that is white space, a middle that neither begins nor ends
/// with white space, and white space again. Of a text of white space it leaves nothing.
pub proof fn trimming_leaves_the_middle(before: Seq<char>, middle: Seq<char>, after: Seq<char>)
    requires
        forall|i: int| 0 <= i < before.len() ==> is_white_space(#[trigger] before[i]),
        forall|i: int| 0 <= i < after.len() ==> is_white_space(#[trigger] after[i]),
        middle.len() > 0 ==> !is_white_space(middle[0]) && !is_white_space(middle.last()),
    ensures
        trimmed(before + middle + after) == middle,
{
    if middle.len() > 0 {
        lemma_trimmed(before, middle, after);
    } else {
        let s = before + middle + after;
        assert forall|k: int| 0 <= k < s.len() implies !not_white()(#[trigger] s[k]) by {
            if k < before.len() {
                assert(s[k] == before[k]);
            } else {
                assert(s[k] == after[k - before.len()]);
            }
        }
        lemma_first_pos(s, not_white(), s.len() as int);
        assert(s.skip(s.len() as int) =~= Seq::<char>::empty());
        assert(trimmed(s) =~= middle);
    }
}

/// Cleaning a text without control characters trims it.
pub proof fn clean_texts_are_trimmed(s: Seq<char>)
    requires
        forall|i: int| 0 <= i < s.len() ==> !is_control_char(#[trigger] s[i]),
    ensures
        cleaned(s) == trimmed(s),
{
    lemma_all_kept(s);
}

proof fn lemma_all_kept(s: Seq<char>)
    requires
        forall|i: int| 0 <= i < s.len() ==> !is_control_char(#[trigger] s[i]),
    ensures
        without_controls(s) == s,
    decreases s.len(),
{
    reveal(Seq::filter);
    if s.len() > 0 {
        let front = s.drop_last();
        assert forall|i: int| 0 <= i < front.len() implies !is_control_char(
            #[trigger] front[i],
        ) by {
            assert(front[i] == s[i]);
        }
        assert(!is_control_char(s[s.len() - 1]));
        lemma_all_kept(front);
        assert(front.push(s.last()) =~= s);
    } else {
        assert(without_controls(s) =~= s);
    }
}

/// A control character anywhere in a text makes no difference once it is cleaned.
pub proof fn control_characters_are_dropped(before: Seq<char>, c: char, after: Seq<char>)
    requires
        is_control_char(c),
    ensures
        cleaned(before + seq![c] + after) == cleaned(before + after),
{
    let keep = |x: char| !is_control_char(x);
    Seq::filter_distributes_over_add(before, seq![c], keep);
    Seq::filter_distributes_over_add(before + seq![c], after, keep);
    Seq::filter_distributes_over_add(before, after, keep);
    assert(seq![c].filter(keep) =~= Seq::<char>::empty()) by {
        reveal_with_fuel(Seq::filter, 2);
        assert(seq![c].last() == c);
        assert(seq![c].drop_last() =~= Seq::<char>::empty());
    }
    assert(before.filter(keep) + seq![c].filter(keep) =~= before.filter(keep));
    assert(without_controls(before + seq![c] + after) =~= without_controls(before + after));
}

/// The second segment of a text lies between the first two separators, or between the only one and
/// the end. A text without a separator has none.
pub proof fn second_segment_is_between(head: Seq<char>, segment: Seq<char>, tail: Seq<char>, sep: char)
    requires
        !head.contains(sep),
        !segment.contains(sep),
    ensures
        second_segment(head + seq![sep] + segment + seq![sep] + tail, sep) == Some(segment),
        second_segment(head + seq![sep] + segment, sep) == Some(segment),
        second_segment(head, sep) is None,
{
    let rest = segment + seq![sep] + tail;
    lemma_split_all_step(segment, tail, sep);
    lemma_split_all_step(head, rest, sep);
    assert(head + seq![sep] + rest =~= head + seq![sep] + segment + seq![sep] + tail);
    lemma_split_all_step(head, segment, sep);
    lemma_split_all_whole(segment, sep);
    lemma_split_all_whole(head, sep);
}

proof fn lemma_split_all_step(head: Seq<char>, tail: Seq<char>, sep: char)
    requires
        !head.contains(sep),
    ensures
        split_all(head + seq![sep] + tail, sep) == seq![head] + split_all(tail, sep),
{
    let s = head + seq![sep] + tail;
    let i = head.len() as int;
    assert forall|k: int| 0 <= k < i implies !equals(sep)(#[trigger] s[k]) by {
        assert(s[k] == head[k]);
        assert(head.contains(head[k]));
    }
    assert(s[i] == sep);
    lemma_first_pos(s, equals(sep), i);
    assert(s.take(i) =~= head);
    assert(s.skip(i + 1) =~= tail);
}

proof fn lemma_split_all_whole(s: Seq<char>, sep: char)
    requires
        !s.contains(sep),
    ensures
        split_all(s, sep) == seq![s],
{
    assert forall|k: int| 0 <= k < s.len() implies !equals(sep)(#[trigger] s[k]) by {
        assert(s.contains(s[k]));
    }
    lemma_first_pos(s, equals(sep), s.len() as int);
}

/// The last part of a text is all that is left: once there is only one part to make, or where no
/// separator is left.
pub proof fn last_part_is_the_rest(s: Seq<char>, n: nat, sep: char)
    ensures
        split_first(s, 1, sep) == seq![s],
        !s.contains(sep) ==> split_first(s, n, sep) == seq![s],
{
    if !s.contains(sep) {
        assert forall|k: int| 0 <= k < s.len() implies !equals(sep)(#[trigger] s[k]) by {
            assert(s.contains(s[k]));
        }
        lemma_first_pos(s, equals(sep), s.len() as int);
    }
}

/// A line ends at its line feed; a carriage return before that does not belong to it. What is left
/// after the last line feed is a line as it stands, unless it is empty.
pub proof fn lines_end_at_line_feeds(line: Seq<char>, rest: Seq<char>)
    requires
        !line.contains('\n'),
    ensures
        line.len() == 0 || line.last() != '\r' ==> lines_of(line + seq!['\n'] + rest) == seq![line]
            + lines_of(rest),
        lines_of(line + seq!['\r', '\n'] + rest) == seq![line] + lines_of(rest),
        line.len() > 0 ==> lines_of(line) == seq![line],
        lines_of(Seq::<char>::empty()) == Seq::<Seq<char>>::empty(),
{
    assert forall|i: int| 0 <= i < line.len() implies #[trigger] line[i] != '\n' by {
        assert(line.contains(line[i]));
    }
    assert(line.push('\n') + rest =~= line + seq!['\n'] + rest);
    lemma_lines_step(line, rest);
    let returned = line.push('\r');
    assert(returned.push('\n') + rest =~= line + seq!['\r', '\n'] + rest);
    lemma_lines_step(returned, rest);
    assert(returned.drop_last() =~= line);
    assert forall|k: int| 0 <= k < line.len() implies !equals('\n')(#[trigger] line[k]) by {}
    lemma_first_pos(line, equals('\n'), line.len() as int);
}

/// A text is found where it occurs first: it stands there, and nowhere before. It is not found only
/// if it stands nowhere.
pub proof fn texts_are_found_first(s: Seq<char>, p: Seq<char>)
    ensures
        match find_text(s, p) {
            Some(i) => {
                &&& 0 <= i && i + p.len() <= s.len()
                &&& s.subrange(i, i + p.len()) == p
                &&& forall|k: int|
                    0 <= k < i && k + p.len() <= s.len() ==> #[trigger] s.subrange(k, k + p.len())
                        != p
            },
            None => forall|k: int|
                0 <= k && k + p.len() <= s.len() ==> #[trigger] s.subrange(k, k + p.len()) != p,
        },
    decreases s.len(),
{
    let n = p.len() as int;
    if p.is_prefix_of(s) {
        assert(s.subrange(0, n) =~= p);
    } else {
        assert(n <= s.len() ==> s.subrange(0, n) != p);
        if s.len() > 0 {
            let t = s.skip(1);
            texts_are_found_first(t, p);
            assert forall|k: int| 0 < k && k + n <= s.len() implies #[trigger] s.subrange(k, k + n)
                == t.subrange(k - 1, k - 1 + n) by {
                assert(s.subrange(k, k + n) =~= t.subrange(k - 1, k - 1 + n));
            }
            if find_text(t, p) is Some {
                let i = find_text(t, p)->0;
                assert(s.subrange(i + 1, i + 1 + n) =~= t.subrange(i, i + n));
            }
        }
    }
}

/// A text that stands anywhere is found.
pub proof fn texts_are_found_anywhere(before: Seq<char>, p: Seq<char>, after: Seq<char>)
    ensures
        find_text(before + p + after, p) is Some,
{
    let s = before + p + after;
    let i = before.len() as int;
    assert(s.subrange(i, i + p.len()) =~= p);
    texts_are_found_first(s, p);
}

} // verus!
