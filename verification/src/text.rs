//! Character-sequence primitives shared by the rest of the library.
//!
//! Strings are modelled by their view, a `Seq<char>`.  Every operation here is
//! specified by a spec function over `Seq<char>` and implemented by a verified
//! loop over a `Vec<char>`.
use vstd::prelude::*;
use vstd::string::*;

verus! {

// ---------------------------------------------------------------------------
// Specifications
// ---------------------------------------------------------------------------

/// Unicode `White_Space`, the property that `char::is_whitespace` tests.
pub open spec fn is_ws(c: char) -> bool {
    ||| ('\u{9}' <= c && c <= '\u{d}')
    ||| c == ' '
    ||| c == '\u{85}'
    ||| c == '\u{a0}'
    ||| c == '\u{1680}'
    ||| ('\u{2000}' <= c && c <= '\u{200a}')
    ||| c == '\u{2028}'
    ||| c == '\u{2029}'
    ||| c == '\u{202f}'
    ||| c == '\u{205f}'
    ||| c == '\u{3000}'
}

/// Every character of `s` is whitespace (so `s.trim()` is empty).
pub open spec fn all_ws(s: Seq<char>) -> bool {
    forall|i: int| 0 <= i < s.len() ==> #[trigger] is_ws(s[i])
}

/// Some character of `s` is whitespace.
pub open spec fn any_ws(s: Seq<char>) -> bool {
    exists|i: int| 0 <= i < s.len() && #[trigger] is_ws(s[i])
}

/// `s` with its leading whitespace removed (`str::trim_start`).
pub open spec fn trim_start_ws(s: Seq<char>) -> Seq<char>
    decreases s.len(),
{
    if s.len() > 0 && is_ws(s[0]) {
        trim_start_ws(s.drop_first())
    } else {
        s
    }
}

/// `s` with its trailing whitespace removed (`str::trim_end`).
pub open spec fn trim_end_ws(s: Seq<char>) -> Seq<char>
    decreases s.len(),
{
    if s.len() > 0 && is_ws(s.last()) {
        trim_end_ws(s.drop_last())
    } else {
        s
    }
}

/// `s` with leading and trailing whitespace removed (`str::trim`).
pub open spec fn trim_ws(s: Seq<char>) -> Seq<char> {
    trim_end_ws(trim_start_ws(s))
}

/// The views of a sequence of character vectors.
pub open spec fn char_rows(v: Seq<Vec<char>>) -> Seq<Seq<char>> {
    Seq::new(v.len(), |i: int| v[i]@)
}

/// `n` occurs in `h` starting at index `i`.
pub open spec fn occurs_at(h: Seq<char>, n: Seq<char>, i: int) -> bool {
    0 <= i && i + n.len() <= h.len() && h.subrange(i, i + n.len()) == n
}

/// `n` occurs somewhere in `h` (`str::contains` with a string pattern).
pub open spec fn has_substr(h: Seq<char>, n: Seq<char>) -> bool {
    exists|i: int| #[trigger] occurs_at(h, n, i)
}

/// `s` starts with `p` (`str::starts_with`).
pub open spec fn has_prefix(s: Seq<char>, p: Seq<char>) -> bool {
    p.len() <= s.len() && s.subrange(0, p.len() as int) == p
}

/// `s` with every leading copy of the non-empty `p` removed
/// (`str::trim_start_matches` with a string pattern).
pub open spec fn strip_prefix_all(s: Seq<char>, p: Seq<char>) -> Seq<char>
    decreases s.len(),
{
    if p.len() > 0 && has_prefix(s, p) {
        strip_prefix_all(s.subrange(p.len() as int, s.len() as int), p)
    } else {
        s
    }
}

/// The ASCII lower-case form of one character.
pub open spec fn ascii_lower_char(c: char) -> char {
    if 'A' <= c && c <= 'Z' {
        ((c as int) + 32) as char
    } else {
        c
    }
}

/// The ASCII upper-case form of one character.
pub open spec fn ascii_upper_char(c: char) -> char {
    if 'a' <= c && c <= 'z' {
        ((c as int) - 32) as char
    } else {
        c
    }
}

/// The ASCII lower-case form of a sequence.
pub open spec fn ascii_lower(s: Seq<char>) -> Seq<char> {
    Seq::new(s.len(), |i: int| ascii_lower_char(s[i]))
}

/// The ASCII upper-case form of a sequence.
pub open spec fn ascii_upper(s: Seq<char>) -> Seq<char> {
    Seq::new(s.len(), |i: int| ascii_upper_char(s[i]))
}

/// Every character of `s` is ASCII.
pub open spec fn is_ascii_seq(s: Seq<char>) -> bool {
    forall|i: int| 0 <= i < s.len() ==> (#[trigger] s[i] as int) < 128
}

/// What `str::to_lowercase` returns for a string with this view.
pub uninterp spec fn lowercase_of(s: Seq<char>) -> Seq<char>;

/// The lower-case form of a string (`str::to_lowercase`): character by
/// character for ASCII text, the Unicode lower-case mapping otherwise.
pub open spec fn to_lower(s: Seq<char>) -> Seq<char> {
    if is_ascii_seq(s) {
        ascii_lower(s)
    } else {
        lowercase_of(s)
    }
}

/// An ASCII letter or digit: a character that continues a word.
pub open spec fn is_word_char(c: char) -> bool {
    ('a' <= c && c <= 'z') || ('A' <= c && c <= 'Z') || ('0' <= c && c <= '9')
}

/// `w` occurs in `h` at index `i` at the start of a word: the character just
/// before it, if there is one, is no word character.
pub open spec fn word_start_at(h: Seq<char>, w: Seq<char>, i: int) -> bool {
    &&& occurs_at(h, w, i)
    &&& (i == 0 || !is_word_char(h[i - 1]))
}

/// `w` occurs in `h` at the start of a word.
pub open spec fn has_word_start(h: Seq<char>, w: Seq<char>) -> bool {
    exists|i: int| #[trigger] word_start_at(h, w, i)
}

/// Some word of `words` occurs in `l`.
pub open spec fn mentions_any(l: Seq<char>, words: Seq<Seq<char>>) -> bool {
    exists|k: int| 0 <= k < words.len() && has_substr(l, #[trigger] words[k])
}

/// For ASCII text, a word found in the lower-case form of `m` is still found
/// in the lower-case form of any text around it.
pub proof fn lemma_mentions_any_in_context(
    before: Seq<char>,
    m: Seq<char>,
    after: Seq<char>,
    words: Seq<Seq<char>>,
)
    requires
        is_ascii_seq(before),
        is_ascii_seq(m),
        is_ascii_seq(after),
        mentions_any(to_lower(m), words),
    ensures
        mentions_any(to_lower(before + m + after), words),
{
    let whole = before + m + after;
    let nb = before.len() as int;
    let nm = m.len() as int;
    assert forall|i: int| 0 <= i < whole.len() implies (#[trigger] whole[i] as int) < 128 by {
        if i < nb {
            assert(whole[i] == before[i]);
        } else if i < nb + nm {
            assert(whole[i] == m[i - nb]);
        } else {
            assert(whole[i] == after[i - nb - nm]);
        }
    }
    let lw = ascii_lower(whole);
    let lm = ascii_lower(m);
    let k = choose|k: int| 0 <= k < words.len() && has_substr(lm, #[trigger] words[k]);
    let w = words[k];
    let i = choose|i: int| #[trigger] occurs_at(lm, w, i);
    let j = nb + i;
    assert forall|q: int| 0 <= q < w.len() implies #[trigger] lw.subrange(j, j + w.len())[q]
        == lm.subrange(i, i + w.len())[q] by {
        assert(whole[j + q] == m[i + q]);
    }
    assert(lw.subrange(j, j + w.len()) =~= lm.subrange(i, i + w.len()));
    assert(occurs_at(lw, w, j));
}

/// The smallest index `j >= i` with `s[j] == c`, or `s.len()` if there is none.
pub open spec fn next_index_of(s: Seq<char>, i: int, c: char) -> int
    decreases s.len() - i,
{
    if i >= s.len() {
        s.len() as int
    } else if s[i] == c {
        i
    } else {
        next_index_of(s, i + 1, c)
    }
}

/// `line` without one trailing carriage return.
pub open spec fn strip_cr(line: Seq<char>) -> Seq<char> {
    if line.len() > 0 && line.last() == '\r' {
        line.drop_last()
    } else {
        line
    }
}

/// The lines of `s` from index `i` on, as `str::lines` yields them: pieces
/// ended by `'\n'` (with one `'\r'` before it removed), and a final piece
/// without `'\n'` if one is left.
pub open spec fn lines_from(s: Seq<char>, i: int) -> Seq<Seq<char>>
    decreases s.len() - i,
{
    if i < 0 || i >= s.len() {
        Seq::empty()
    } else {
        let j = next_index_of(s, i, '\n');
        if j < s.len() {
            proof {
                lemma_next_index_of_bounds(s, i, '\n');
            }
            seq![strip_cr(s.subrange(i, j))] + lines_from(s, j + 1)
        } else {
            seq![s.subrange(i, s.len() as int)]
        }
    }
}

/// `str::lines`.
pub open spec fn lines_of(s: Seq<char>) -> Seq<Seq<char>> {
    lines_from(s, 0)
}

/// The pieces of `s` from index `i` on, as `str::split` with a character
/// pattern yields them; there is always at least one piece.
pub open spec fn split_from(s: Seq<char>, i: int, c: char) -> Seq<Seq<char>>
    decreases s.len() - i,
{
    if i < 0 || i > s.len() {
        Seq::empty()
    } else {
        let j = next_index_of(s, i, c);
        if j < s.len() {
            proof {
                lemma_next_index_of_bounds(s, i, c);
            }
            seq![s.subrange(i, j)] + split_from(s, j + 1, c)
        } else {
            seq![s.subrange(i, s.len() as int)]
        }
    }
}

/// `str::split` with a character pattern.
pub open spec fn split_of(s: Seq<char>, c: char) -> Seq<Seq<char>> {
    split_from(s, 0, c)
}

// ---------------------------------------------------------------------------
// Lemmas
// ---------------------------------------------------------------------------

/// No word of an empty list is mentioned.
pub broadcast proof fn lemma_mentions_any_empty(l: Seq<char>)
    ensures
        !#[trigger] mentions_any(l, Seq::<Seq<char>>::empty()),
{
}

/// A list with one more word is mentioned when the shorter list is or the new
/// word occurs.
pub broadcast proof fn lemma_mentions_any_push(l: Seq<char>, words: Seq<Seq<char>>, w: Seq<char>)
    ensures
        #[trigger] mentions_any(l, words.push(w)) == (mentions_any(l, words) || has_substr(l, w)),
{
    let ws = words.push(w);
    if mentions_any(l, ws) {
        let k = choose|k: int| 0 <= k < ws.len() && has_substr(l, #[trigger] ws[k]);
        if k < words.len() {
            assert(ws[k] == words[k]);
        }
    }
    if mentions_any(l, words) {
        let k = choose|k: int| 0 <= k < words.len() && has_substr(l, #[trigger] words[k]);
        assert(ws[k] == words[k]);
    }
    if has_substr(l, w) {
        assert(ws[words.len() as int] == w);
    }
}

/// The last piece of `split_from(s, i, c)` starts at `k` when `k` is `i` or
/// just after a `c`, and no `c` follows `k`.
pub proof fn lemma_split_from_last(s: Seq<char>, i: int, c: char, k: int)
    requires
        0 <= i <= k <= s.len(),
        k == i || s[k - 1] == c,
        forall|q: int| k <= q < s.len() ==> s[q] != c,
    ensures
        split_from(s, i, c).len() > 0,
        split_from(s, i, c).last() == s.subrange(k, s.len() as int),
    decreases s.len() - i,
{
    lemma_next_index_of_bounds(s, i, c);
    let j = next_index_of(s, i, c);
    if j < s.len() {
        assert(j < k);
        lemma_split_from_last(s, j + 1, c, k);
    } else {
        if k > i {
            assert(s[k - 1] != c);
        }
    }
}

pub proof fn lemma_next_index_of_bounds(s: Seq<char>, i: int, c: char)
    requires
        0 <= i,
    ensures
        i <= next_index_of(s, i, c) <= s.len() || (i > s.len() && next_index_of(s, i, c)
            == s.len()),
        next_index_of(s, i, c) < s.len() ==> s[next_index_of(s, i, c)] == c,
        forall|k: int| i <= k < next_index_of(s, i, c) ==> s[k] != c,
    decreases s.len() - i,
{
    if i < s.len() && s[i] != c {
        lemma_next_index_of_bounds(s, i + 1, c);
    }
}

pub proof fn lemma_trim_start_all_ws(s: Seq<char>)
    ensures
        all_ws(s) <==> trim_start_ws(s).len() == 0,
    decreases s.len(),
{
    if s.len() > 0 {
        if is_ws(s[0]) {
            lemma_trim_start_all_ws(s.drop_first());
            if all_ws(s.drop_first()) {
                assert forall|i: int| 0 <= i < s.len() implies #[trigger] is_ws(s[i]) by {
                    if i > 0 {
                        assert(s[i] == s.drop_first()[i - 1]);
                    }
                }
            } else {
                let k = choose|k: int| 0 <= k < s.drop_first().len() && !is_ws(
                    #[trigger] s.drop_first()[k],
                );
                assert(!is_ws(s[k + 1]));
            }
        } else {
            assert(!is_ws(s[0]));
        }
    }
}

pub proof fn lemma_trim_end_all_ws(s: Seq<char>)
    ensures
        all_ws(s) <==> trim_end_ws(s).len() == 0,
    decreases s.len(),
{
    if s.len() > 0 {
        if is_ws(s.last()) {
            lemma_trim_end_all_ws(s.drop_last());
            if all_ws(s.drop_last()) {
                assert forall|i: int| 0 <= i < s.len() implies #[trigger] is_ws(s[i]) by {
                    if i < s.len() - 1 {
                        assert(s[i] == s.drop_last()[i]);
                    }
                }
            } else {
                let k = choose|k: int| 0 <= k < s.drop_last().len() && !is_ws(
                    #[trigger] s.drop_last()[k],
                );
                assert(!is_ws(s[k]));
            }
        } else {
            assert(!is_ws(s[s.len() - 1]));
        }
    }
}

/// `s.trim().is_empty()` exactly when every character of `s` is whitespace.
pub proof fn lemma_trim_empty_iff_all_ws(s: Seq<char>)
    ensures
        all_ws(s) <==> trim_ws(s).len() == 0,
{
    lemma_trim_start_all_ws(s);
    lemma_trim_end_all_ws(trim_start_ws(s));
    lemma_trim_start_suffix(s);
    let t = trim_start_ws(s);
    if all_ws(t) && !all_ws(s) {
        let k = choose|k: int| 0 <= k < s.len() && !is_ws(#[trigger] s[k]);
        let d = s.len() - t.len();
        if k >= d {
            assert(s[k] == t[k - d]);
        }
    }
}

/// `trim_start_ws(s)` is a suffix of `s`, and everything cut off is whitespace.
pub proof fn lemma_trim_start_suffix(s: Seq<char>)
    ensures
        trim_start_ws(s).len() <= s.len(),
        trim_start_ws(s) == s.subrange(s.len() - trim_start_ws(s).len(), s.len() as int),
        forall|k: int| 0 <= k < s.len() - trim_start_ws(s).len() ==> #[trigger] is_ws(s[k]),
    decreases s.len(),
{
    if s.len() > 0 && is_ws(s[0]) {
        lemma_trim_start_suffix(s.drop_first());
        let t = trim_start_ws(s);
        assert(s.drop_first().subrange(s.len() - 1 - t.len(), s.len() - 1) =~= s.subrange(
            s.len() - t.len(),
            s.len() as int,
        ));
        assert forall|k: int| 0 <= k < s.len() - t.len() implies #[trigger] is_ws(s[k]) by {
            if k > 0 {
                assert(s[k] == s.drop_first()[k - 1]);
            }
        }
    } else {
        assert(s.subrange(0, s.len() as int) =~= s);
    }
}

/// What `trim_start_ws` leaves starts with a character that is not
/// whitespace, if it is not empty.
pub proof fn lemma_trim_start_first(s: Seq<char>)
    ensures
        trim_start_ws(s).len() > 0 ==> !is_ws(trim_start_ws(s)[0]),
    decreases s.len(),
{
    if s.len() > 0 && is_ws(s[0]) {
        lemma_trim_start_first(s.drop_first());
    }
}

/// `trim_end_ws(s)` is a prefix of `s`, and everything cut off is whitespace.
pub proof fn lemma_trim_end_prefix(s: Seq<char>)
    ensures
        trim_end_ws(s).len() <= s.len(),
        trim_end_ws(s) == s.subrange(0, trim_end_ws(s).len() as int),
        forall|k: int| trim_end_ws(s).len() <= k < s.len() ==> #[trigger] is_ws(s[k]),
        trim_end_ws(s).len() > 0 ==> !is_ws(trim_end_ws(s).last()),
    decreases s.len(),
{
    if s.len() > 0 && is_ws(s.last()) {
        lemma_trim_end_prefix(s.drop_last());
        let t = trim_end_ws(s);
        assert(s.drop_last().subrange(0, t.len() as int) =~= s.subrange(0, t.len() as int));
        assert forall|k: int| t.len() <= k < s.len() implies #[trigger] is_ws(s[k]) by {
            if k < s.len() - 1 {
                assert(s[k] == s.drop_last()[k]);
            }
        }
    } else {
        assert(s.subrange(0, s.len() as int) =~= s);
    }
}

/// Upper-casing ASCII text keeps it ASCII and does not change its lower-case
/// form.
pub proof fn lemma_to_lower_of_ascii_upper(m: Seq<char>)
    requires
        is_ascii_seq(m),
    ensures
        is_ascii_seq(ascii_upper(m)),
        to_lower(ascii_upper(m)) == to_lower(m),
{
    let u = ascii_upper(m);
    assert forall|i: int| 0 <= i < u.len() implies (#[trigger] u[i] as int) < 128 by {
        assert((m[i] as int) < 128);
    }
    assert(ascii_lower(u) =~= ascii_lower(m));
}

/// Appending whitespace does not change what `trim_end_ws` leaves.
pub proof fn lemma_trim_end_push_ws(s: Seq<char>, c: char)
    requires
        is_ws(c),
    ensures
        trim_end_ws(s.push(c)) == trim_end_ws(s),
{
    assert(s.push(c).drop_last() =~= s);
}

/// A sequence occurs in any concatenation that has it in the middle.
pub proof fn lemma_has_substr_middle(a: Seq<char>, b: Seq<char>, c: Seq<char>)
    ensures
        has_substr(a + b + c, b),
{
    assert((a + b + c).subrange(a.len() as int, (a.len() + b.len()) as int) =~= b);
    assert(occurs_at(a + b + c, b, a.len() as int));
}

// ---------------------------------------------------------------------------
// Trusted calls into std
// ---------------------------------------------------------------------------

/// Calls `str::to_lowercase`.  Claims that the result is the named
/// `lowercase_of` of the input's view, and, as the documentation of the Unicode
/// lower-case mapping gives for ASCII text, that an all-ASCII input is mapped
/// character by character, `'A'..='Z'` to `'a'..='z'` and every other character
/// to itself.  Nothing is stated of non-ASCII input beyond the name.
#[verifier::external_body]
fn str_to_lowercase(s: &str) -> (res: String)
    ensures
        res@ == lowercase_of(s@),
        is_ascii_seq(s@) ==> res@ == ascii_lower(s@),
{
    s.to_lowercase()
}

/// Calls `String::push`.  Claims that the character is appended at the end.
#[verifier::external_body]
fn string_push(s: &mut String, c: char)
    ensures
        final(s)@ == old(s)@.push(c),
{
    s.push(c)
}

// ---------------------------------------------------------------------------
// Executable operations
// ---------------------------------------------------------------------------

/// The characters of `s`, in order.
pub(crate) fn chars_of(s: &str) -> (res: Vec<char>)
    ensures
        res@ == s@,
{
    let mut res: Vec<char> = Vec::new();
    for c in it: s.chars()
        invariant
            res@ == it.seq().take(it.index() as int),
            it.seq() == s@,
    {
        res.push(c);
    }
    res
}

/// A string holding the characters of `v`.
pub(crate) fn string_from_chars(v: &Vec<char>) -> (res: String)
    ensures
        res@ == v@,
{
    let mut res = String::new();
    let n = v.len();
    for i in 0..n
        invariant
            n == v.len(),
            res@ == v@.take(i as int),
    {
        string_push(&mut res, v[i]);
        assert(v@.take(i + 1) =~= v@.take(i as int).push(v@[i as int]));
    }
    assert(v@.take(n as int) =~= v@);
    res
}

/// An owned copy of `s`.
pub(crate) fn string_of(s: &str) -> (res: String)
    ensures
        res@ == s@,
{
    String::from_str(s)
}

/// The lower-case characters of `s` (`str::to_lowercase`).
pub(crate) fn lowercase_chars(s: &str) -> (res: Vec<char>)
    ensures
        res@ == to_lower(s@),
{
    let lower = str_to_lowercase(s);
    chars_of(lower.as_str())
}

/// `char::is_whitespace`.
pub(crate) fn is_whitespace(c: char) -> (res: bool)
    ensures
        res == is_ws(c),
{
    ('\u{9}' <= c && c <= '\u{d}') || c == ' ' || c == '\u{85}' || c == '\u{a0}' || c
        == '\u{1680}' || ('\u{2000}' <= c && c <= '\u{200a}') || c == '\u{2028}' || c
        == '\u{2029}' || c == '\u{202f}' || c == '\u{205f}' || c == '\u{3000}'
}

/// Whether every character of `v` is whitespace (`v.trim().is_empty()`).
pub(crate) fn is_blank(v: &Vec<char>) -> (res: bool)
    ensures
        res == all_ws(v@),
{
    let n = v.len();
    for i in 0..n
        invariant
            n == v.len(),
            forall|k: int| 0 <= k < i ==> #[trigger] is_ws(v@[k]),
    {
        if !is_whitespace(v[i]) {
            return false;
        }
    }
    true
}

/// Whether some character of `v` is whitespace.
pub(crate) fn has_whitespace(v: &Vec<char>) -> (res: bool)
    ensures
        res == any_ws(v@),
{
    let n = v.len();
    for i in 0..n
        invariant
            n == v.len(),
            forall|k: int| 0 <= k < i ==> !#[trigger] is_ws(v@[k]),
    {
        if is_whitespace(v[i]) {
            return true;
        }
    }
    false
}

/// The characters `v[from..to]`.
pub(crate) fn sub_chars(v: &Vec<char>, from: usize, to: usize) -> (res: Vec<char>)
    requires
        from <= to <= v.len(),
    ensures
        res@ == v@.subrange(from as int, to as int),
{
    let mut res: Vec<char> = Vec::new();
    let mut i = from;
    while i < to
        invariant
            from <= i <= to <= v.len(),
            res@ == v@.subrange(from as int, i as int),
        decreases to - i,
    {
        res.push(v[i]);
        assert(v@.subrange(from as int, i + 1) =~= v@.subrange(from as int, i as int).push(
            v@[i as int],
        ));
        i = i + 1;
    }
    res
}

/// Appends the characters of `w` to `v`.
pub(crate) fn append_chars(v: &mut Vec<char>, w: &Vec<char>)
    ensures
        final(v)@ == old(v)@ + w@,
{
    let n = w.len();
    for i in 0..n
        invariant
            n == w.len(),
            v@ == old(v)@ + w@.take(i as int),
    {
        v.push(w[i]);
        assert(w@.take(i + 1) =~= w@.take(i as int).push(w@[i as int]));
    }
    assert(w@.take(n as int) =~= w@);
}

/// `v` with its leading whitespace removed.
pub(crate) fn trim_start_chars(v: &Vec<char>) -> (res: Vec<char>)
    ensures
        res@ == trim_start_ws(v@),
{
    let n = v.len();
    let mut i: usize = 0;
    assert(v@.subrange(0, n as int) =~= v@);
    while i < n && is_whitespace(v[i])
        invariant
            i <= n == v.len(),
            trim_start_ws(v@) == trim_start_ws(v@.subrange(i as int, n as int)),
        decreases n - i,
    {
        assert(v@.subrange(i as int, n as int).drop_first() =~= v@.subrange(i + 1, n as int));
        i = i + 1;
    }
    sub_chars(v, i, n)
}

/// `v` with its trailing whitespace removed.
pub(crate) fn trim_end_chars(v: &Vec<char>) -> (res: Vec<char>)
    ensures
        res@ == trim_end_ws(v@),
{
    let mut j: usize = v.len();
    assert(v@.subrange(0, j as int) =~= v@);
    while j > 0 && is_whitespace(v[j - 1])
        invariant
            j <= v.len(),
            trim_end_ws(v@) == trim_end_ws(v@.subrange(0, j as int)),
        decreases j,
    {
        assert(v@.subrange(0, j as int).drop_last() =~= v@.subrange(0, j - 1));
        j = j - 1;
    }
    sub_chars(v, 0, j)
}

/// `v` with leading and trailing whitespace removed.
pub(crate) fn trim_chars(v: &Vec<char>) -> (res: Vec<char>)
    ensures
        res@ == trim_ws(v@),
{
    let t = trim_start_chars(v);
    trim_end_chars(&t)
}

/// Whether `n` occurs in `h` at index `i`.
fn occurs_at_exec(h: &Vec<char>, n: &Vec<char>, i: usize) -> (res: bool)
    requires
        i + n.len() <= h.len(),
    ensures
        res == occurs_at(h@, n@, i as int),
{
    let m = n.len();
    for k in 0..m
        invariant
            m == n.len(),
            i + m <= h.len(),
            forall|q: int| 0 <= q < k ==> h@[i + q] == n@[q],
    {
        if h[i + k] != n[k] {
            assert(h@.subrange(i as int, i + m)[k as int] != n@[k as int]);
            return false;
        }
    }
    assert(h@.subrange(i as int, i + m) =~= n@);
    true
}

/// Whether `n` occurs in `h` (`str::contains`).
pub(crate) fn contains_chars(h: &Vec<char>, n: &Vec<char>) -> (res: bool)
    ensures
        res == has_substr(h@, n@),
{
    if n.len() > h.len() {
        assert forall|i: int| !#[trigger] occurs_at(h@, n@, i) by {}
        return false;
    }
    let last = h.len() - n.len();
    let mut i: usize = 0;
    loop
        invariant
            last == h.len() - n.len(),
            n.len() <= h.len(),
            i <= last,
            forall|j: int| 0 <= j < i ==> !#[trigger] occurs_at(h@, n@, j),
        decreases last - i,
    {
        if occurs_at_exec(h, n, i) {
            return true;
        }
        if i == last {
            assert forall|j: int| !#[trigger] occurs_at(h@, n@, j) by {
                if 0 <= j < i {
                }
            }
            return false;
        }
        i = i + 1;
    }
}

/// Whether the string `p` occurs in `h`.
pub(crate) fn contains_str(h: &Vec<char>, p: &str) -> (res: bool)
    ensures
        res == has_substr(h@, p@),
{
    let pc = chars_of(p);
    contains_chars(h, &pc)
}

/// Whether `c` is an ASCII letter or digit.
fn is_word_char_exec(c: char) -> (res: bool)
    ensures
        res == is_word_char(c),
{
    ('a' <= c && c <= 'z') || ('A' <= c && c <= 'Z') || ('0' <= c && c <= '9')
}

/// Whether `n` occurs in `h` at index `i` at the start of a word.
fn word_start_at_exec(h: &Vec<char>, n: &Vec<char>, i: usize) -> (res: bool)
    requires
        i + n.len() <= h.len(),
    ensures
        res == word_start_at(h@, n@, i as int),
{
    if !occurs_at_exec(h, n, i) {
        return false;
    }
    !(i > 0 && is_word_char_exec(h[i - 1]))
}

/// Whether the string `p` occurs in `h` at the start of a word.
pub(crate) fn contains_word_start_str(h: &Vec<char>, p: &str) -> (res: bool)
    ensures
        res == has_word_start(h@, p@),
{
    let n = chars_of(p);
    if n.len() > h.len() {
        assert forall|i: int| !#[trigger] word_start_at(h@, n@, i) by {}
        return false;
    }
    let last = h.len() - n.len();
    let mut i: usize = 0;
    loop
        invariant
            last == h.len() - n.len(),
            n@ == p@,
            n.len() <= h.len(),
            i <= last,
            forall|j: int| 0 <= j < i ==> !#[trigger] word_start_at(h@, n@, j),
        decreases last - i,
    {
        if word_start_at_exec(h, &n, i) {
            return true;
        }
        if i == last {
            assert forall|j: int| !#[trigger] word_start_at(h@, n@, j) by {
                if 0 <= j < i {
                }
            }
            return false;
        }
        i = i + 1;
    }
}

/// Whether some of the given words occurs in `l`.
pub(crate) fn mentions_any_exec(l: &Vec<char>, words: &[&str]) -> (res: bool)
    ensures
        res == mentions_any(l@, words@.map_values(|w: &str| w@)),
{
    let ghost ws = words@.map_values(|w: &str| w@);
    let n = words.len();
    for k in 0..n
        invariant
            n == words@.len(),
            ws == words@.map_values(|w: &str| w@),
            forall|q: int| 0 <= q < k ==> !has_substr(l@, #[trigger] ws[q]),
    {
        if contains_str(l, words[k]) {
            assert(has_substr(l@, ws[k as int]));
            return true;
        }
    }
    false
}

/// Whether `s` starts with `p`.
pub(crate) fn starts_with_chars(s: &Vec<char>, p: &Vec<char>) -> (res: bool)
    ensures
        res == has_prefix(s@, p@),
{
    if p.len() > s.len() {
        return false;
    }
    let r = occurs_at_exec(s, p, 0);
    assert(p@.len() as int == 0 + p@.len());
    r
}

/// `s` with every leading copy of the non-empty `p` removed.
pub(crate) fn strip_prefix_all_chars(s: &Vec<char>, p: &Vec<char>) -> (res: Vec<char>)
    requires
        p.len() > 0,
    ensures
        res@ == strip_prefix_all(s@, p@),
{
    let n = s.len();
    let m = p.len();
    let mut i: usize = 0;
    assert(s@.subrange(0, n as int) =~= s@);
    loop
        invariant
            0 < m == p.len(),
            i <= n == s.len(),
            strip_prefix_all(s@, p@) == strip_prefix_all(s@.subrange(i as int, n as int), p@),
        decreases n - i,
    {
        let rest = sub_chars(s, i, n);
        if !starts_with_chars(&rest, p) {
            return rest;
        }
        assert(rest@.subrange(m as int, rest@.len() as int) =~= s@.subrange(i + m, n as int));
        i = i + m;
    }
}

/// The index of the first `c` in `v` at or after `i`, or `v.len()`.
pub(crate) fn next_index_of_exec(v: &Vec<char>, i: usize, c: char) -> (res: usize)
    requires
        i <= v.len(),
    ensures
        res == next_index_of(v@, i as int, c),
        i <= res <= v.len(),
{
    let n = v.len();
    let mut j = i;
    while j < n && v[j] != c
        invariant
            i <= j <= n == v.len(),
            next_index_of(v@, i as int, c) == next_index_of(v@, j as int, c),
        decreases n - j,
    {
        j = j + 1;
    }
    j
}

/// `line` without one trailing carriage return.
pub(crate) fn strip_cr_chars(line: Vec<char>) -> (res: Vec<char>)
    ensures
        res@ == strip_cr(line@),
{
    let mut line = line;
    if line.len() > 0 && line[line.len() - 1] == '\r' {
        line.pop();
    }
    line
}

/// The lines of `v` (`str::lines`).
pub(crate) fn lines_chars(v: &Vec<char>) -> (res: Vec<Vec<char>>)
    ensures
        char_rows(res@) == lines_of(v@),
{
    let n = v.len();
    let mut res: Vec<Vec<char>> = Vec::new();
    let mut i: usize = 0;
    while i < n
        invariant
            i <= n == v.len(),
            char_rows(res@) + lines_from(v@, i as int) == lines_of(v@),
        decreases n - i,
    {
        let ghost before = char_rows(res@);
        let j = next_index_of_exec(v, i, '\n');
        proof {
            lemma_next_index_of_bounds(v@, i as int, '\n');
        }
        if j < n {
            let line = strip_cr_chars(sub_chars(v, i, j));
            res.push(line);
            assert(char_rows(res@) =~= before.push(strip_cr(v@.subrange(i as int, j as int))));
            assert(char_rows(res@) + lines_from(v@, j + 1) =~= before + lines_from(
                v@,
                i as int,
            ));
            i = j + 1;
        } else {
            let line = sub_chars(v, i, n);
            res.push(line);
            assert(char_rows(res@) =~= before.push(v@.subrange(i as int, n as int)));
            assert(lines_from(v@, n as int) =~= Seq::<Seq<char>>::empty());
            assert(char_rows(res@) + lines_from(v@, n as int) =~= before + lines_from(
                v@,
                i as int,
            ));
            i = n;
        }
    }
    assert(lines_from(v@, n as int) =~= Seq::<Seq<char>>::empty());
    assert(char_rows(res@) =~= char_rows(res@) + lines_from(v@, n as int));
    res
}

/// The pieces of `v` between occurrences of `c` (`str::split`).
pub(crate) fn split_chars(v: &Vec<char>, c: char) -> (res: Vec<Vec<char>>)
    ensures
        char_rows(res@) == split_of(v@, c),
{
    let n = v.len();
    let mut res: Vec<Vec<char>> = Vec::new();
    let mut i: usize = 0;
    loop
        invariant
            i <= n == v.len(),
            char_rows(res@) + split_from(v@, i as int, c) == split_of(v@, c),
        decreases n - i,
    {
        let ghost before = char_rows(res@);
        let j = next_index_of_exec(v, i, c);
        proof {
            lemma_next_index_of_bounds(v@, i as int, c);
        }
        let piece = sub_chars(v, i, j);
        res.push(piece);
        assert(char_rows(res@) =~= before.push(v@.subrange(i as int, j as int)));
        if j < n {
            assert(char_rows(res@) + split_from(v@, j + 1, c) =~= before + split_from(
                v@,
                i as int,
                c,
            ));
            i = j + 1;
        } else {
            assert(char_rows(res@) =~= before + split_from(v@, i as int, c));
            return res;
        }
    }
}

} // verus!
