//! Character and string utilities with exact specifications.
//!
//! Strings are handled as sequences of Unicode scalar values (`Seq<char>`,
//! the view of `str` and `String`).

use vstd::prelude::*;


verus! {

/// `String::push` appends one character.
pub assume_specification[ String::push ](s: &mut String, ch: char)
    ensures
        final(s)@ == old(s)@.push(ch),
;

// ---------------------------------------------------------------------------
// Conversions between strings and character vectors
// ---------------------------------------------------------------------------

/// Copies the characters of a string slice into a vector.
pub fn chars_of(s: &str) -> (v: Vec<char>)
    ensures
        v@ == s@,
{
    let mut v: Vec<char> = Vec::new();
    for c in it: s.chars()
        invariant
            v@ == it.history(),
    {
        v.push(c);
    }
    v
}

/// Builds a string from a character slice.
pub fn string_of(v: &[char]) -> (s: String)
    ensures
        s@ == v@,
{
    let mut s = String::new();
    let mut i: usize = 0;
    while i < v.len()
        invariant
            i <= v.len(),
            s@ == v@.take(i as int),
        decreases v.len() - i,
    {
        s.push(v[i]);
        i += 1;
        assert(s@ =~= v@.take(i as int));
    }
    assert(v@.take(v.len() as int) =~= v@);
    s
}

/// Appends the characters of `src` to `dst`.
pub fn append_chars(dst: &mut Vec<char>, src: &[char])
    ensures
        final(dst)@ == old(dst)@ + src@,
{
    let mut i: usize = 0;
    while i < src.len()
        invariant
            i <= src.len(),
            dst@ == old(dst)@ + src@.take(i as int),
        decreases src.len() - i,
    {
        dst.push(src[i]);
        i += 1;
        assert(dst@ =~= old(dst)@ + src@.take(i as int));
    }
    assert(src@.take(src.len() as int) =~= src@);
}

/// Whether two character slices are equal.
pub fn chars_eq(a: &[char], b: &[char]) -> (r: bool)
    ensures
        r == (a@ == b@),
{
    if a.len() != b.len() {
        return false;
    }
    let mut i: usize = 0;
    while i < a.len()
        invariant
            a.len() == b.len(),
            i <= a.len(),
            forall|k: int| 0 <= k < i ==> a@[k] == b@[k],
        decreases a.len() - i,
    {
        if a[i] != b[i] {
            return false;
        }
        i += 1;
    }
    assert(a@ =~= b@);
    true
}

/// Whether a character slice equals the characters of a string slice.
pub fn chars_eq_str(a: &[char], b: &str) -> (r: bool)
    ensures
        r == (a@ == b@),
{
    let bv = chars_of(b);
    chars_eq(a, bv.as_slice())
}

// ---------------------------------------------------------------------------
// Character classes
// ---------------------------------------------------------------------------

/// The Unicode `White_Space` property (what `char::is_whitespace` tests).
pub open spec fn is_white_space(c: char) -> bool {
    ||| c == '\t' || c == '\n' || c == '\u{0B}' || c == '\u{0C}' || c == '\r'
    ||| c == ' ' || c == '\u{85}' || c == '\u{A0}' || c == '\u{1680}'
    ||| ('\u{2000}' <= c && c <= '\u{200A}')
    ||| c == '\u{2028}' || c == '\u{2029}' || c == '\u{202F}' || c == '\u{205F}'
    ||| c == '\u{3000}'
}

/// Tests the Unicode `White_Space` property.
pub fn is_whitespace(c: char) -> (r: bool)
    ensures
        r == is_white_space(c),
{
    c == '\t' || c == '\n' || c == '\u{0B}' || c == '\u{0C}' || c == '\r' || c == ' '
        || c == '\u{85}' || c == '\u{A0}' || c == '\u{1680}' || ('\u{2000}' <= c && c
        <= '\u{200A}') || c == '\u{2028}' || c == '\u{2029}' || c == '\u{202F}' || c
        == '\u{205F}' || c == '\u{3000}'
}

/// ASCII decimal digit.
pub open spec fn is_ascii_digit_char(c: char) -> bool {
    '0' <= c && c <= '9'
}

/// ASCII hexadecimal digit.
pub open spec fn is_ascii_hex_char(c: char) -> bool {
    ('0' <= c && c <= '9') || ('a' <= c && c <= 'f') || ('A' <= c && c <= 'F')
}

/// Numeric value of an ASCII digit.
pub open spec fn digit_value(c: char) -> int {
    (c as int) - ('0' as int)
}

/// The ASCII digit for a value below ten.
pub open spec fn digit_char(d: int) -> char
    recommends
        0 <= d < 10,
{
    (('0' as int) + d) as char
}

/// Returns the ASCII digit for `d`.
pub fn make_digit(d: u64) -> (c: char)
    requires
        d < 10,
    ensures
        c == digit_char(d as int),
{
    let b: u8 = d as u8 + 48u8;
    let c = b as char;
    assert(c as int == 48 + d);
    c
}

// ---------------------------------------------------------------------------
// Trimming
// ---------------------------------------------------------------------------

/// Drops the leading characters that satisfy `p`.
pub open spec fn trim_start_by(s: Seq<char>, p: spec_fn(char) -> bool) -> Seq<char>
    decreases s.len(),
{
    if s.len() > 0 && p(s[0]) {
        trim_start_by(s.drop_first(), p)
    } else {
        s
    }
}

/// Drops the trailing characters that satisfy `p`.
pub open spec fn trim_end_by(s: Seq<char>, p: spec_fn(char) -> bool) -> Seq<char>
    decreases s.len(),
{
    if s.len() > 0 && p(s.last()) {
        trim_end_by(s.drop_last(), p)
    } else {
        s
    }
}

/// Drops the leading and trailing characters that satisfy `p`
/// (what `str::trim_matches` does with a character predicate).
pub open spec fn trim_by(s: Seq<char>, p: spec_fn(char) -> bool) -> Seq<char> {
    trim_end_by(trim_start_by(s, p), p)
}

/// What `str::trim` returns: the string without leading and trailing white space.
pub open spec fn trim_ws(s: Seq<char>) -> Seq<char> {
    trim_by(s, set_pred(CharSet::WhiteSpace))
}

/// `trim_start_by` skips exactly the first `k` characters, where `k` is the
/// length of the longest prefix satisfying `p`.
pub proof fn lemma_trim_start_index(s: Seq<char>, p: spec_fn(char) -> bool, k: int)
    requires
        0 <= k <= s.len(),
        forall|j: int| 0 <= j < k ==> p(s[j]),
        k == s.len() || !p(s[k]),
    ensures
        trim_start_by(s, p) == s.subrange(k, s.len() as int),
    decreases k,
{
    if k == 0 {
        assert(s.subrange(0, s.len() as int) =~= s);
    } else {
        let t = s.drop_first();
        assert forall|j: int| 0 <= j < k - 1 implies p(t[j]) by {
            assert(t[j] == s[j + 1]);
        }
        lemma_trim_start_index(t, p, k - 1);
        assert(t.subrange(k - 1, t.len() as int) =~= s.subrange(k, s.len() as int));
    }
}

/// `trim_end_by` keeps exactly the first `k` characters, where the characters
/// from `k` on satisfy `p` and the one before does not.
pub proof fn lemma_trim_end_index(s: Seq<char>, p: spec_fn(char) -> bool, k: int)
    requires
        0 <= k <= s.len(),
        forall|j: int| k <= j < s.len() ==> p(s[j]),
        k == 0 || !p(s[k - 1]),
    ensures
        trim_end_by(s, p) == s.subrange(0, k),
    decreases s.len() - k,
{
    if k == s.len() {
        assert(s.subrange(0, k) =~= s);
    } else {
        let t = s.drop_last();
        assert forall|j: int| k <= j < t.len() implies p(t[j]) by {
            assert(t[j] == s[j]);
        }
        lemma_trim_end_index(t, p, k);
        assert(t.subrange(0, k) =~= s.subrange(0, k));
    }
}

/// A trimmed sequence neither starts nor ends with a character satisfying `p`.
pub proof fn lemma_trim_by_clean(s: Seq<char>, p: spec_fn(char) -> bool)
    ensures
        trim_by(s, p).len() > 0 ==> !p(trim_by(s, p)[0]) && !p(trim_by(s, p).last()),
        trim_by(s, p).len() <= s.len(),
    decreases s.len(),
{
    lemma_trim_start_clean(s, p);
    lemma_trim_end_clean(trim_start_by(s, p), p);
}

proof fn lemma_trim_start_clean(s: Seq<char>, p: spec_fn(char) -> bool)
    ensures
        trim_start_by(s, p).len() > 0 ==> !p(trim_start_by(s, p)[0]),
        trim_start_by(s, p).len() <= s.len(),
    decreases s.len(),
{
    if s.len() > 0 && p(s[0]) {
        lemma_trim_start_clean(s.drop_first(), p);
    }
}

proof fn lemma_trim_end_clean(s: Seq<char>, p: spec_fn(char) -> bool)
    ensures
        trim_end_by(s, p).len() > 0 ==> !p(trim_end_by(s, p).last())
            && trim_end_by(s, p)[0] == s[0],
        trim_end_by(s, p).len() <= s.len(),
    decreases s.len(),
{
    if s.len() > 0 && p(s.last()) {
        lemma_trim_end_clean(s.drop_last(), p);
    }
}


} // verus!
verus! {

// ---------------------------------------------------------------------------
// Character sets used for trimming, splitting and replacing
// ---------------------------------------------------------------------------

/// A set of characters.
#[derive(Clone, Copy)]
pub enum CharSet {
    /// Characters with the Unicode `White_Space` property.
    WhiteSpace,
    /// A single character.
    Single(char),
    /// Either of two characters.
    Pair(char, char),
    /// Space, underscore and full stop.
    NameEdge,
    /// Square and round brackets and the underscore.
    BracketsUnderscore,
    /// ASCII decimal digits.
    AsciiDigit,
}

/// Membership in a character set.
pub open spec fn in_set(set: CharSet, c: char) -> bool {
    match set {
        CharSet::WhiteSpace => is_white_space(c),
        CharSet::Single(a) => c == a,
        CharSet::Pair(a, b) => c == a || c == b,
        CharSet::NameEdge => c == ' ' || c == '_' || c == '.',
        CharSet::BracketsUnderscore => c == '[' || c == ']' || c == '(' || c == ')' || c == '_',
        CharSet::AsciiDigit => '0' <= c && c <= '9',
    }
}

/// The membership predicate of a set.
pub open spec fn set_pred(set: CharSet) -> spec_fn(char) -> bool {
    |c: char| in_set(set, c)
}

/// Tests membership in a character set.
pub fn set_contains(set: CharSet, c: char) -> (r: bool)
    ensures
        r == in_set(set, c),
{
    match set {
        CharSet::WhiteSpace => is_whitespace(c),
        CharSet::Single(a) => c == a,
        CharSet::Pair(a, b) => c == a || c == b,
        CharSet::NameEdge => c == ' ' || c == '_' || c == '.',
        CharSet::BracketsUnderscore => c == '[' || c == ']' || c == '(' || c == ')' || c == '_',
        CharSet::AsciiDigit => '0' <= c && c <= '9',
    }
}

/// Copies `v[from..to]`.
pub fn slice_chars(v: &[char], from: usize, to: usize) -> (r: Vec<char>)
    requires
        from <= to <= v.len(),
    ensures
        r@ == v@.subrange(from as int, to as int),
{
    let mut r: Vec<char> = Vec::new();
    let mut k: usize = from;
    while k < to
        invariant
            from <= k <= to,
            to <= v.len(),
            r@ == v@.subrange(from as int, k as int),
        decreases to - k,
    {
        r.push(v[k]);
        k += 1;
        assert(r@ =~= v@.subrange(from as int, k as int));
    }
    r
}

/// Returns `v` without leading and trailing characters of `set`
/// (`str::trim_matches`; with `WhiteSpace`, `str::trim`).
pub fn trim_set(v: &[char], set: CharSet) -> (r: Vec<char>)
    ensures
        r@ == trim_by(v@, set_pred(set)),
{
    let ghost p = set_pred(set);
    let n = v.len();
    let mut i: usize = 0;
    while i < n
        invariant
            i <= n,
            n == v.len(),
            p == set_pred(set),
            forall|j: int| 0 <= j < i ==> p(v@[j]),
        ensures
            i == n || !p(v@[i as int]),
        decreases n - i,
    {
        if !set_contains(set, v[i]) {
            break;
        }
        i += 1;
    }
    proof {
        lemma_trim_start_index(v@, p, i as int);
    }
    let mut j: usize = n;
    while j > i
        invariant
            i <= j <= n,
            n == v.len(),
            p == set_pred(set),
            forall|k: int| j <= k < n ==> p(v@[k]),
        ensures
            j == i || !p(v@[j - 1]),
        decreases j,
    {
        if !set_contains(set, v[j - 1]) {
            break;
        }
        j -= 1;
    }
    let ghost mid = v@.subrange(i as int, n as int);
    proof {
        assert forall|k: int| j - i <= k < mid.len() implies p(mid[k]) by {
            assert(mid[k] == v@[k + i]);
        }
        if j > i {
            assert(mid[j - i - 1] == v@[j - 1]);
        }
        lemma_trim_end_index(mid, p, j - i);
        assert(mid.subrange(0, j - i) =~= v@.subrange(i as int, j as int));
    }
    slice_chars(v, i, j)
}

/// Returns `v` without trailing characters of `set` (`str::trim_end_matches`).
pub fn trim_end_set(v: &[char], set: CharSet) -> (r: Vec<char>)
    ensures
        r@ == trim_end_by(v@, set_pred(set)),
{
    let ghost p = set_pred(set);
    let n = v.len();
    let mut j: usize = n;
    while j > 0
        invariant
            j <= n,
            n == v.len(),
            p == set_pred(set),
            forall|k: int| j <= k < n ==> p(v@[k]),
        ensures
            j == 0 || !p(v@[j - 1]),
        decreases j,
    {
        if !set_contains(set, v[j - 1]) {
            break;
        }
        j -= 1;
    }
    proof {
        lemma_trim_end_index(v@, p, j as int);
    }
    slice_chars(v, 0, j)
}

/// Returns `v` without leading and trailing white space (`str::trim`).
pub fn trim_whitespace(v: &[char]) -> (r: Vec<char>)
    ensures
        r@ == trim_ws(v@),
{
    trim_set(v, CharSet::WhiteSpace)
}

// ---------------------------------------------------------------------------
// Mapping, searching and splitting
// ---------------------------------------------------------------------------

/// Every character of `set` replaced by `to` (`str::replace` with a
/// character pattern and a one-character replacement).
pub open spec fn map_set(s: Seq<char>, set: CharSet, to: char) -> Seq<char> {
    s.map_values(|c: char| if in_set(set, c) { to } else { c })
}

/// Replaces each character of `set` by `to`.
pub fn replace_set(v: &[char], set: CharSet, to: char) -> (r: Vec<char>)
    ensures
        r@ == map_set(v@, set, to),
{
    let mut r: Vec<char> = Vec::new();
    let mut i: usize = 0;
    while i < v.len()
        invariant
            i <= v.len(),
            r@ == map_set(v@.take(i as int), set, to),
        decreases v.len() - i,
    {
        let c = v[i];
        if set_contains(set, c) {
            r.push(to);
        } else {
            r.push(c);
        }
        i += 1;
        assert(r@ =~= map_set(v@.take(i as int), set, to));
    }
    assert(v@.take(v.len() as int) =~= v@);
    r
}

/// Index of the first character of `set` in `s`, if any.
pub open spec fn find_in(s: Seq<char>, set: CharSet) -> Option<int> {
    if exists|i: int| 0 <= i < s.len() && in_set(set, #[trigger] s[i]) {
        Some(choose|i: int| 0 <= i < s.len() && in_set(set, #[trigger] s[i])
            && forall|j: int| 0 <= j < i ==> !in_set(set, #[trigger] s[j]))
    } else {
        None
    }
}

/// Finds the first character of `set` (`str::find` with a character pattern).
pub fn find_set(v: &[char], set: CharSet) -> (r: Option<usize>)
    ensures
        r matches Some(i) ==> i < v.len() && in_set(set, v@[i as int]) && forall|j: int|
            0 <= j < i ==> !in_set(set, #[trigger] v@[j]),
        r is None ==> forall|j: int| 0 <= j < v.len() ==> !in_set(set, #[trigger] v@[j]),
        r == (match find_in(v@, set) {
            Some(i) => Some(i as usize),
            None => None::<usize>,
        }),
{
    let mut i: usize = 0;
    while i < v.len()
        invariant
            i <= v.len(),
            forall|j: int| 0 <= j < i ==> !in_set(set, #[trigger] v@[j]),
        decreases v.len() - i,
    {
        if set_contains(set, v[i]) {
            proof {
                let k = choose|k: int| 0 <= k < v@.len() && in_set(set, #[trigger] v@[k])
                    && forall|j: int| 0 <= j < k ==> !in_set(set, #[trigger] v@[j]);
                assert(k == i) by {
                    if k < i {
                        assert(!in_set(set, v@[k]));
                    }
                    if k > i {
                        assert(!in_set(set, v@[i as int]));
                    }
                }
            }
            return Some(i);
        }
        i += 1;
    }
    None
}

/// Index of the last character of `set` in `s`, if any.
pub open spec fn rfind_in(s: Seq<char>, set: CharSet) -> Option<int> {
    if exists|i: int| 0 <= i < s.len() && in_set(set, #[trigger] s[i]) {
        Some(choose|i: int| 0 <= i < s.len() && in_set(set, #[trigger] s[i])
            && forall|j: int| i < j < s.len() ==> !in_set(set, #[trigger] s[j]))
    } else {
        None
    }
}

/// Finds the last character of `set` (`str::rfind` with a character pattern).
pub fn rfind_set(v: &[char], set: CharSet) -> (r: Option<usize>)
    ensures
        r == (match rfind_in(v@, set) {
            Some(i) => Some(i as usize),
            None => None::<usize>,
        }),
        r matches Some(i) ==> i < v.len() && in_set(set, v@[i as int]) && rfind_in(v@, set) == Some(
            i as int,
        ),
{
    let mut i: usize = v.len();
    while i > 0
        invariant
            i <= v.len(),
            forall|j: int| i <= j < v.len() ==> !in_set(set, #[trigger] v@[j]),
        decreases i,
    {
        if set_contains(set, v[i - 1]) {
            proof {
                let k = choose|k: int| 0 <= k < v@.len() && in_set(set, #[trigger] v@[k])
                    && forall|j: int| k < j < v@.len() ==> !in_set(set, #[trigger] v@[j]);
                assert(k == i - 1) by {
                    if k < i - 1 {
                        assert(!in_set(set, v@[i - 1]));
                    }
                    if k > i - 1 {
                        assert(!in_set(set, v@[k]));
                    }
                }
            }
            return Some(i - 1);
        }
        i -= 1;
    }
    None
}

/// The fields of `s` separated by characters satisfying `p`, empty fields
/// included (`str::split` with a character pattern).
pub open spec fn split_fields(s: Seq<char>, p: spec_fn(char) -> bool) -> Seq<Seq<char>>
    decreases s.len(),
{
    if s.len() == 0 {
        seq![Seq::<char>::empty()]
    } else {
        let init = split_fields(s.drop_last(), p);
        if p(s.last()) {
            init.push(Seq::<char>::empty())
        } else {
            init.update(init.len() - 1, init.last().push(s.last()))
        }
    }
}

/// `split_fields` never returns an empty list.
pub proof fn lemma_split_fields_len(s: Seq<char>, p: spec_fn(char) -> bool)
    ensures
        split_fields(s, p).len() >= 1,
    decreases s.len(),
{
    if s.len() > 0 {
        lemma_split_fields_len(s.drop_last(), p);
    }
}

/// The non-empty fields of `s` separated by characters of `set`
/// (with `WhiteSpace`, what `str::split_whitespace` yields).
pub open spec fn words_by(s: Seq<char>, set: CharSet) -> Seq<Seq<char>> {
    split_fields(s, set_pred(set)).filter(|w: Seq<char>| w.len() > 0)
}

/// The views of a vector of character vectors.
pub open spec fn views(v: Seq<Vec<char>>) -> Seq<Seq<char>> {
    v.map_values(|w: Vec<char>| w@)
}

/// Splits `v` at each character of `set`, keeping empty fields.
pub fn split_set(v: &[char], set: CharSet) -> (r: Vec<Vec<char>>)
    ensures
        views(r@) == split_fields(v@, set_pred(set)),
{
    let mut done: Vec<Vec<char>> = Vec::new();
    let mut cur: Vec<char> = Vec::new();
    let mut i: usize = 0;
    while i < v.len()
        invariant
            i <= v.len(),
            views(done@).push(cur@) == split_fields(v@.take(i as int), set_pred(set)),
        decreases v.len() - i,
    {
        let ghost old_done = views(done@);
        let ghost old_cur = cur@;
        let c = v[i];
        assert(v@.take(i + 1).drop_last() =~= v@.take(i as int));
        assert(v@.take(i + 1).last() == c);
        if set_contains(set, c) {
            let full = cur;
            done.push(full);
            cur = Vec::new();
            assert(views(done@) =~= old_done.push(old_cur));
        } else {
            cur.push(c);
            assert(views(done@).push(cur@) =~= old_done.push(old_cur).update(
                old_done.len() as int,
                old_cur.push(c),
            ));
        }
        i += 1;
    }
    assert(v@.take(v.len() as int) =~= v@);
    let ghost before = views(done@);
    done.push(cur);
    assert(views(done@) =~= before.push(cur@));
    done
}

/// Splits `v` at runs of characters of `set`, dropping empty fields
/// (`str::split_whitespace` for `WhiteSpace`).
pub fn words(v: &[char], set: CharSet) -> (r: Vec<Vec<char>>)
    ensures
        views(r@) == words_by(v@, set),
{
    let fields = split_set(v, set);
    let ghost f = |w: Seq<char>| w.len() > 0;
    let mut r: Vec<Vec<char>> = Vec::new();
    let mut i: usize = 0;
    while i < fields.len()
        invariant
            i <= fields.len(),
            f == (|w: Seq<char>| w.len() > 0),
            views(r@) == views(fields@).take(i as int).filter(f),
        decreases fields.len() - i,
    {
        let ghost prev = views(fields@).take(i as int);
        assert(views(fields@).take(i + 1) =~= prev.push(fields@[i as int]@));
        proof {
            prev.lemma_filter_push(fields@[i as int]@, f);
        }
        if fields[i].len() > 0 {
            let ghost before = views(r@);
            r.push(fields[i].clone());
            assert(views(r@) =~= before.push(fields@[i as int]@));
        }
        i += 1;
    }
    assert(views(fields@).take(fields.len() as int) =~= views(fields@));
    r
}

// ---------------------------------------------------------------------------
// Substrings
// ---------------------------------------------------------------------------

/// `t` occurs in `s` at position `i`.
pub open spec fn occurs_at(s: Seq<char>, t: Seq<char>, i: int) -> bool {
    0 <= i && i + t.len() <= s.len() && s.subrange(i, i + t.len()) == t
}

/// `t` occurs somewhere in `s` (`str::contains` with a string pattern).
pub open spec fn contains_seq(s: Seq<char>, t: Seq<char>) -> bool {
    exists|i: int| occurs_at(s, t, i)
}

/// Whether `t` occurs in `s` at position `i`.
pub fn matches_at(s: &[char], t: &[char], i: usize) -> (r: bool)
    ensures
        r == occurs_at(s@, t@, i as int),
{
    if i > s.len() || t.len() > s.len() - i {
        return false;
    }
    let mut k: usize = 0;
    while k < t.len()
        invariant
            k <= t.len(),
            i + t.len() <= s.len(),
            forall|j: int| 0 <= j < k ==> s@[i + j] == t@[j],
        decreases t.len() - k,
    {
        if s[i + k] != t[k] {
            assert(s@.subrange(i as int, i + t.len())[k as int] != t@[k as int]);
            return false;
        }
        k += 1;
    }
    assert(s@.subrange(i as int, i + t.len()) =~= t@);
    true
}

/// Whether `t` occurs in `s`.
pub fn contains_chars(s: &[char], t: &[char]) -> (r: bool)
    ensures
        r == contains_seq(s@, t@),
{
    let mut i: usize = 0;
    while i < s.len()
        invariant
            i <= s.len(),
            forall|j: int| 0 <= j < i ==> !occurs_at(s@, t@, j),
        decreases s.len() - i,
    {
        if matches_at(s, t, i) {
            return true;
        }
        i += 1;
    }
    if matches_at(s, t, i) {
        return true;
    }
    assert forall|j: int| !occurs_at(s@, t@, j) by {
        if 0 <= j < i {
        }
    }
    false
}

/// `s` starts with `t`.
pub open spec fn starts_with_seq(s: Seq<char>, t: Seq<char>) -> bool {
    t.len() <= s.len() && s.take(t.len() as int) == t
}

/// Every non-overlapping occurrence of `from`, scanning left to right,
/// replaced by `to` (`str::replace` with a non-empty string pattern).
pub open spec fn replace_all_seq(s: Seq<char>, from: Seq<char>, to: Seq<char>) -> Seq<char>
    decreases s.len(),
{
    if from.len() == 0 || s.len() < from.len() {
        s
    } else if s.take(from.len() as int) == from {
        to + replace_all_seq(s.skip(from.len() as int), from, to)
    } else {
        seq![s[0]] + replace_all_seq(s.drop_first(), from, to)
    }
}

/// Replaces every non-overlapping occurrence of `from` by `to`.
pub fn replace_all(s: &[char], from: &[char], to: &[char]) -> (r: Vec<char>)
    requires
        from.len() > 0,
    ensures
        r@ == replace_all_seq(s@, from@, to@),
{
    let mut r: Vec<char> = Vec::new();
    let mut i: usize = 0;
    assert(s@.skip(0) =~= s@);
    assert(r@ + replace_all_seq(s@, from@, to@) =~= replace_all_seq(s@, from@, to@));
    while i < s.len()
        invariant
            i <= s.len(),
            from.len() > 0,
            r@ + replace_all_seq(s@.skip(i as int), from@, to@) == replace_all_seq(s@, from@, to@),
        decreases s.len() - i,
    {
        let ghost rest = s@.skip(i as int);
        if matches_at(s, from, i) {
            assert(rest.take(from.len() as int) =~= s@.subrange(i as int, i + from.len()));
            assert(rest.skip(from.len() as int) =~= s@.skip(i + from.len()));
            let ghost before = r@;
            append_chars(&mut r, to);
            assert(r@ + replace_all_seq(s@.skip(i + from.len()), from@, to@) =~= before + (to@
                + replace_all_seq(rest.skip(from.len() as int), from@, to@)));
            i += from.len();
        } else {
            proof {
                if rest.len() >= from@.len() {
                    assert(rest.take(from.len() as int) =~= s@.subrange(i as int, i + from.len()));
                }
            }
            assert(rest.drop_first() =~= s@.skip(i + 1));
            let ghost before = r@;
            r.push(s[i]);
            assert(r@ + replace_all_seq(s@.skip(i + 1), from@, to@) =~= before + (seq![rest[0]]
                + replace_all_seq(rest.drop_first(), from@, to@)));
            i += 1;
        }
    }
    assert(s@.skip(s.len() as int) =~= Seq::<char>::empty());
    assert(r@ + Seq::<char>::empty() =~= r@);
    r
}

/// Index of the first occurrence of `t` in `s`, if any.
#[verifier::opaque]
pub open spec fn first_occurrence(s: Seq<char>, t: Seq<char>) -> Option<int> {
    if contains_seq(s, t) {
        Some(choose|i: int| occurs_at(s, t, i) && forall|j: int| 0 <= j < i ==> !occurs_at(s, t, j))
    } else {
        None
    }
}

proof fn lemma_first_occurrence(s: Seq<char>, t: Seq<char>, i: int)
    requires
        occurs_at(s, t, i),
        forall|j: int| 0 <= j < i ==> !occurs_at(s, t, j),
    ensures
        first_occurrence(s, t) == Some(i),
{
    reveal(first_occurrence);
    let k = choose|k: int| occurs_at(s, t, k) && forall|j: int| 0 <= j < k ==> !occurs_at(s, t, j);
    assert(occurs_at(s, t, k));
    if k > i {
        assert(!occurs_at(s, t, i));
    }
    if k < i {
        assert(!occurs_at(s, t, k));
    }
}

/// Finds the first occurrence of `t` in `s` (`str::find` with a string pattern).
pub fn find_chars(s: &[char], t: &[char]) -> (r: Option<usize>)
    ensures
        r == (match first_occurrence(s@, t@) {
            Some(i) => Some(i as usize),
            None => None::<usize>,
        }),
        r matches Some(i) ==> occurs_at(s@, t@, i as int) && first_occurrence(s@, t@) == Some(
            i as int,
        ),
        r is None ==> first_occurrence(s@, t@) is None,
{
    let mut i: usize = 0;
    while i < s.len()
        invariant
            i <= s.len(),
            forall|j: int| 0 <= j < i ==> !occurs_at(s@, t@, j),
        decreases s.len() - i,
    {
        if matches_at(s, t, i) {
            proof {
                lemma_first_occurrence(s@, t@, i as int);
            }
            return Some(i);
        }
        i += 1;
    }
    if matches_at(s, t, i) {
        proof {
            lemma_first_occurrence(s@, t@, i as int);
        }
        return Some(i);
    }
    assert(!contains_seq(s@, t@)) by {
        assert forall|j: int| !occurs_at(s@, t@, j) by {
            if 0 <= j < i {
            }
        }
    }
    reveal(first_occurrence);
    None
}

/// The words of `ws` joined with `sep` between them (`[T]::join`).
pub open spec fn join_seqs(ws: Seq<Seq<char>>, sep: Seq<char>) -> Seq<char>
    decreases ws.len(),
{
    if ws.len() == 0 {
        Seq::<char>::empty()
    } else if ws.len() == 1 {
        ws[0]
    } else {
        join_seqs(ws.drop_last(), sep) + sep + ws.last()
    }
}

/// Joins the first `n` words with `sep`.
pub fn join_first(ws: &Vec<Vec<char>>, n: usize, sep: &[char]) -> (r: Vec<char>)
    requires
        n <= ws.len(),
    ensures
        r@ == join_seqs(views(ws@).take(n as int), sep@),
{
    let mut r: Vec<char> = Vec::new();
    let mut i: usize = 0;
    while i < n
        invariant
            i <= n <= ws.len(),
            r@ == join_seqs(views(ws@).take(i as int), sep@),
        decreases n - i,
    {
        let ghost prev = views(ws@).take(i as int);
        assert(views(ws@).take(i + 1).drop_last() =~= prev);
        if i > 0 {
            append_chars(&mut r, sep);
        } else {
            assert(prev =~= Seq::<Seq<char>>::empty());
        }
        append_chars(&mut r, ws[i].as_slice());
        i += 1;
    }
    r
}

/// `s` with every leading copy of `prefix` removed
/// (`str::trim_start_matches` with a non-empty string pattern).
pub open spec fn strip_prefix_all(s: Seq<char>, prefix: Seq<char>) -> Seq<char>
    decreases s.len(),
{
    if prefix.len() > 0 && starts_with_seq(s, prefix) {
        strip_prefix_all(s.skip(prefix.len() as int), prefix)
    } else {
        s
    }
}

/// Removes every leading copy of `prefix`.
pub fn trim_start_matches(s: &[char], prefix: &[char]) -> (r: Vec<char>)
    ensures
        r@ == strip_prefix_all(s@, prefix@),
{
    let mut i: usize = 0;
    assert(s@.skip(0) =~= s@);
    while prefix.len() > 0 && matches_at(s, prefix, i)
        invariant
            i <= s.len(),
            strip_prefix_all(s@.skip(i as int), prefix@) == strip_prefix_all(s@, prefix@),
        decreases s.len() - i,
    {
        let ghost rest = s@.skip(i as int);
        assert(rest.take(prefix.len() as int) =~= s@.subrange(i as int, i + prefix.len()));
        assert(rest.skip(prefix.len() as int) =~= s@.skip(i + prefix.len()));
        i += prefix.len();
    }
    let ghost rest = s@.skip(i as int);
    proof {
        if prefix.len() > 0 && rest.len() >= prefix.len() {
            assert(rest.take(prefix.len() as int) =~= s@.subrange(i as int, i + prefix.len()));
        }
    }
    let r = slice_chars(s, i, s.len());
    assert(r@ =~= rest);
    r
}

/// What a filtered sequence holds is in the sequence and satisfies the
/// filter.
pub proof fn lemma_filter_subset<A>(s: Seq<A>, p: spec_fn(A) -> bool, x: A)
    requires
        s.filter(p).contains(x),
    ensures
        s.contains(x),
        p(x),
    decreases s.len(),
{
    if s.len() > 0 {
        let init = s.drop_last();
        assert(s =~= init.push(s.last()));
        init.lemma_filter_push(s.last(), p);
        if x == s.last() && p(x) {
            assert(s[s.len() - 1] == x);
        } else {
            if init.filter(p).contains(x) {
                lemma_filter_subset(init, p, x);
                let i = choose|i: int| 0 <= i < init.len() && init[i] == x;
                assert(s[i] == x);
            } else {
                let j = choose|j: int| 0 <= j < s.filter(p).len() && s.filter(p)[j] == x;
                assert(s.filter(p) == init.filter(p).push(s.last()) || s.filter(p) == init.filter(p));
                if s.filter(p) == init.filter(p) {
                    assert(init.filter(p).contains(x));
                } else {
                    if j < init.filter(p).len() {
                        assert(init.filter(p)[j] == x);
                        assert(init.filter(p).contains(x));
                    } else {
                        assert(x == s.last());
                        assert(p(s.last()));
                    }
                }
            }
        }
    } else {
        assert(s.filter(p) =~= Seq::<A>::empty()) by {
            s.lemma_all_neg_filter_empty(p);
        }
    }
}

/// Every item of a sequence that satisfies the filter is in the filtered
/// sequence.
pub proof fn lemma_filter_keeps<A>(s: Seq<A>, p: spec_fn(A) -> bool, i: int)
    requires
        0 <= i < s.len(),
        p(s[i]),
    ensures
        s.filter(p).contains(s[i]),
{
    broadcast use vstd::seq_lib::group_filter_ensures;

    assert(s.filter(p).contains(s[i]));
}

} // verus!
