//! Character-level helpers on strings, with their specifications.
//!
//! Strings are reasoned about through their views, sequences of `char`.

use vstd::prelude::*;

verus! {

/// Appends one character to a string.
///
/// Trusted: calls `String::push`, which the standard library documents as
/// appending the given `char` to the end of the string.
#[verifier::external_body]
pub(crate) fn push_char(s: &mut String, c: char)
    ensures
        final(s)@ == old(s)@.push(c),
{
    s.push(c);
}

/// The characters of a string slice, in order.
pub fn chars_of(s: &str) -> (r: Vec<char>)
    ensures
        r@ == s@,
{
    let mut r: Vec<char> = Vec::new();
    for c in it: s.chars()
        invariant
            r@ == it.seq().take(it.index() as int),
    {
        r.push(c);
    }
    r
}

/// Appends the characters of `cs` to `s`.
pub fn push_chars(s: &mut String, cs: &Vec<char>)
    ensures
        final(s)@ == old(s)@ + cs@,
{
    let n = cs.len();
    for i in 0..n
        invariant
            n == cs@.len(),
            s@ == old(s)@ + cs@.take(i as int),
    {
        push_char(s, cs[i]);
        assert(cs@.take(i + 1) =~= cs@.take(i as int).push(cs@[i as int]));
    }
    assert(cs@.take(n as int) =~= cs@);
}

/// A string holding exactly the given characters.
pub fn string_of(cs: &Vec<char>) -> (r: String)
    ensures
        r@ == cs@,
{
    let mut r = String::new();
    push_chars(&mut r, cs);
    r
}

/// Appends a string slice to a string.
pub fn push_str(s: &mut String, t: &str)
    ensures
        final(s)@ == old(s)@ + t@,
{
    s.append(t);
}

/// A copy of a string slice.
pub fn to_owned_string(t: &str) -> (r: String)
    ensures
        r@ == t@,
{
    String::from_str(t)
}

/// The concatenation of two string slices.
pub fn concat2(a: &str, b: &str) -> (r: String)
    ensures
        r@ == a@ + b@,
{
    let mut r = String::from_str(a);
    r.append(b);
    r
}

// ---------------------------------------------------------------------
// Lexicographic order
// ---------------------------------------------------------------------

/// The code points of a string's characters.
pub open spec fn codes(s: Seq<char>) -> Seq<int> {
    s.map_values(|c: char| c as int)
}

/// `a` comes strictly before `b` in lexicographic order: at the first
/// position where they differ `a` holds the smaller element, or `a` is a
/// proper prefix of `b`.
pub open spec fn lex_lt(a: Seq<int>, b: Seq<int>) -> bool {
    exists|k: int| #[trigger] lex_lt_at(a, b, k)
}

/// `a` and `b` agree before position `k`, and position `k` decides that `a`
/// comes first.
pub open spec fn lex_lt_at(a: Seq<int>, b: Seq<int>, k: int) -> bool {
    &&& 0 <= k <= a.len()
    &&& k < b.len()
    &&& forall|j: int| 0 <= j < k ==> a[j] == b[j]
    &&& (k == a.len() || a[k] < b[k])
}

/// `a` comes before `b` or equals it.
pub open spec fn lex_le(a: Seq<int>, b: Seq<int>) -> bool {
    !lex_lt(b, a)
}

/// No sequence comes before itself.
pub proof fn lemma_lex_irreflexive(a: Seq<int>)
    ensures
        !lex_lt(a, a),
{
    if lex_lt(a, a) {
        let k = choose|k: int| lex_lt_at(a, a, k);
        assert(k < a.len());
        assert(a[k] < a[k]);
    }
}

/// The order is transitive.
pub proof fn lemma_lex_transitive(a: Seq<int>, b: Seq<int>, c: Seq<int>)
    requires
        lex_lt(a, b),
        lex_lt(b, c),
    ensures
        lex_lt(a, c),
{
    let k1 = choose|k: int| lex_lt_at(a, b, k);
    let k2 = choose|k: int| lex_lt_at(b, c, k);
    if k1 < k2 {
        assert forall|j: int| 0 <= j < k1 implies a[j] == c[j] by {
            assert(a[j] == b[j]);
            assert(b[j] == c[j]);
        }
        if k1 < a.len() {
            assert(b[k1] == c[k1]);
        }
        assert(lex_lt_at(a, c, k1));
    } else if k2 < k1 {
        assert forall|j: int| 0 <= j < k2 implies a[j] == c[j] by {
            assert(a[j] == b[j]);
            assert(b[j] == c[j]);
        }
        assert(k2 < b.len());
        assert(a[k2] == b[k2]);
        assert(lex_lt_at(a, c, k2));
    } else {
        assert forall|j: int| 0 <= j < k1 implies a[j] == c[j] by {
            assert(a[j] == b[j]);
            assert(b[j] == c[j]);
        }
        assert(k1 < b.len());
        assert(lex_lt_at(a, c, k1));
    }
}

/// Any two sequences are ordered one way or the other, or are equal.
pub proof fn lemma_lex_total(a: Seq<int>, b: Seq<int>)
    ensures
        lex_lt(a, b) || a == b || lex_lt(b, a),
    decreases a.len(),
{
    if a.len() == 0 {
        if b.len() == 0 {
            assert(a =~= b);
        } else {
            assert(lex_lt_at(a, b, 0));
        }
    } else if b.len() == 0 {
        assert(lex_lt_at(b, a, 0));
    } else if a[0] < b[0] {
        assert(lex_lt_at(a, b, 0));
    } else if b[0] < a[0] {
        assert(lex_lt_at(b, a, 0));
    } else {
        let ta = a.drop_first();
        let tb = b.drop_first();
        lemma_lex_total(ta, tb);
        if lex_lt(ta, tb) {
            let k = choose|k: int| lex_lt_at(ta, tb, k);
            assert forall|j: int| 0 <= j < k + 1 implies a[j] == b[j] by {
                if j > 0 {
                    assert(ta[j - 1] == tb[j - 1]);
                }
            }
            assert(lex_lt_at(a, b, k + 1));
        } else if ta == tb {
            assert(a =~= b) by {
                assert forall|j: int| 0 <= j < a.len() implies a[j] == b[j] by {
                    if j > 0 {
                        assert(ta[j - 1] == tb[j - 1]);
                    }
                }
            }
        } else {
            let k = choose|k: int| lex_lt_at(tb, ta, k);
            assert forall|j: int| 0 <= j < k + 1 implies b[j] == a[j] by {
                if j > 0 {
                    assert(tb[j - 1] == ta[j - 1]);
                }
            }
            assert(lex_lt_at(b, a, k + 1));
        }
    }
}

/// Whether `a` comes strictly before `b` when both are read as sequences of
/// code points (the order of `String`'s `Ord`, which compares the UTF-8
/// bytes, and thus the code points, lexicographically).
pub fn chars_lt(a: &Vec<char>, b: &Vec<char>) -> (r: bool)
    ensures
        r == lex_lt(codes(a@), codes(b@)),
{
    let ghost ca = codes(a@);
    let ghost cb = codes(b@);
    let mut i: usize = 0;
    while i < a.len() && i < b.len()
        invariant
            i <= a@.len(),
            i <= b@.len(),
            ca == codes(a@),
            cb == codes(b@),
            forall|j: int| 0 <= j < i ==> ca[j] == cb[j],
        decreases a.len() - i,
    {
        assert(ca[i as int] == a@[i as int] as int);
        assert(cb[i as int] == b@[i as int] as int);
        if a[i] != b[i] {
            if a[i] < b[i] {
                assert(lex_lt_at(ca, cb, i as int));
                return true;
            } else {
                assert(lex_lt_at(cb, ca, i as int));
                proof {
                    if lex_lt(ca, cb) {
                        lemma_lex_transitive(ca, cb, ca);
                        lemma_lex_irreflexive(ca);
                    }
                }
                return false;
            }
        }
        i = i + 1;
    }
    if i == a.len() && i < b.len() {
        assert(lex_lt_at(ca, cb, i as int));
        true
    } else {
        proof {
            if lex_lt(ca, cb) {
                let k = choose|k: int| lex_lt_at(ca, cb, k);
                if k < i {
                    assert(ca[k] == cb[k]);
                } else if i == b@.len() {
                } else {
                    assert(i == a@.len());
                }
            }
        }
        false
    }
}

/// Whether string `a` comes strictly before string `b` (code-point order).
pub fn str_lt(a: &str, b: &str) -> (r: bool)
    ensures
        r == lex_lt(codes(a@), codes(b@)),
{
    let ca = chars_of(a);
    let cb = chars_of(b);
    chars_lt(&ca, &cb)
}

/// Whether two strings hold the same characters.
pub fn str_eq(a: &str, b: &str) -> (r: bool)
    ensures
        r == (a@ == b@),
{
    let ca = chars_of(a);
    let cb = chars_of(b);
    if ca.len() != cb.len() {
        return false;
    }
    let n = ca.len();
    for i in 0..n
        invariant
            n == ca@.len(),
            n == cb@.len(),
            ca@ == a@,
            cb@ == b@,
            forall|j: int| 0 <= j < i ==> ca@[j] == cb@[j],
    {
        if ca[i] != cb[i] {
            assert(a@[i as int] != b@[i as int]);
            return false;
        }
    }
    assert(ca@ =~= cb@);
    true
}

} // verus!

verus! {

// ---------------------------------------------------------------------
// Whitespace and trimming
// ---------------------------------------------------------------------

/// Unicode `White_Space`, the property that `char::is_whitespace` (and so
/// `str::trim`) tests: U+0009..U+000D, U+0020, U+0085, U+00A0, U+1680,
/// U+2000..U+200A, U+2028, U+2029, U+202F, U+205F and U+3000.
pub open spec fn is_white_space(c: char) -> bool {
    ||| ('\u{9}' <= c && c <= '\u{d}')
    ||| c == ' '
    ||| c == '\u{85}'
    ||| c == '\u{a0}'
    ||| c == '\u{1680}'
    ||| ('\u{2000}' <= c && c <= '\u{200a}')
    ||| c == '\u{2028}'
    ||| c == '\u{2029}'
    ||| c == '\u{202f}'
    ||| c == '\u{205f}'
    ||| c == '\u{3000}'
}

/// Whether a character is Unicode whitespace.
pub fn white_space(c: char) -> (r: bool)
    ensures
        r == is_white_space(c),
{
    ('\u{9}' <= c && c <= '\u{d}') || c == ' ' || c == '\u{85}' || c == '\u{a0}' || c
        == '\u{1680}' || ('\u{2000}' <= c && c <= '\u{200a}') || c == '\u{2028}' || c
        == '\u{2029}' || c == '\u{202f}' || c == '\u{205f}' || c == '\u{3000}'
}

/// The text with leading whitespace removed.
pub open spec fn trim_start_ws(s: Seq<char>) -> Seq<char>
    decreases s.len(),
{
    if s.len() > 0 && is_white_space(s[0]) {
        trim_start_ws(s.drop_first())
    } else {
        s
    }
}

/// The text with trailing whitespace removed.
pub open spec fn trim_end_ws(s: Seq<char>) -> Seq<char>
    decreases s.len(),
{
    if s.len() > 0 && is_white_space(s.last()) {
        trim_end_ws(s.drop_last())
    } else {
        s
    }
}

/// The text with leading and trailing whitespace removed, as `str::trim`
/// returns it.
pub open spec fn trim_ws(s: Seq<char>) -> Seq<char> {
    trim_end_ws(trim_start_ws(s))
}

proof fn lemma_trim_start_skip(s: Seq<char>, i: int)
    requires
        0 <= i <= s.len(),
        forall|j: int| 0 <= j < i ==> is_white_space(#[trigger] s[j]),
        i == s.len() || !is_white_space(s[i]),
    ensures
        trim_start_ws(s) == s.skip(i),
    decreases i,
{
    if i == 0 {
        assert(s.skip(0) =~= s);
    } else {
        let t = s.drop_first();
        assert forall|j: int| 0 <= j < i - 1 implies is_white_space(#[trigger] t[j]) by {
            assert(t[j] == s[j + 1]);
        }
        if i < s.len() {
            assert(t[i - 1] == s[i]);
        }
        lemma_trim_start_skip(t, i - 1);
        assert(t.skip(i - 1) =~= s.skip(i));
    }
}

proof fn lemma_trim_end_take(s: Seq<char>, k: int)
    requires
        0 <= k <= s.len(),
        forall|j: int| k <= j < s.len() ==> is_white_space(#[trigger] s[j]),
        k == 0 || !is_white_space(s[k - 1]),
    ensures
        trim_end_ws(s) == s.take(k),
    decreases s.len() - k,
{
    if k == s.len() {
        assert(s.take(k) =~= s);
    } else {
        let t = s.drop_last();
        assert(is_white_space(s[s.len() - 1]));
        assert forall|j: int| k <= j < t.len() implies is_white_space(#[trigger] t[j]) by {
            assert(t[j] == s[j]);
        }
        if k > 0 {
            assert(t[k - 1] == s[k - 1]);
        }
        lemma_trim_end_take(t, k);
        assert(t.take(k) =~= s.take(k));
    }
}

/// The characters with leading and trailing whitespace removed.
pub fn trim_chars(cs: &Vec<char>) -> (r: Vec<char>)
    ensures
        r@ == trim_ws(cs@),
{
    let n = cs.len();
    let mut i: usize = 0;
    while i < n && white_space(cs[i])
        invariant
            i <= n,
            n == cs@.len(),
            forall|j: int| 0 <= j < i ==> is_white_space(#[trigger] cs@[j]),
        decreases n - i,
    {
        i = i + 1;
    }
    proof {
        lemma_trim_start_skip(cs@, i as int);
    }
    let ghost t = cs@.skip(i as int);
    let mut k: usize = n;
    while k > i && white_space(cs[k - 1])
        invariant
            i <= k <= n,
            n == cs@.len(),
            t == cs@.skip(i as int),
            forall|j: int| k <= j < n ==> is_white_space(#[trigger] cs@[j]),
        decreases k,
    {
        k = k - 1;
    }
    proof {
        assert forall|j: int| k - i <= j < t.len() implies is_white_space(#[trigger] t[j]) by {
            assert(t[j] == cs@[j + i]);
        }
        if k > i {
            assert(t[k - i - 1] == cs@[k - 1]);
        }
        lemma_trim_end_take(t, k - i);
    }
    let mut r: Vec<char> = Vec::new();
    let mut j: usize = i;
    while j < k
        invariant
            i <= j <= k <= n,
            n == cs@.len(),
            r@ == cs@.subrange(i as int, j as int),
        decreases k - j,
    {
        r.push(cs[j]);
        assert(cs@.subrange(i as int, j + 1) =~= cs@.subrange(i as int, j as int).push(cs@[j as int]));
        j = j + 1;
    }
    assert(r@ =~= t.take(k - i));
    r
}

/// The string with leading and trailing whitespace removed.
pub fn trim(s: &str) -> (r: String)
    ensures
        r@ == trim_ws(s@),
{
    let cs = chars_of(s);
    let t = trim_chars(&cs);
    string_of(&t)
}

/// The text with every trailing occurrence of `c` removed, as
/// `str::trim_end_matches(c)` returns it.
pub open spec fn trim_end_char(s: Seq<char>, c: char) -> Seq<char>
    decreases s.len(),
{
    if s.len() > 0 && s.last() == c {
        trim_end_char(s.drop_last(), c)
    } else {
        s
    }
}

/// The characters with every trailing occurrence of `c` removed.
pub fn trim_end_matching(cs: &Vec<char>, c: char) -> (r: Vec<char>)
    ensures
        r@ == trim_end_char(cs@, c),
{
    let mut k: usize = cs.len();
    assert(cs@.take(k as int) =~= cs@);
    while k > 0 && cs[k - 1] == c
        invariant
            k <= cs@.len(),
            trim_end_char(cs@, c) == trim_end_char(cs@.take(k as int), c),
        decreases k,
    {
        assert(cs@.take(k as int).drop_last() =~= cs@.take(k - 1));
        k = k - 1;
    }
    let mut r: Vec<char> = Vec::new();
    let mut j: usize = 0;
    while j < k
        invariant
            j <= k <= cs@.len(),
            r@ == cs@.take(j as int),
        decreases k - j,
    {
        r.push(cs[j]);
        assert(cs@.take(j + 1) =~= cs@.take(j as int).push(cs@[j as int]));
        j = j + 1;
    }
    proof {
        assert(cs@.take(cs@.len() as int) =~= cs@);
    }
    r
}

// ---------------------------------------------------------------------
// Splitting and joining
// ---------------------------------------------------------------------

/// Reading the text left to right: the pieces completed so far and the
/// piece in progress, where each character of `seps` closes a piece.
pub open spec fn split_state(s: Seq<char>, seps: Seq<char>) -> (Seq<Seq<char>>, Seq<char>)
    decreases s.len(),
{
    if s.len() == 0 {
        (Seq::empty(), Seq::empty())
    } else {
        let prev = split_state(s.drop_last(), seps);
        if seps.contains(s.last()) {
            (prev.0.push(prev.1), Seq::empty())
        } else {
            (prev.0, prev.1.push(s.last()))
        }
    }
}

/// The pieces of the text between separator characters, as `str::split`
/// yields them for a character pattern: one more piece than there are
/// separators, empty pieces included.
pub open spec fn split_pieces(s: Seq<char>, seps: Seq<char>) -> Seq<Seq<char>> {
    split_state(s, seps).0.push(split_state(s, seps).1)
}

/// The views of a vector of strings.
pub open spec fn views(v: Seq<String>) -> Seq<Seq<char>> {
    v.map_values(|x: String| x@)
}

/// Splits a string at every character of `seps`.
pub fn split_at_any(s: &str, seps: &Vec<char>) -> (r: Vec<String>)
    ensures
        views(r@) == split_pieces(s@, seps@),
{
    let cs = chars_of(s);
    let n = cs.len();
    let mut done: Vec<String> = Vec::new();
    let mut cur: Vec<char> = Vec::new();
    for i in 0..n
        invariant
            n == cs@.len(),
            cs@ == s@,
            (views(done@), cur@) == split_state(cs@.take(i as int), seps@),
    {
        let c = cs[i];
        assert(cs@.take(i + 1).drop_last() =~= cs@.take(i as int));
        assert(cs@.take(i + 1).last() == c);
        let mut is_sep = false;
        let m = seps.len();
        for j in 0..m
            invariant
                m == seps@.len(),
                is_sep == (exists|t: int| 0 <= t < j && seps@[t] == c),
        {
            if seps[j] == c {
                is_sep = true;
            }
        }
        if is_sep {
            let piece = string_of(&cur);
            done.push(piece);
            cur = Vec::new();
            assert(views(done@) =~= split_state(cs@.take(i as int), seps@).0.push(piece@));
        } else {
            cur.push(c);
            assert forall|t: int| 0 <= t < m implies seps@[t] != c by {}
        }
    }
    assert(cs@.take(n as int) =~= cs@);
    let last = string_of(&cur);
    done.push(last);
    assert(views(done@) =~= split_pieces(s@, seps@));
    done
}

/// The pieces joined with `sep` between consecutive pieces, as
/// `[String]::join` yields them.
pub open spec fn join(parts: Seq<Seq<char>>, sep: Seq<char>) -> Seq<char>
    decreases parts.len(),
{
    if parts.len() == 0 {
        Seq::empty()
    } else if parts.len() == 1 {
        parts[0]
    } else {
        join(parts.drop_last(), sep) + sep + parts.last()
    }
}

/// Joins strings with a separator.
pub fn join_strings(parts: &Vec<String>, sep: &str) -> (r: String)
    ensures
        r@ == join(views(parts@), sep@),
{
    let mut r = String::new();
    let n = parts.len();
    for i in 0..n
        invariant
            n == parts@.len(),
            r@ == join(views(parts@.take(i as int)), sep@),
    {
        assert(views(parts@.take(i + 1)).drop_last() =~= views(parts@.take(i as int)));
        assert(views(parts@.take(i + 1)).last() == parts@[i as int]@);
        if i > 0 {
            r.append(sep);
        } else {
            assert(views(parts@.take(0)) =~= Seq::<Seq<char>>::empty());
        }
        r.append(parts[i].as_str());
    }
    assert(parts@.take(n as int) =~= parts@);
    r
}

// ---------------------------------------------------------------------
// Case-insensitive comparison and lower-casing
// ---------------------------------------------------------------------

/// The ASCII lower-case form of a character; other characters unchanged.
pub open spec fn ascii_lower(c: char) -> char {
    if 'A' <= c && c <= 'Z' {
        ((c as int) + 32) as char
    } else {
        c
    }
}

/// Equality up to ASCII case, as `str::eq_ignore_ascii_case` tests it.
pub open spec fn eq_ignore_ascii_case(a: Seq<char>, b: Seq<char>) -> bool {
    a.len() == b.len() && forall|i: int| 0 <= i < a.len() ==> ascii_lower(#[trigger] a[i]) == ascii_lower(b[i])
}

fn ascii_lower_char(c: char) -> (r: char)
    ensures
        r == ascii_lower(c),
{
    match c {
        'A' => 'a', 'B' => 'b', 'C' => 'c', 'D' => 'd', 'E' => 'e', 'F' => 'f', 'G' => 'g',
        'H' => 'h', 'I' => 'i', 'J' => 'j', 'K' => 'k', 'L' => 'l', 'M' => 'm', 'N' => 'n',
        'O' => 'o', 'P' => 'p', 'Q' => 'q', 'R' => 'r', 'S' => 's', 'T' => 't', 'U' => 'u',
        'V' => 'v', 'W' => 'w', 'X' => 'x', 'Y' => 'y', 'Z' => 'z',
        _ => c,
    }
}

/// Whether two strings are equal up to ASCII case.
pub fn equal_ignoring_ascii_case(a: &str, b: &str) -> (r: bool)
    ensures
        r == eq_ignore_ascii_case(a@, b@),
{
    let ca = chars_of(a);
    let cb = chars_of(b);
    if ca.len() != cb.len() {
        return false;
    }
    let n = ca.len();
    for i in 0..n
        invariant
            n == ca@.len(),
            n == cb@.len(),
            ca@ == a@,
            cb@ == b@,
            forall|j: int| 0 <= j < i ==> ascii_lower(#[trigger] ca@[j]) == ascii_lower(cb@[j]),
    {
        if ascii_lower_char(ca[i]) != ascii_lower_char(cb[i]) {
            return false;
        }
    }
    true
}

/// The full Unicode lower-case form of a text, as `str::to_lowercase`
/// returns it.
pub uninterp spec fn lowercase(s: Seq<char>) -> Seq<char>;

/// Lower-cases a string.
///
/// Trusted: calls `str::to_lowercase`, whose result depends only on the
/// text (the Unicode tables are fixed for a given standard library); the
/// contract names that result and states nothing more of it.
#[verifier::external_body]
pub(crate) fn to_lowercase(s: &str) -> (r: String)
    ensures
        r@ == lowercase(s@),
{
    s.to_lowercase()
}

// ---------------------------------------------------------------------
// Searching
// ---------------------------------------------------------------------

/// `p` is the first position of `c` in the text.
pub open spec fn first_index_of(s: Seq<char>, c: char, p: int) -> bool {
    0 <= p < s.len() && s[p] == c && forall|j: int| 0 <= j < p ==> s[j] != c
}

/// The position of the first occurrence of `c`, if any.
pub fn find_char(cs: &Vec<char>, c: char) -> (r: Option<usize>)
    ensures
        r matches Some(p) ==> first_index_of(cs@, c, p as int),
        r is None ==> !cs@.contains(c),
{
    let n = cs.len();
    for i in 0..n
        invariant
            n == cs@.len(),
            forall|j: int| 0 <= j < i ==> cs@[j] != c,
    {
        if cs[i] == c {
            return Some(i);
        }
    }
    None
}

/// The characters in positions `from .. to`.
pub fn sub_chars(cs: &Vec<char>, from: usize, to: usize) -> (r: Vec<char>)
    requires
        from <= to <= cs@.len(),
    ensures
        r@ == cs@.subrange(from as int, to as int),
{
    let mut r: Vec<char> = Vec::new();
    let mut j: usize = from;
    while j < to
        invariant
            from <= j <= to <= cs@.len(),
            r@ == cs@.subrange(from as int, j as int),
        decreases to - j,
    {
        r.push(cs[j]);
        assert(cs@.subrange(from as int, j + 1) =~= cs@.subrange(from as int, j as int).push(cs@[j as int]));
        j = j + 1;
    }
    r
}

} // verus!

verus! {

/// Equal code points mean equal text.
pub proof fn lemma_codes_injective(a: Seq<char>, b: Seq<char>)
    requires
        codes(a) == codes(b),
    ensures
        a == b,
{
    assert(a.len() == codes(a).len());
    assert(b.len() == codes(b).len());
    assert forall|i: int| 0 <= i < a.len() implies a[i] == b[i] by {
        assert(codes(a)[i] == a[i] as int);
        assert(codes(b)[i] == b[i] as int);
    }
    assert(a =~= b);
}

} // verus!

verus! {

/// Each text trimmed of surrounding whitespace.
pub fn trim_each(v: &Vec<String>) -> (r: Vec<String>)
    ensures
        views(r@) == views(v@).map_values(|p: Seq<char>| trim_ws(p)),
{
    let mut r: Vec<String> = Vec::new();
    let n = v.len();
    for i in 0..n
        invariant
            n == v@.len(),
            views(r@) == views(v@.take(i as int)).map_values(|p: Seq<char>| trim_ws(p)),
    {
        let t = trim(v[i].as_str());
        let ghost before = r@;
        r.push(t);
        assert(views(r@) =~= views(before).push(t@));
        assert(views(v@.take(i + 1)) =~= views(v@.take(i as int)).push(v@[i as int]@));
        assert(views(v@.take(i + 1)).map_values(|p: Seq<char>| trim_ws(p)) =~= views(v@.take(i as int)).map_values(|p: Seq<char>| trim_ws(p)).push(trim_ws(v@[i as int]@)));
    }
    assert(v@.take(n as int) =~= v@);
    r
}

/// The texts that are not empty, in order.
pub fn drop_empty(v: Vec<String>) -> (r: Vec<String>)
    ensures
        views(r@) == views(v@).filter(|p: Seq<char>| p.len() > 0),
{
    let mut r: Vec<String> = Vec::new();
    let n = v.len();
    let mut i: usize = 0;
    while i < n
        invariant
            i <= n,
            n == v@.len(),
            views(r@) == views(v@.take(i as int)).filter(|p: Seq<char>| p.len() > 0),
        decreases n - i,
    {
        let ghost before = r@;
        let ghost pre = views(v@.take(i as int));
        assert(views(v@.take(i + 1)) =~= pre.push(v@[i as int]@));
        proof {
            pre.lemma_filter_push(v@[i as int]@, |p: Seq<char>| p.len() > 0);
        }
        if v[i].as_str().unicode_len() > 0 {
            r.push(v[i].clone());
            assert(views(r@) =~= views(before).push(v@[i as int]@));
        }
        i = i + 1;
    }
    assert(v@.take(n as int) =~= v@);
    r
}

} // verus!

verus! {

/// The concatenation of three string slices.
pub fn concat3(a: &str, b: &str, c: &str) -> (r: String)
    ensures
        r@ == a@ + b@ + c@,
{
    let mut r = String::from_str(a);
    r.append(b);
    r.append(c);
    r
}

} // verus!
