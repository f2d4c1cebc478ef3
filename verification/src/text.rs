//! Small verified text utilities shared by the scanner, the index and the
//! configuration synchronizer: substring search, trimming, lexicographic
//! comparison, path decomposition and digit parsing, all specified over
//! `Seq<char>` views.

use vstd::prelude::*;
use vstd::string::StrSliceExecFns;

verus! {

/// The ASCII whitespace characters that trimming removes.
pub open spec fn is_space(c: char) -> bool {
    c == ' ' || c == '\t' || c == '\r' || c == '\n'
}

/// Whether the needle `n` occurs in `h` starting at position `i`.
pub open spec fn is_match_at(h: Seq<char>, n: Seq<char>, i: int) -> bool {
    0 <= i && i + n.len() <= h.len() && h.subrange(i, i + n.len()) == n
}

/// Whether the needle `n` occurs anywhere in `h`.
pub open spec fn spec_contains(h: Seq<char>, n: Seq<char>) -> bool {
    exists|i: int| is_match_at(h, n, i)
}

/// The first position at or after `from` where `n` occurs in `h`, or `-1`
/// when there is none.
pub open spec fn spec_find_from(h: Seq<char>, n: Seq<char>, from: int) -> int
    recommends
        0 <= from,
    decreases h.len() - from + 1,
{
    if from < 0 || from + n.len() > h.len() {
        -1
    } else if h.subrange(from, from + n.len()) == n {
        from
    } else {
        spec_find_from(h, n, from + 1)
    }
}

/// The first position where `n` occurs in `h`, or `-1` when there is none.
pub open spec fn spec_find(h: Seq<char>, n: Seq<char>) -> int {
    spec_find_from(h, n, 0)
}

/// `spec_find_from` returns exactly the first match position at or after
/// `from`, and `-1` exactly when there is no match there.
pub proof fn lemma_find_from(h: Seq<char>, n: Seq<char>, from: int)
    requires
        0 <= from,
    ensures
        spec_find_from(h, n, from) == -1 ==> forall|j: int| j >= from ==> !is_match_at(h, n, j),
        spec_find_from(h, n, from) != -1 ==> {
            &&& from <= spec_find_from(h, n, from)
            &&& is_match_at(h, n, spec_find_from(h, n, from))
            &&& forall|j: int|
                from <= j < spec_find_from(h, n, from) ==> !is_match_at(h, n, j)
        },
    decreases h.len() - from + 1,
{
    if from + n.len() > h.len() {
        assert forall|j: int| j >= from implies !is_match_at(h, n, j) by {}
    } else if h.subrange(from, from + n.len()) == n {
    } else {
        lemma_find_from(h, n, from + 1);
    }
}

/// A successful `spec_find` is a witness for `spec_contains`, and a failed
/// one refutes it.
pub proof fn lemma_find_contains(h: Seq<char>, n: Seq<char>)
    ensures
        spec_find(h, n) != -1 <==> spec_contains(h, n),
{
    lemma_find_from(h, n, 0);
    if spec_find(h, n) == -1 {
        assert forall|i: int| !is_match_at(h, n, i) by {
            if i >= 0 {
                assert(!is_match_at(h, n, i));
            }
        }
    }
}

/// Whether `n` occurs in `h` starting exactly at position `from`; reads one
/// character at a time.
fn match_at(h: &str, n: &str, from: usize) -> (r: bool)
    requires
        from + n@.len() <= h@.len(),
    ensures
        r == is_match_at(h@, n@, from as int),
{
    let h_len = h.unicode_len();
    let n_len = n.unicode_len();
    let mut k: usize = 0;
    while k < n_len
        invariant
            0 <= k <= n_len,
            n_len == n@.len(),
            h_len == h@.len(),
            from + n_len <= h_len,
            forall|j: int| 0 <= j < k ==> h@[from + j] == n@[j],
        decreases n_len - k,
    {
        if h.get_char(from + k) != n.get_char(k) {
            assert(h@.subrange(from as int, from + n@.len())[k as int] != n@[k as int]);
            return false;
        }
        k = k + 1;
    }
    assert(h@.subrange(from as int, from + n@.len()) =~= n@);
    true
}

/// Finds the first occurrence of `n` in `h`, returning its character
/// position, or `None` when `n` does not occur.
pub fn find_sub(h: &str, n: &str) -> (r: Option<usize>)
    ensures
        match r {
            Some(i) => spec_find(h@, n@) == i,
            None => spec_find(h@, n@) == -1,
        },
{
    let h_len = h.unicode_len();
    let n_len = n.unicode_len();
    if n_len > h_len {
        return None;
    }
    let end = h_len - n_len;
    let mut i: usize = 0;
    loop
        invariant
            0 <= i <= end,
            end == h_len - n_len,
            n_len <= h_len,
            h_len == h@.len(),
            n_len == n@.len(),
            spec_find(h@, n@) == spec_find_from(h@, n@, i as int),
        decreases end - i,
    {
        if match_at(h, n, i) {
            return Some(i);
        }
        assert(spec_find_from(h@, n@, i as int) == spec_find_from(h@, n@, i + 1));
        if i == end {
            assert(spec_find_from(h@, n@, i + 1) == -1);
            return None;
        }
        i = i + 1;
    }
}

/// Whether `n` occurs anywhere in `h`.
pub fn contains_sub(h: &str, n: &str) -> (r: bool)
    ensures
        r == spec_contains(h@, n@),
{
    proof {
        lemma_find_contains(h@, n@);
    }
    match find_sub(h, n) {
        Some(_) => true,
        None => false,
    }
}

/// The sequence with leading whitespace removed.
pub open spec fn spec_trim_start(s: Seq<char>) -> Seq<char>
    decreases s.len(),
{
    if s.len() > 0 && is_space(s[0]) {
        spec_trim_start(s.drop_first())
    } else {
        s
    }
}

/// The sequence with trailing whitespace removed.
pub open spec fn spec_trim_end(s: Seq<char>) -> Seq<char>
    decreases s.len(),
{
    if s.len() > 0 && is_space(s.last()) {
        spec_trim_end(s.drop_last())
    } else {
        s
    }
}

/// The sequence with leading and trailing whitespace removed.
pub open spec fn spec_trim(s: Seq<char>) -> Seq<char> {
    spec_trim_end(spec_trim_start(s))
}

/// `spec_trim_start` drops exactly the longest whitespace prefix.
proof fn lemma_trim_start_subrange(s: Seq<char>, a: int)
    requires
        0 <= a <= s.len(),
        forall|j: int| 0 <= j < a ==> is_space(s[j]),
        a < s.len() ==> !is_space(s[a]),
    ensures
        spec_trim_start(s) =~= s.subrange(a, s.len() as int),
    decreases s.len(),
{
    if s.len() > 0 && is_space(s[0]) {
        lemma_trim_start_subrange(s.drop_first(), a - 1);
        assert(s.drop_first() =~= s.subrange(1, s.len() as int));
        assert(s.drop_first().subrange(a - 1, s.drop_first().len() as int) =~= s.subrange(
            a,
            s.len() as int,
        ));
    }
}

/// `spec_trim_end` drops exactly the longest whitespace suffix.
proof fn lemma_trim_end_subrange(s: Seq<char>, b: int)
    requires
        0 <= b <= s.len(),
        forall|j: int| b <= j < s.len() ==> is_space(s[j]),
        b > 0 ==> !is_space(s[b - 1]),
    ensures
        spec_trim_end(s) =~= s.subrange(0, b),
    decreases s.len(),
{
    if s.len() > 0 && is_space(s.last()) {
        lemma_trim_end_subrange(s.drop_last(), b);
        assert(s.drop_last() =~= s.subrange(0, s.len() - 1));
        assert(s.drop_last().subrange(0, b) =~= s.subrange(0, b));
    }
}

/// Removes leading and trailing ASCII whitespace.
pub fn trim(s: &str) -> (r: &str)
    ensures
        r@ == spec_trim(s@),
{
    let len = s.unicode_len();
    let mut a: usize = 0;
    while a < len && is_space_char(s.get_char(a))
        invariant
            0 <= a <= len,
            len == s@.len(),
            forall|j: int| 0 <= j < a ==> is_space(s@[j]),
        decreases len - a,
    {
        a = a + 1;
    }
    let mut b: usize = len;
    while b > a && is_space_char(s.get_char(b - 1))
        invariant
            a <= b <= len,
            len == s@.len(),
            forall|j: int| 0 <= j < a ==> is_space(s@[j]),
            a < len ==> !is_space(s@[a as int]),
            forall|j: int| b <= j < len ==> is_space(s@[j]),
        decreases b,
    {
        b = b - 1;
    }
    proof {
        lemma_trim_start_subrange(s@, a as int);
        if b == a {
            lemma_trim_end_subrange(s@.subrange(a as int, s@.len() as int), 0);
        } else {
            lemma_trim_end_subrange(s@.subrange(a as int, s@.len() as int), b - a);
        }
        assert(s@.subrange(a as int, s@.len() as int).subrange(0, b - a) =~= s@.subrange(
            a as int,
            b as int,
        ));
    }
    s.substring_char(a, b)
}

/// Whether the character is ASCII whitespace.
fn is_space_char(c: char) -> (r: bool)
    ensures
        r == is_space(c),
{
    c == ' ' || c == '\t' || c == '\r' || c == '\n'
}

/// Lexicographic order on character sequences: `a` is less than or equal to
/// `b` by the order of the unicode scalar values.
pub open spec fn spec_lex_le(a: Seq<char>, b: Seq<char>) -> bool
    decreases a.len(),
{
    if a.len() == 0 {
        true
    } else if b.len() == 0 {
        false
    } else if a[0] == b[0] {
        spec_lex_le(a.drop_first(), b.drop_first())
    } else {
        a[0] < b[0]
    }
}

/// The lexicographic order is total.
pub proof fn lemma_lex_le_total(a: Seq<char>, b: Seq<char>)
    ensures
        spec_lex_le(a, b) || spec_lex_le(b, a),
    decreases a.len(),
{
    if a.len() > 0 && b.len() > 0 && a[0] == b[0] {
        lemma_lex_le_total(a.drop_first(), b.drop_first());
    }
}

/// The lexicographic order is transitive.
pub proof fn lemma_lex_le_trans(a: Seq<char>, b: Seq<char>, c: Seq<char>)
    requires
        spec_lex_le(a, b),
        spec_lex_le(b, c),
    ensures
        spec_lex_le(a, c),
    decreases a.len(),
{
    if a.len() > 0 && b.len() > 0 && c.len() > 0 && a[0] == b[0] && b[0] == c[0] {
        lemma_lex_le_trans(a.drop_first(), b.drop_first(), c.drop_first());
    }
}

/// Compares two strings in lexicographic order of their characters.
pub fn str_le(a: &str, b: &str) -> (r: bool)
    ensures
        r == spec_lex_le(a@, b@),
{
    let a_len = a.unicode_len();
    let b_len = b.unicode_len();
    proof {
        assert(a@.subrange(0, a_len as int) =~= a@);
        assert(b@.subrange(0, b_len as int) =~= b@);
    }
    let mut i: usize = 0;
    loop
        invariant
            0 <= i <= a_len,
            i <= b_len,
            a_len == a@.len(),
            b_len == b@.len(),
            spec_lex_le(a@, b@) == spec_lex_le(
                a@.subrange(i as int, a_len as int),
                b@.subrange(i as int, b_len as int),
            ),
        decreases a_len - i,
    {
        if i == a_len {
            return true;
        }
        if i == b_len {
            return false;
        }
        let ca = a.get_char(i);
        let cb = b.get_char(i);
        if ca != cb {
            return ca < cb;
        }
        proof {
            assert(a@.subrange(i as int, a_len as int).drop_first() =~= a@.subrange(
                i + 1,
                a_len as int,
            ));
            assert(b@.subrange(i as int, b_len as int).drop_first() =~= b@.subrange(
                i + 1,
                b_len as int,
            ));
        }
        i = i + 1;
    }
}

/// The position of the last occurrence of `c` in `s`, or `-1` when there is
/// none.
pub open spec fn spec_rfind_char(s: Seq<char>, c: char) -> int
    decreases s.len(),
{
    if s.len() == 0 {
        -1
    } else if s.last() == c {
        s.len() - 1
    } else {
        spec_rfind_char(s.drop_last(), c)
    }
}

/// Finds the last occurrence of `c` in `s`.
pub fn rfind_char(s: &str, c: char) -> (r: Option<usize>)
    ensures
        match r {
            Some(i) => spec_rfind_char(s@, c) == i,
            None => spec_rfind_char(s@, c) == -1,
        },
{
    let len = s.unicode_len();
    proof {
        assert(s@.subrange(0, len as int) =~= s@);
    }
    let mut j: usize = len;
    while j > 0
        invariant
            0 <= j <= len,
            len == s@.len(),
            spec_rfind_char(s@, c) == spec_rfind_char(s@.subrange(0, j as int), c),
        decreases j,
    {
        if s.get_char(j - 1) == c {
            return Some(j - 1);
        }
        proof {
            assert(s@.subrange(0, j as int).drop_last() =~= s@.subrange(0, j - 1));
        }
        j = j - 1;
    }
    None
}

/// The final path component: everything after the last `/`, or the whole
/// path when it has no `/`.
pub open spec fn spec_file_name(p: Seq<char>) -> Seq<char> {
    p.subrange(spec_rfind_char(p, '/') + 1, p.len() as int)
}

/// `spec_rfind_char` stays within bounds.
pub proof fn lemma_rfind_char_bounds(s: Seq<char>, c: char)
    ensures
        -1 <= spec_rfind_char(s, c) < s.len(),
    decreases s.len(),
{
    if s.len() > 0 && s.last() != c {
        lemma_rfind_char_bounds(s.drop_last(), c);
    }
}

/// The final path component of `p`.
pub fn file_name_of(p: &str) -> (r: &str)
    ensures
        r@ == spec_file_name(p@),
{
    proof {
        lemma_rfind_char_bounds(p@, '/');
    }
    let len = p.unicode_len();
    match rfind_char(p, '/') {
        Some(i) => p.substring_char(i + 1, len),
        None => p.substring_char(0, len),
    }
}

/// Whether an extension is `wav`, compared without regard to ASCII case.
pub open spec fn is_wav_ext(e: Seq<char>) -> bool {
    &&& e.len() == 3
    &&& (e[0] == 'w' || e[0] == 'W')
    &&& (e[1] == 'a' || e[1] == 'A')
    &&& (e[2] == 'v' || e[2] == 'V')
}

/// Whether the path's final component has a `wav` extension (compared
/// without regard to ASCII case). The dot must not be the component's first
/// character, mirroring how a leading dot marks a hidden file rather than an
/// extension.
pub open spec fn spec_is_wav_path(p: Seq<char>) -> bool {
    let f = spec_file_name(p);
    let d = spec_rfind_char(f, '.');
    d > 0 && is_wav_ext(f.subrange(d + 1, f.len() as int))
}

/// Whether the path names a WAV file by its extension.
pub fn is_wav_path(p: &str) -> (r: bool)
    ensures
        r == spec_is_wav_path(p@),
{
    let name = file_name_of(p);
    proof {
        lemma_rfind_char_bounds(name@, '.');
    }
    let name_len = name.unicode_len();
    match rfind_char(name, '.') {
        Some(d) => {
            if d == 0 {
                return false;
            }
            let ext = name.substring_char(d + 1, name_len);
            if ext.unicode_len() != 3 {
                return false;
            }
            let e0 = ext.get_char(0);
            let e1 = ext.get_char(1);
            let e2 = ext.get_char(2);
            (e0 == 'w' || e0 == 'W') && (e1 == 'a' || e1 == 'A') && (e2 == 'v' || e2 == 'V')
        },
        None => false,
    }
}

/// The final path component without its extension: the stem used to look a
/// file up in the description table.
pub open spec fn spec_file_stem(p: Seq<char>) -> Seq<char> {
    let f = spec_file_name(p);
    let d = spec_rfind_char(f, '.');
    if d > 0 {
        f.subrange(0, d)
    } else {
        f
    }
}

/// The stem of the path's final component.
pub fn file_stem_of(p: &str) -> (r: &str)
    ensures
        r@ == spec_file_stem(p@),
{
    let name = file_name_of(p);
    proof {
        lemma_rfind_char_bounds(name@, '.');
    }
    let name_len = name.unicode_len();
    match rfind_char(name, '.') {
        Some(d) => {
            if d == 0 {
                name
            } else {
                name.substring_char(0, d)
            }
        },
        None => name,
    }
}

/// The path `p` made relative to `base`: with `base` and one separating `/`
/// removed when `p` lies under `base`, and unchanged otherwise.
pub open spec fn spec_relative_to(base: Seq<char>, p: Seq<char>) -> Seq<char> {
    if base.len() < p.len() && p.subrange(0, base.len() as int) == base && p[base.len() as int]
        == '/' {
        p.subrange(base.len() as int + 1, p.len() as int)
    } else {
        p
    }
}

/// Strips the base directory and its trailing separator from a path that
/// lies under it; other paths come back unchanged.
pub fn relative_to<'a>(base: &str, p: &'a str) -> (r: &'a str)
    ensures
        r@ == spec_relative_to(base@, p@),
{
    let base_len = base.unicode_len();
    let p_len = p.unicode_len();
    if base_len < p_len {
        if match_at(p, base, 0) {
            if p.get_char(base_len) == '/' {
                return p.substring_char(base_len + 1, p_len);
            }
        }
    }
    p
}

/// Whether the character is an ASCII decimal digit.
pub open spec fn is_digit(c: char) -> bool {
    '0' <= c && c <= '9'
}

/// Whether every character of `s` is an ASCII decimal digit.
pub open spec fn all_digits(s: Seq<char>) -> bool {
    forall|i: int| 0 <= i < s.len() ==> is_digit(#[trigger] s[i])
}

/// The number written by a sequence of decimal digits.
pub open spec fn spec_digits_value(s: Seq<char>) -> int
    decreases s.len(),
{
    if s.len() == 0 {
        0
    } else {
        10 * spec_digits_value(s.drop_last()) + (s.last() as u32 - 48)
    }
}

/// A digit string's value is non-negative and grows with its length.
pub proof fn lemma_digits_value_nonneg(s: Seq<char>)
    requires
        all_digits(s),
    ensures
        spec_digits_value(s) >= 0,
    decreases s.len(),
{
    if s.len() > 0 {
        assert(all_digits(s.drop_last()));
        lemma_digits_value_nonneg(s.drop_last());
    }
}

/// Extending a digit string cannot decrease its value.
pub proof fn lemma_digits_value_prefix(s: Seq<char>, i: int)
    requires
        all_digits(s),
        0 <= i <= s.len(),
    ensures
        spec_digits_value(s.subrange(0, i)) <= spec_digits_value(s),
    decreases s.len() - i,
{
    if i < s.len() {
        lemma_digits_value_prefix(s, i + 1);
        let t = s.subrange(0, i + 1);
        assert(all_digits(t));
        assert(t.drop_last() =~= s.subrange(0, i));
        lemma_digits_value_nonneg(s.subrange(0, i));
        assert(spec_digits_value(t) == 10 * spec_digits_value(s.subrange(0, i)) + (t.last() as u32
            - 48));
    } else {
        assert(s.subrange(0, i) =~= s);
    }
}

/// Parses a non-empty all-digit string as a 32-bit number; anything else,
/// and any value above `u32::MAX`, is `None`.
pub fn parse_u32(s: &str) -> (r: Option<u32>)
    ensures
        match r {
            Some(v) => s@.len() > 0 && all_digits(s@) && v == spec_digits_value(s@),
            None => s@.len() == 0 || !all_digits(s@) || spec_digits_value(s@) > u32::MAX,
        },
{
    let len = s.unicode_len();
    if len == 0 {
        return None;
    }
    let mut acc: u64 = 0;
    let mut i: usize = 0;
    while i < len
        invariant
            0 <= i <= len,
            len == s@.len(),
            all_digits(s@.subrange(0, i as int)),
            acc == spec_digits_value(s@.subrange(0, i as int)),
            acc <= u32::MAX,
        decreases len - i,
    {
        let c = s.get_char(i);
        if !('0' <= c && c <= '9') {
            return None;
        }
        let d: u64 = (c as u32 - 48) as u64;
        proof {
            assert(s@.subrange(0, i + 1).drop_last() =~= s@.subrange(0, i as int));
        }
        acc = acc * 10 + d;
        i = i + 1;
        if acc > u32::MAX as u64 {
            proof {
                if all_digits(s@) {
                    lemma_digits_value_prefix(s@, i as int);
                }
            }
            return None;
        }
    }
    proof {
        assert(s@.subrange(0, len as int) =~= s@);
    }
    Some(acc as u32)
}

/// The position of the first occurrence of `c` in `s`, or `-1` when there
/// is none.
pub open spec fn spec_find_char(s: Seq<char>, c: char) -> int
    decreases s.len(),
{
    if s.len() == 0 {
        -1
    } else if s[0] == c {
        0
    } else {
        let r = spec_find_char(s.drop_first(), c);
        if r == -1 {
            -1
        } else {
            r + 1
        }
    }
}

/// `spec_find_char` returns exactly the first occurrence, and `-1` exactly
/// when the character does not occur.
pub proof fn lemma_find_char(s: Seq<char>, c: char)
    ensures
        spec_find_char(s, c) == -1 ==> forall|j: int| 0 <= j < s.len() ==> s[j] != c,
        spec_find_char(s, c) != -1 ==> {
            &&& 0 <= spec_find_char(s, c) < s.len()
            &&& s[spec_find_char(s, c)] == c
            &&& forall|j: int| 0 <= j < spec_find_char(s, c) ==> s[j] != c
        },
    decreases s.len(),
{
    if s.len() > 0 && s[0] != c {
        let t = s.drop_first();
        lemma_find_char(t, c);
        if spec_find_char(t, c) == -1 {
            assert forall|j: int| 0 <= j < s.len() implies s[j] != c by {
                if j > 0 {
                    assert(t[j - 1] == s[j]);
                }
            }
        } else {
            let r = spec_find_char(t, c);
            assert(s[r + 1] == t[r]);
            assert forall|j: int| 0 <= j < r + 1 implies s[j] != c by {
                if j > 0 {
                    assert(t[j - 1] == s[j]);
                }
            }
        }
    }
}

/// A position holding `c` with none before it is what `spec_find_char`
/// returns.
pub proof fn lemma_find_char_at(s: Seq<char>, c: char, k: int)
    requires
        0 <= k < s.len(),
        s[k] == c,
        forall|j: int| 0 <= j < k ==> s[j] != c,
    ensures
        spec_find_char(s, c) == k,
{
    lemma_find_char(s, c);
}

/// Finds the first occurrence of `c` in `s`.
pub fn find_char(s: &str, c: char) -> (r: Option<usize>)
    ensures
        match r {
            Some(i) => spec_find_char(s@, c) == i,
            None => spec_find_char(s@, c) == -1,
        },
{
    let len = s.unicode_len();
    let mut i: usize = 0;
    while i < len
        invariant
            0 <= i <= len,
            len == s@.len(),
            forall|j: int| 0 <= j < i ==> s@[j] != c,
        decreases len - i,
    {
        if s.get_char(i) == c {
            proof {
                lemma_find_char_at(s@, c, i as int);
            }
            return Some(i);
        }
        i = i + 1;
    }
    proof {
        lemma_find_char(s@, c);
        if spec_find_char(s@, c) != -1 {
            assert(s@[spec_find_char(s@, c)] == c);
        }
    }
    None
}

/// Removes trailing ASCII whitespace.
pub fn trim_end(s: &str) -> (r: &str)
    ensures
        r@ == spec_trim_end(s@),
{
    let len = s.unicode_len();
    let mut b: usize = len;
    while b > 0 && is_space_char(s.get_char(b - 1))
        invariant
            0 <= b <= len,
            len == s@.len(),
            forall|j: int| b <= j < len ==> is_space(s@[j]),
        decreases b,
    {
        b = b - 1;
    }
    proof {
        lemma_trim_end_subrange(s@, b as int);
    }
    s.substring_char(0, b)
}

/// Relies on String's FromIterator impl for char: the collected string holds
/// exactly the given characters, in order.
#[verifier::external_body]
pub fn chars_to_string(v: &Vec<char>) -> (r: String)
    ensures
        r@ == v@,
{
    v.iter().collect()
}

/// The lowercased form of a character sequence, as `str::to_lowercase`
/// computes it. The result depends on the characters alone.
pub uninterp spec fn lower_of(s: Seq<char>) -> Seq<char>;

/// Relies on str::to_lowercase: the lowercased text is a function of the
/// input characters alone.
#[verifier::external_body]
pub fn lowercase(s: &str) -> (r: String)
    ensures
        r@ == lower_of(s@),
{
    s.to_lowercase()
}

/// Whether `h` begins with `n`.
pub fn starts_with_sub(h: &str, n: &str) -> (r: bool)
    ensures
        r == is_match_at(h@, n@, 0),
{
    let h_len = h.unicode_len();
    let n_len = n.unicode_len();
    if n_len > h_len {
        return false;
    }
    match_at(h, n, 0)
}

/// Whether two string slices hold the same characters.
pub fn eq_str(a: &str, b: &str) -> (r: bool)
    ensures
        r == (a@ == b@),
{
    let a_len = a.unicode_len();
    let b_len = b.unicode_len();
    if a_len != b_len {
        return false;
    }
    let mut k: usize = 0;
    while k < a_len
        invariant
            0 <= k <= a_len,
            a_len == a@.len(),
            a_len == b@.len(),
            forall|j: int| 0 <= j < k ==> a@[j] == b@[j],
        decreases a_len - k,
    {
        if a.get_char(k) != b.get_char(k) {
            return false;
        }
        k = k + 1;
    }
    assert(a@ =~= b@);
    true
}

} // verus!
