//! Character-level text utilities: equality, substring search, splitting on
//! newlines and on whitespace, and locating the first occurrence of a
//! character.
//!
//! Every executable function is specified against a small recursive spec
//! function over `Seq<char>`, so that the parsers built on top of these
//! utilities can state their results exactly.

use vstd::prelude::*;
use vstd::string::*;

verus! {

/// The whitespace characters the splitting functions recognize.
pub open spec fn is_space(c: char) -> bool {
    c == ' ' || c == '\t' || c == '\n' || c == '\r'
}

/// The index of the first occurrence of `c` in `s`, if any.
pub open spec fn find_char_spec(s: Seq<char>, c: char) -> Option<int>
    decreases s.len(),
{
    if s.len() == 0 {
        None
    } else if s[0] == c {
        Some(0)
    } else {
        match find_char_spec(s.drop_first(), c) {
            Some(i) => Some(i + 1),
            None => None,
        }
    }
}

/// `find_char_spec` returns the first index holding `c`, or `None` when no
/// index does.
pub proof fn lemma_find_char_spec(s: Seq<char>, c: char)
    ensures
        match find_char_spec(s, c) {
            Some(i) => 0 <= i < s.len() && s[i] == c && (forall|j: int|
                0 <= j < i ==> s[j] != c),
            None => forall|j: int| 0 <= j < s.len() ==> s[j] != c,
        },
    decreases s.len(),
{
    if s.len() == 0 {
    } else if s[0] == c {
    } else {
        lemma_find_char_spec(s.drop_first(), c);
        match find_char_spec(s.drop_first(), c) {
            Some(i) => {
                assert(s.drop_first()[i] == s[i + 1]);
                assert forall|j: int| 0 <= j < i + 1 implies s[j] != c by {
                    if j >= 1 {
                        assert(s.drop_first()[j - 1] == s[j]);
                        assert(s.drop_first()[j - 1] != c);
                    }
                }
            },
            None => {
                assert forall|j: int| 0 <= j < s.len() implies s[j] != c by {
                    if j >= 1 {
                        assert(s.drop_first()[j - 1] == s[j]);
                        assert(s.drop_first()[j - 1] != c);
                    }
                }
            },
        }
    }
}

/// `s` holds no newline character.
pub open spec fn no_newline(s: Seq<char>) -> bool {
    forall|j: int| 0 <= j < s.len() ==> s[j] != '\n'
}

/// When `i` is the first index of `s` holding `c`, `find_char_spec` finds it.
pub proof fn lemma_find_char_at(s: Seq<char>, c: char, i: int)
    requires
        0 <= i < s.len(),
        s[i] == c,
        forall|j: int| 0 <= j < i ==> s[j] != c,
    ensures
        find_char_spec(s, c) == Some(i),
{
    lemma_find_char_spec(s, c);
}

/// `p` occurs somewhere in `s` as a contiguous run.
pub open spec fn contains_seq(s: Seq<char>, p: Seq<char>) -> bool {
    exists|i: int| 0 <= i <= s.len() - p.len() && #[trigger] s.subrange(i, i + p.len()) == p
}

/// The length of the maximal non-whitespace prefix of `s`.
pub open spec fn spec_token_len(s: Seq<char>) -> nat
    decreases s.len(),
{
    if s.len() == 0 || is_space(s[0]) {
        0
    } else {
        1 + spec_token_len(s.drop_first())
    }
}

/// `spec_token_len` counts the leading non-whitespace characters, stopping at
/// the first whitespace character or the end of `s`.
pub proof fn lemma_token_len(s: Seq<char>)
    ensures
        spec_token_len(s) <= s.len(),
        forall|j: int| 0 <= j < spec_token_len(s) ==> !is_space(s[j]),
        spec_token_len(s) < s.len() ==> is_space(s[spec_token_len(s) as int]),
    decreases s.len(),
{
    if s.len() == 0 || is_space(s[0]) {
    } else {
        lemma_token_len(s.drop_first());
        let t = spec_token_len(s);
        assert forall|j: int| 0 <= j < t implies !is_space(s[j]) by {
            if j >= 1 {
                assert(s.drop_first()[j - 1] == s[j]);
                assert(!is_space(s.drop_first()[j - 1]));
            }
        }
        if t < s.len() {
            assert(s.drop_first()[t - 1] == s[t as int]);
        }
    }
}

/// The whitespace-separated tokens of `s`, in order; runs of whitespace are
/// treated as one separator and produce no empty tokens.
pub open spec fn spec_split_ws(s: Seq<char>) -> Seq<Seq<char>>
    decreases s.len(),
    via spec_split_ws_decreases
{
    if s.len() == 0 {
        Seq::empty()
    } else if is_space(s[0]) {
        spec_split_ws(s.drop_first())
    } else {
        seq![s.subrange(0, spec_token_len(s) as int)] + spec_split_ws(
            s.subrange(spec_token_len(s) as int, s.len() as int),
        )
    }
}

#[via_fn]
proof fn spec_split_ws_decreases(s: Seq<char>) {
    if s.len() > 0 && !is_space(s[0]) {
        lemma_token_len(s);
        assert(spec_token_len(s) >= 1);
    }
}

/// A string holding any non-whitespace character splits into at least one
/// token.
pub proof fn lemma_split_ws_nonempty(s: Seq<char>)
    requires
        exists|i: int| 0 <= i < s.len() && !is_space(#[trigger] s[i]),
    ensures
        spec_split_ws(s).len() > 0,
    decreases s.len(),
{
    let i = choose|i: int| 0 <= i < s.len() && !is_space(#[trigger] s[i]);
    if is_space(s[0]) {
        assert(s.drop_first()[i - 1] == s[i]);
        lemma_split_ws_nonempty(s.drop_first());
    }
}

/// The lines of `s`: the runs of characters between newline characters. A
/// trailing newline produces no empty final line, matching how line iteration
/// behaves on ordinary text.
pub open spec fn spec_split_lines(s: Seq<char>) -> Seq<Seq<char>>
    decreases s.len(),
    via spec_split_lines_decreases
{
    if s.len() == 0 {
        Seq::empty()
    } else {
        match find_char_spec(s, '\n') {
            Some(i) => seq![s.subrange(0, i)] + spec_split_lines(
                s.subrange(i + 1, s.len() as int),
            ),
            None => seq![s],
        }
    }
}

#[via_fn]
proof fn spec_split_lines_decreases(s: Seq<char>) {
    if s.len() > 0 {
        lemma_find_char_spec(s, '\n');
    }
}

/// The decimal digit character for `d`.
pub open spec fn spec_digit(d: int) -> char {
    if d == 0 {
        '0'
    } else if d == 1 {
        '1'
    } else if d == 2 {
        '2'
    } else if d == 3 {
        '3'
    } else if d == 4 {
        '4'
    } else if d == 5 {
        '5'
    } else if d == 6 {
        '6'
    } else if d == 7 {
        '7'
    } else if d == 8 {
        '8'
    } else {
        '9'
    }
}

/// The decimal rendering of `n`, most significant digit first, no leading
/// zeros except for zero itself.
pub open spec fn spec_decimal(n: nat) -> Seq<char>
    decreases n,
{
    if n < 10 {
        seq![spec_digit(n as int)]
    } else {
        spec_decimal(n / 10) + seq![spec_digit((n % 10) as int)]
    }
}

/// The one-character string of a decimal digit.
fn digit_str(d: usize) -> (r: String)
    requires
        d < 10,
    ensures
        r@ == seq![spec_digit(d as int)],
{
    proof {
        reveal_strlit("0");
        reveal_strlit("1");
        reveal_strlit("2");
        reveal_strlit("3");
        reveal_strlit("4");
        reveal_strlit("5");
        reveal_strlit("6");
        reveal_strlit("7");
        reveal_strlit("8");
        reveal_strlit("9");
    }
    let s = if d == 0 {
        "0"
    } else if d == 1 {
        "1"
    } else if d == 2 {
        "2"
    } else if d == 3 {
        "3"
    } else if d == 4 {
        "4"
    } else if d == 5 {
        "5"
    } else if d == 6 {
        "6"
    } else if d == 7 {
        "7"
    } else if d == 8 {
        "8"
    } else {
        "9"
    };
    assert(s@ =~= seq![spec_digit(d as int)]);
    s.to_owned()
}

/// The decimal rendering of `n` as an owned string.
pub fn usize_to_string(n: usize) -> (r: String)
    ensures
        r@ == spec_decimal(n as nat),
    decreases n,
{
    if n < 10 {
        digit_str(n)
    } else {
        let mut s = usize_to_string(n / 10);
        let d = digit_str(n % 10);
        s.append(d.as_str());
        s
    }
}

/// Whether `c` is one of the whitespace characters the splitters recognize.
pub fn is_space_char(c: char) -> (r: bool)
    ensures
        r == is_space(c),
{
    c == ' ' || c == '\t' || c == '\n' || c == '\r'
}

/// Character-by-character equality of two string slices.
pub fn str_eq(a: &str, b: &str) -> (r: bool)
    ensures
        r == (a@ == b@),
{
    let n = a.unicode_len();
    let m = b.unicode_len();
    if n != m {
        return false;
    }
    let mut i: usize = 0;
    while i < n
        invariant
            i <= n,
            n == a@.len(),
            n == b@.len(),
            forall|j: int| 0 <= j < i ==> a@[j] == b@[j],
        decreases n - i,
    {
        if a.get_char(i) != b.get_char(i) {
            return false;
        }
        i += 1;
    }
    assert(a@ =~= b@);
    true
}

/// The index of the first occurrence of `c` in `s`, if any.
pub fn find_char(s: &str, c: char) -> (r: Option<usize>)
    ensures
        find_char_spec(s@, c) == match r {
            Some(i) => Some(i as int),
            None => None,
        },
{
    let m = s.unicode_len();
    let mut i: usize = 0;
    while i < m
        invariant
            i <= m,
            m == s@.len(),
            forall|j: int| 0 <= j < i ==> s@[j] != c,
        decreases m - i,
    {
        if s.get_char(i) == c {
            proof {
                lemma_find_char_spec(s@, c);
            }
            return Some(i);
        }
        i += 1;
    }
    proof {
        lemma_find_char_spec(s@, c);
    }
    None
}

/// Whether `p` occurs in `s` starting at index `i`.
fn matches_at(s: &str, p: &str, i: usize) -> (r: bool)
    requires
        i + p@.len() <= s@.len(),
        s@.len() <= usize::MAX,
    ensures
        r == (s@.subrange(i as int, i + p@.len()) == p@),
{
    let n = p.unicode_len();
    let mut j: usize = 0;
    while j < n
        invariant
            j <= n,
            n == p@.len(),
            i + n <= s@.len(),
            s@.len() <= usize::MAX,
            forall|k: int| 0 <= k < j ==> s@[i + k] == p@[k],
        decreases n - j,
    {
        if s.get_char(i + j) != p.get_char(j) {
            assert(s@.subrange(i as int, i + p@.len())[j as int] != p@[j as int]);
            return false;
        }
        j += 1;
    }
    assert(s@.subrange(i as int, i + p@.len()) =~= p@);
    true
}

/// Whether `p` occurs somewhere in `s` as a contiguous run.
pub fn contains_sub(s: &str, p: &str) -> (r: bool)
    ensures
        r == contains_seq(s@, p@),
{
    let n = p.unicode_len();
    let m = s.unicode_len();
    if n > m {
        assert(!contains_seq(s@, p@));
        return false;
    }
    if n == 0 {
        assert(s@.subrange(0, 0 + p@.len() as int) =~= p@);
        assert(contains_seq(s@, p@));
        return true;
    }
    let mut i: usize = 0;
    while i <= m - n
        invariant
            1 <= n <= m,
            n == p@.len(),
            m == s@.len(),
            i <= m - n + 1,
            forall|k: int| 0 <= k < i ==> #[trigger] s@.subrange(k, k + p@.len()) != p@,
        decreases m - i,
    {
        if matches_at(s, p, i) {
            assert(contains_seq(s@, p@));
            return true;
        }
        i += 1;
    }
    assert(!contains_seq(s@, p@));
    false
}

/// The lines of `s`, each as an owned string.
pub fn split_lines(s: &str) -> (r: Vec<String>)
    ensures
        r.deep_view() == spec_split_lines(s@),
    decreases s@.len(),
{
    let m = s.unicode_len();
    if m == 0 {
        let r: Vec<String> = Vec::new();
        assert(r.deep_view() =~= spec_split_lines(s@));
        return r;
    }
    match find_char(s, '\n') {
        Some(i) => {
            proof {
                lemma_find_char_spec(s@, '\n');
            }
            let first = s.substring_char(0, i).to_owned();
            let tail = s.substring_char(i + 1, m);
            let mut rest = split_lines(tail);
            let ghost rest_view = rest.deep_view();
            let mut r: Vec<String> = Vec::new();
            r.push(first);
            r.append(&mut rest);
            proof {
                assert(r.deep_view() =~= seq![s@.subrange(0, i as int)] + rest_view);
                assert(tail@ == s@.subrange(i + 1, m as int));
                assert(r.deep_view() =~= spec_split_lines(s@));
            }
            r
        },
        None => {
            let mut r: Vec<String> = Vec::new();
            r.push(s.to_owned());
            assert(r.deep_view() =~= spec_split_lines(s@));
            r
        },
    }
}

/// The whitespace-separated tokens of `s`, each as an owned string.
pub fn split_whitespace_str(s: &str) -> (r: Vec<String>)
    ensures
        r.deep_view() == spec_split_ws(s@),
    decreases s@.len(),
{
    let m = s.unicode_len();
    if m == 0 {
        let r: Vec<String> = Vec::new();
        assert(r.deep_view() =~= spec_split_ws(s@));
        return r;
    }
    if is_space_char(s.get_char(0)) {
        let tail = s.substring_char(1, m);
        let r = split_whitespace_str(tail);
        proof {
            assert(tail@ =~= s@.drop_first());
        }
        r
    } else {
        let mut t: usize = 1;
        while t < m && !is_space_char(s.get_char(t))
            invariant
                1 <= t <= m,
                m == s@.len(),
                forall|j: int| 0 <= j < t ==> !is_space(s@[j]),
            decreases m - t,
        {
            t += 1;
        }
        proof {
            lemma_token_len(s@);
            assert(spec_token_len(s@) == t as nat);
        }
        let tok = s.substring_char(0, t).to_owned();
        let tail = s.substring_char(t, m);
        let rest = split_whitespace_str(tail);
        let ghost rest_view = rest.deep_view();
        let mut r: Vec<String> = Vec::new();
        r.push(tok);
        let mut moved = rest;
        r.append(&mut moved);
        proof {
            assert(r.deep_view() =~= seq![s@.subrange(0, t as int)] + rest_view);
            assert(tail@ == s@.subrange(t as int, m as int));
            assert(r.deep_view() =~= spec_split_ws(s@));
        }
        r
    }
}

} // verus!
