//! Identity mapping between user-facing service names and managed-unit
//! identifiers.
//!
//! A managed-unit identifier is the user-facing name with a fixed namespace
//! prefix prepended; the display name is recovered by stripping the unit-file
//! suffix (if present) and then the namespace prefix (if present). Stripping
//! is a no-op when the prefix or suffix is absent.

use vstd::prelude::*;
use vstd::string::*;

verus! {

/// The namespace prefix carried by every managed-unit identifier.
pub open spec fn spec_prefix() -> Seq<char> {
    "lpm-"@
}

/// The unit-file suffix.
pub open spec fn spec_suffix() -> Seq<char> {
    ".service"@
}

/// `p` occurs at the start of `s`.
pub open spec fn has_prefix(s: Seq<char>, p: Seq<char>) -> bool {
    p.len() <= s.len() && s.subrange(0, p.len() as int) == p
}

/// `x` occurs at the end of `s`.
pub open spec fn has_suffix(s: Seq<char>, x: Seq<char>) -> bool {
    x.len() <= s.len() && s.subrange(s.len() - x.len(), s.len() as int) == x
}

/// `s` with one leading occurrence of `p` removed, if it has one.
pub open spec fn spec_trim_start_once(s: Seq<char>, p: Seq<char>) -> Seq<char> {
    if has_prefix(s, p) {
        s.subrange(p.len() as int, s.len() as int)
    } else {
        s
    }
}

/// `s` with one trailing occurrence of `x` removed, if it has one.
pub open spec fn spec_trim_end_once(s: Seq<char>, x: Seq<char>) -> Seq<char> {
    if has_suffix(s, x) {
        s.subrange(0, s.len() - x.len())
    } else {
        s
    }
}

/// The managed-unit identifier for a user-facing name.
pub open spec fn spec_managed_id(n: Seq<char>) -> Seq<char> {
    spec_prefix() + n
}

/// The display name recovered from a managed id or unit-file name: the
/// unit-file suffix is stripped if present, then the namespace prefix.
pub open spec fn spec_display_name(s: Seq<char>) -> Seq<char> {
    spec_trim_start_once(spec_trim_end_once(s, spec_suffix()), spec_prefix())
}

/// Whether `p` occurs at the start of `s`, comparing character by character.
pub fn starts_with_str(s: &str, p: &str) -> (r: bool)
    ensures
        r == has_prefix(s@, p@),
{
    let n = p.unicode_len();
    let m = s.unicode_len();
    if n > m {
        return false;
    }
    let mut i: usize = 0;
    while i < n
        invariant
            i <= n,
            n == p@.len(),
            m == s@.len(),
            n <= m,
            forall|j: int| 0 <= j < i ==> s@[j] == p@[j],
        decreases n - i,
    {
        if s.get_char(i) != p.get_char(i) {
            assert(s@.subrange(0, n as int)[i as int] != p@[i as int]);
            return false;
        }
        i += 1;
    }
    assert(s@.subrange(0, n as int) =~= p@);
    true
}

/// Whether `x` occurs at the end of `s`, comparing character by character.
pub fn ends_with_str(s: &str, x: &str) -> (r: bool)
    ensures
        r == has_suffix(s@, x@),
{
    let n = x.unicode_len();
    let m = s.unicode_len();
    if n > m {
        return false;
    }
    let mut i: usize = 0;
    while i < n
        invariant
            i <= n,
            n == x@.len(),
            m == s@.len(),
            n <= m,
            forall|j: int| 0 <= j < i ==> s@[m - n + j] == x@[j],
        decreases n - i,
    {
        if s.get_char(m - n + i) != x.get_char(i) {
            assert(s@.subrange(m - n, m as int)[i as int] != x@[i as int]);
            return false;
        }
        i += 1;
    }
    assert(s@.subrange(m - n, m as int) =~= x@);
    true
}

/// `s` with one leading occurrence of `prefix` removed; `s` unchanged when it
/// does not start with `prefix`.
pub fn trim_start_once(s: &str, prefix: &str) -> (r: String)
    ensures
        r@ == spec_trim_start_once(s@, prefix@),
{
    if starts_with_str(s, prefix) {
        let n = prefix.unicode_len();
        let m = s.unicode_len();
        s.substring_char(n, m).to_owned()
    } else {
        s.to_owned()
    }
}

/// `s` with one trailing occurrence of `suffix` removed; `s` unchanged when it
/// does not end with `suffix`.
pub fn trim_end_once(s: &str, suffix: &str) -> (r: String)
    ensures
        r@ == spec_trim_end_once(s@, suffix@),
{
    if ends_with_str(s, suffix) {
        let n = suffix.unicode_len();
        let m = s.unicode_len();
        s.substring_char(0, m - n).to_owned()
    } else {
        s.to_owned()
    }
}

/// The managed-unit identifier for the user-facing name `name`: the fixed
/// namespace prefix prepended to it.
pub fn get_service_name(name: &str) -> (r: String)
    ensures
        r@ == spec_managed_id(name@),
{
    let mut s = String::from_str("lpm-");
    s.append(name);
    s
}

/// The display name for a managed id or unit-file name: the unit-file suffix
/// is stripped if present, then the namespace prefix if present.
pub fn to_display_name(unit: &str) -> (r: String)
    ensures
        r@ == spec_display_name(unit@),
{
    let trimmed = trim_end_once(unit, ".service");
    trim_start_once(trimmed.as_str(), "lpm-")
}

/// The managed-id mapping never lets two distinct user-facing names collide.
pub proof fn lemma_managed_id_injective(a: Seq<char>, b: Seq<char>)
    requires
        spec_managed_id(a) == spec_managed_id(b),
    ensures
        a == b,
{
    reveal_strlit("lpm-");
    assert(a =~= spec_managed_id(a).subrange(4, spec_managed_id(a).len() as int));
    assert(b =~= spec_managed_id(b).subrange(4, spec_managed_id(b).len() as int));
}

/// Mapping a user-facing name to its managed id and back recovers the name.
///
/// The round trip holds for every name that does not itself begin with the
/// namespace prefix; names ending in the unit-file suffix are excluded, since
/// the display mapping strips that suffix as well.
pub proof fn lemma_display_name_round_trip(n: Seq<char>)
    requires
        !has_prefix(n, spec_prefix()),
        !has_suffix(n, spec_suffix()),
    ensures
        spec_display_name(spec_managed_id(n)) == n,
{
    reveal_strlit("lpm-");
    reveal_strlit(".service");
    let m = spec_managed_id(n);
    assert(m.len() == 4 + n.len());
    assert(!has_suffix(m, spec_suffix())) by {
        if has_suffix(m, spec_suffix()) {
            if n.len() >= 8 {
                assert(n.subrange(n.len() - 8, n.len() as int) =~= spec_suffix());
            } else {
                let k = m.len() - 8;
                assert(0 <= k < 4);
                assert(m.subrange(m.len() - 8, m.len() as int)[0] == spec_suffix()[0]);
                assert(m[k] == spec_prefix()[k]);
                assert(spec_prefix()[0] != spec_suffix()[0]);
                assert(spec_prefix()[1] != spec_suffix()[0]);
                assert(spec_prefix()[2] != spec_suffix()[0]);
                assert(spec_prefix()[3] != spec_suffix()[0]);
            }
        }
    };
    assert(spec_trim_end_once(m, spec_suffix()) == m);
    assert(has_prefix(m, spec_prefix())) by {
        assert(m.subrange(0, 4) =~= spec_prefix());
    };
    assert(m.subrange(4, m.len() as int) =~= n);
}

} // verus!
