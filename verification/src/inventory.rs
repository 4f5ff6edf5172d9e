//! The inventory aggregator: managed services reconstructed from the text
//! output of two external queries.
//!
//! The listing query yields one tabular line per known unit file; only lines
//! holding the namespace prefix count, their first whitespace token (minus
//! the unit-file suffix) names the unit, and the second token decides whether
//! it is enabled. The per-unit status query is free text; a `Active: active`
//! occurrence marks the unit active, and the last token of the first line
//! holding `Memory:` is its memory figure. Missing tokens or missing lines
//! degrade to `false` and the empty string, never to an error.

use vstd::prelude::*;
use vstd::string::*;
use crate::names::{spec_display_name, spec_trim_end_once, to_display_name, trim_end_once};
use crate::systemd::Systemd;
use crate::text::{
    contains_seq, contains_sub, find_char_spec, lemma_find_char_spec, lemma_split_ws_nonempty,
    no_newline, spec_split_lines, spec_split_ws, split_lines, split_whitespace_str, str_eq,
};

verus! {

/// One managed service as the inventory reports it.
pub struct Service {
    pub name: String,
    pub is_active: bool,
    pub is_enabled: bool,
    pub memory: String,
}

/// The entry one listing line yields: the unit name (first token, unit-file
/// suffix stripped) and whether the second token reads `enabled`.
pub open spec fn spec_entry_of(line: Seq<char>) -> (Seq<char>, bool) {
    let toks = spec_split_ws(line);
    (
        spec_trim_end_once(toks[0], ".service"@),
        toks.len() >= 2 && toks[1] == "enabled"@,
    )
}

/// The entries of the listing lines, in order: one per line holding the
/// namespace prefix, every other line skipped.
pub open spec fn spec_list_entries(lines: Seq<Seq<char>>) -> Seq<(Seq<char>, bool)>
    decreases lines.len(),
{
    if lines.len() == 0 {
        Seq::empty()
    } else {
        let rest = spec_list_entries(lines.drop_first());
        if contains_seq(lines[0], "lpm-"@) {
            seq![spec_entry_of(lines[0])] + rest
        } else {
            rest
        }
    }
}

/// Whether status text marks the unit active.
pub open spec fn spec_is_active(status: Seq<char>) -> bool {
    contains_seq(status, "Active: active"@)
}

/// The first line holding `Memory:`, or the empty string.
pub open spec fn spec_first_memory_line(lines: Seq<Seq<char>>) -> Seq<char>
    decreases lines.len(),
{
    if lines.len() == 0 {
        Seq::empty()
    } else if contains_seq(lines[0], "Memory:"@) {
        lines[0]
    } else {
        spec_first_memory_line(lines.drop_first())
    }
}

/// The last whitespace token of `line`, or the empty string.
pub open spec fn spec_last_token(line: Seq<char>) -> Seq<char> {
    let toks = spec_split_ws(line);
    if toks.len() == 0 {
        Seq::empty()
    } else {
        toks.last()
    }
}

/// The memory figure of status text: the last token of its first `Memory:`
/// line, or the empty string when no such line exists.
pub open spec fn spec_memory_of(status: Seq<char>) -> Seq<char> {
    spec_last_token(spec_first_memory_line(spec_split_lines(status)))
}

/// The entries of listing output: one `(unit, enabled)` pair per line
/// holding the namespace prefix, in listing order.
pub fn parse_list_output(list_output: &str) -> (r: Vec<(String, bool)>)
    ensures
        r.deep_view() == spec_list_entries(spec_split_lines(list_output@)),
{
    let lines = split_lines(list_output);
    let ghost lv = lines.deep_view();
    let mut out: Vec<(String, bool)> = Vec::new();
    proof {
        assert(lv.skip(0) =~= lv);
        assert(out.deep_view() + spec_list_entries(lv) =~= spec_list_entries(lv));
    }
    let mut i: usize = 0;
    while i < lines.len()
        invariant
            i <= lines@.len(),
            lv == lines.deep_view(),
            lv.len() == lines@.len(),
            spec_list_entries(lv) == out.deep_view() + spec_list_entries(lv.skip(i as int)),
        decreases lines@.len() - i,
    {
        let ghost rem = lv.skip(i as int);
        proof {
            assert(rem[0] == lv[i as int]);
            assert(rem.drop_first() =~= lv.skip(i as int + 1));
        }
        let line = lines[i].as_str();
        assert(line@ == lv[i as int]);
        if contains_sub(line, "lpm-") {
            proof {
                reveal_strlit("lpm-");
                let w = choose|w: int|
                    0 <= w <= line@.len() - "lpm-"@.len() && #[trigger] line@.subrange(
                        w,
                        w + "lpm-"@.len(),
                    ) == "lpm-"@;
                assert(line@.subrange(w, w + "lpm-"@.len())[0] == line@[w]);
                assert(line@[w] == 'l');
                lemma_split_ws_nonempty(line@);
            }
            let toks = split_whitespace_str(line);
            let unit = trim_end_once(toks[0].as_str(), ".service");
            let enabled = if toks.len() >= 2 {
                str_eq(toks[1].as_str(), "enabled")
            } else {
                false
            };
            let ghost before = out.deep_view();
            out.push((unit, enabled));
            proof {
                assert(out.deep_view() =~= before.push(spec_entry_of(lv[i as int])));
                assert(spec_list_entries(rem) == seq![spec_entry_of(rem[0])]
                    + spec_list_entries(rem.drop_first()));
                assert(out.deep_view() + spec_list_entries(lv.skip(i as int + 1)) =~= before
                    + spec_list_entries(rem));
            }
        } else {
            proof {
                assert(spec_list_entries(rem) == spec_list_entries(rem.drop_first()));
            }
        }
        i += 1;
    }
    proof {
        assert(lv.skip(lines@.len() as int) =~= Seq::<Seq<char>>::empty());
        assert(out.deep_view() + spec_list_entries(Seq::<Seq<char>>::empty()) =~= out.deep_view());
    }
    out
}

/// The two signals of one unit's status text: whether it is active, and its
/// memory figure (empty when no `Memory:` line exists).
pub fn parse_status_output(status: &str) -> (r: (bool, String))
    ensures
        r.0 == spec_is_active(status@),
        r.1@ == spec_memory_of(status@),
{
    let active = contains_sub(status, "Active: active");
    let lines = split_lines(status);
    let ghost lv = lines.deep_view();
    proof {
        assert(lv.skip(0) =~= lv);
    }
    let mut i: usize = 0;
    while i < lines.len()
        invariant
            i <= lines@.len(),
            lv == lines.deep_view(),
            lv.len() == lines@.len(),
            lv == spec_split_lines(status@),
            active == spec_is_active(status@),
            spec_first_memory_line(lv) == spec_first_memory_line(lv.skip(i as int)),
        decreases lines@.len() - i,
    {
        let ghost rem = lv.skip(i as int);
        proof {
            assert(rem[0] == lv[i as int]);
            assert(rem.drop_first() =~= lv.skip(i as int + 1));
        }
        let line = lines[i].as_str();
        assert(line@ == lv[i as int]);
        if contains_sub(line, "Memory:") {
            proof {
                assert(spec_first_memory_line(rem) == lv[i as int]);
            }
            let toks = split_whitespace_str(line);
            let mem = if toks.len() > 0 {
                toks[toks.len() - 1].clone()
            } else {
                String::new()
            };
            proof {
                if toks.len() > 0 {
                    assert(toks.deep_view()[toks@.len() - 1] == spec_split_ws(line@).last());
                } else {
                    assert(mem@ =~= Seq::<char>::empty());
                }
                assert(mem@ == spec_last_token(lv[i as int]));
            }
            return (active, mem);
        }
        proof {
            assert(spec_first_memory_line(rem) == spec_first_memory_line(rem.drop_first()));
        }
        i += 1;
    }
    proof {
        assert(lv.skip(lines@.len() as int) =~= Seq::<Seq<char>>::empty());
        assert(spec_first_memory_line(Seq::<Seq<char>>::empty()) == Seq::<char>::empty());
        assert(spec_split_ws(Seq::<char>::empty()).len() == 0);
    }
    (active, String::new())
}

impl Systemd {
    /// One `Service` record per managed unit the listing output names, in
    /// listing order, each joined with the matching entry of `statuses`: the
    /// display name (prefix and suffix stripped), the enabled flag from the
    /// listing, and the active flag and memory figure from that unit's
    /// status text.
    pub fn get_services(&self, list_output: &str, statuses: &Vec<String>) -> (r: Vec<Service>)
        requires
            statuses.deep_view().len() == spec_list_entries(
                spec_split_lines(list_output@),
            ).len(),
        ensures
            ({
                let entries = spec_list_entries(spec_split_lines(list_output@));
                &&& r@.len() == entries.len()
                &&& forall|i: int|
                    0 <= i < entries.len() ==> {
                        &&& (#[trigger] r@[i]).name@ == spec_display_name(entries[i].0)
                        &&& r@[i].is_enabled == entries[i].1
                        &&& r@[i].is_active == spec_is_active(statuses.deep_view()[i])
                        &&& r@[i].memory@ == spec_memory_of(statuses.deep_view()[i])
                    }
            }),
    {
        let ghost entries = spec_list_entries(spec_split_lines(list_output@));
        let ghost sv = statuses.deep_view();
        let units = parse_list_output(list_output);
        let mut out: Vec<Service> = Vec::new();
        let mut i: usize = 0;
        while i < units.len()
            invariant
                i <= units@.len(),
                units.deep_view() == entries,
                entries.len() == units@.len(),
                sv == statuses.deep_view(),
                sv.len() == entries.len(),
                statuses@.len() == sv.len(),
                out@.len() == i,
                forall|k: int|
                    0 <= k < i ==> {
                        &&& (#[trigger] out@[k]).name@ == spec_display_name(entries[k].0)
                        &&& out@[k].is_enabled == entries[k].1
                        &&& out@[k].is_active == spec_is_active(sv[k])
                        &&& out@[k].memory@ == spec_memory_of(sv[k])
                    },
            decreases units@.len() - i,
        {
            proof {
                assert(units.deep_view()[i as int] == (units@[i as int].0@, units@[i as int].1));
            }
            let name = to_display_name(units[i].0.as_str());
            let st = parse_status_output(statuses[i].as_str());
            assert(statuses@[i as int]@ == sv[i as int]);
            out.push(
                Service { name, is_active: st.0, is_enabled: units[i].1, memory: st.1 },
            );
            i += 1;
        }
        out
    }
}

/// A listing in which no line holds the namespace prefix yields no entries
/// at all.
pub proof fn lemma_list_without_prefix(lines: Seq<Seq<char>>)
    requires
        forall|i: int| 0 <= i < lines.len() ==> !contains_seq(#[trigger] lines[i], "lpm-"@),
    ensures
        spec_list_entries(lines).len() == 0,
    decreases lines.len(),
{
    if lines.len() > 0 {
        assert(forall|i: int|
            0 <= i < lines.drop_first().len() ==> lines.drop_first()[i] == lines[i + 1]);
        lemma_list_without_prefix(lines.drop_first());
    }
}

proof fn lemma_first_memory_line_none(lines: Seq<Seq<char>>)
    requires
        forall|i: int| 0 <= i < lines.len() ==> !contains_seq(#[trigger] lines[i], "Memory:"@),
    ensures
        spec_first_memory_line(lines) == Seq::<char>::empty(),
    decreases lines.len(),
{
    if lines.len() > 0 {
        assert(forall|i: int|
            0 <= i < lines.drop_first().len() ==> lines.drop_first()[i] == lines[i + 1]);
        lemma_first_memory_line_none(lines.drop_first());
    }
}

/// A pattern that occurs in `s` and holds no newline occurs in one of the
/// lines of `s`.
proof fn lemma_contains_in_some_line(s: Seq<char>, p: Seq<char>)
    requires
        contains_seq(s, p),
        p.len() > 0,
        no_newline(p),
    ensures
        exists|i: int|
            0 <= i < spec_split_lines(s).len() && contains_seq(
                #[trigger] spec_split_lines(s)[i],
                p,
            ),
    decreases s.len(),
{
    let j = choose|j: int|
        0 <= j <= s.len() - p.len() && #[trigger] s.subrange(j, j + p.len()) == p;
    assert(s.len() > 0);
    lemma_find_char_spec(s, '\n');
    match find_char_spec(s, '\n') {
        None => {
            assert(spec_split_lines(s) == seq![s]);
            assert(spec_split_lines(s)[0] == s);
            assert(contains_seq(spec_split_lines(s)[0], p));
        },
        Some(n0) => {
            let first = s.subrange(0, n0);
            let tail = s.subrange(n0 + 1, s.len() as int);
            assert(spec_split_lines(s) == seq![first] + spec_split_lines(tail));
            if j + p.len() <= n0 {
                assert(first.subrange(j, j + p.len()) =~= p);
                assert(contains_seq(first, p));
                assert(spec_split_lines(s)[0] == first);
            } else if j <= n0 {
                assert(s.subrange(j, j + p.len())[n0 - j] == s[n0]);
                assert(p[n0 - j] == '\n');
                assert(false);
            } else {
                assert(tail.subrange(j - n0 - 1, j - n0 - 1 + p.len()) =~= p);
                assert(contains_seq(tail, p));
                lemma_contains_in_some_line(tail, p);
                let k = choose|k: int|
                    0 <= k < spec_split_lines(tail).len() && contains_seq(
                        #[trigger] spec_split_lines(tail)[k],
                        p,
                    );
                assert(spec_split_lines(s)[k + 1] == spec_split_lines(tail)[k]);
            }
        },
    }
}

proof fn lemma_contains_prefix(s: Seq<char>, p: Seq<char>, q: Seq<char>)
    requires
        contains_seq(s, p),
        0 < q.len() <= p.len(),
        q == p.subrange(0, q.len() as int),
    ensures
        contains_seq(s, q),
{
    let j = choose|j: int|
        0 <= j <= s.len() - p.len() && #[trigger] s.subrange(j, j + p.len()) == p;
    assert forall|t: int| 0 <= t < q.len() implies s.subrange(j, j + q.len())[t] == q[t] by {
        assert(s.subrange(j, j + p.len())[t] == s[j + t]);
        assert(p.subrange(0, q.len() as int)[t] == p[t]);
    }
    assert(s.subrange(j, j + q.len()) =~= q);
    assert(contains_seq(s, q));
}

/// Status text in which no line holds `Active:` and no line holds `Memory:`
/// yields the safe defaults: the unit counts as inactive and its memory
/// figure is empty.
pub proof fn lemma_status_without_signals(status: Seq<char>)
    requires
        forall|i: int|
            0 <= i < spec_split_lines(status).len() ==> !contains_seq(
                #[trigger] spec_split_lines(status)[i],
                "Active:"@,
            ),
        forall|i: int|
            0 <= i < spec_split_lines(status).len() ==> !contains_seq(
                #[trigger] spec_split_lines(status)[i],
                "Memory:"@,
            ),
    ensures
        !spec_is_active(status),
        spec_memory_of(status) == Seq::<char>::empty(),
{
    reveal_strlit("Active:");
    reveal_strlit("Active: active");
    reveal_strlit("Memory:");
    if contains_seq(status, "Active: active"@) {
        assert(no_newline("Active: active"@)) by {
            assert(forall|t: int|
                0 <= t < "Active: active"@.len() ==> "Active: active"@[t] != '\n');
        }
        lemma_contains_in_some_line(status, "Active: active"@);
        let i = choose|i: int|
            0 <= i < spec_split_lines(status).len() && contains_seq(
                #[trigger] spec_split_lines(status)[i],
                "Active: active"@,
            );
        assert("Active:"@ =~= "Active: active"@.subrange(0, 7));
        lemma_contains_prefix(spec_split_lines(status)[i], "Active: active"@, "Active:"@);
        assert(false);
    }
    lemma_first_memory_line_none(spec_split_lines(status));
    assert(spec_split_ws(Seq::<char>::empty()).len() == 0);
}

} // verus!
