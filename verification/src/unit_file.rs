//! The definition model and the on-disk unit-file text format.
//!
//! A definition model holds three ordered key/value sections, `Unit`,
//! `Service` and `Install`. Rendering emits each section as a `[Name]` header
//! line followed by one `Key=Value` line per pair, every line terminated by a
//! newline. Parsing reads that format back: a line of the shape `[Name]`
//! selects the current section, a line holding `=` adds a pair to it at the
//! first `=`, and every other line is skipped. For models whose keys hold no
//! `=` or newline (and do not open with `[`) and whose values hold no newline,
//! rendering then parsing recovers exactly the original pairs of every
//! section; that round trip is proved below.

use vstd::prelude::*;
use vstd::string::*;
use crate::text::{
    find_char_spec, lemma_find_char_spec, lemma_find_char_at, no_newline, spec_split_lines,
    split_lines, find_char, str_eq,
};

verus! {

/// A service definition: three ordered key/value sections.
pub struct Unit {
    pub unit: Vec<(String, String)>,
    pub service: Vec<(String, String)>,
    pub install: Vec<(String, String)>,
}

/// The section a parsed line is attributed to. `Other` covers the state
/// before any header and after a header naming an unknown section.
pub enum Section {
    Unit,
    Service,
    Install,
    Other,
}

/// What one line of unit-file text means.
pub enum LineKind {
    Header(Seq<char>),
    Pair(Seq<char>, Seq<char>),
    Skip,
}

/// A key may stand on the left of `=` in a rendered line: it holds no `=` and
/// no newline, and does not open with `[`.
pub open spec fn valid_key(k: Seq<char>) -> bool {
    &&& forall|j: int| 0 <= j < k.len() ==> k[j] != '\n' && k[j] != '='
    &&& k.len() > 0 ==> k[0] != '['
}

/// A value may stand on the right of `=` in a rendered line: it holds no
/// newline.
pub open spec fn valid_value(v: Seq<char>) -> bool {
    forall|j: int| 0 <= j < v.len() ==> v[j] != '\n'
}

/// Every pair of `ps` has a valid key and a valid value.
pub open spec fn valid_pairs(ps: Seq<(Seq<char>, Seq<char>)>) -> bool {
    forall|i: int| 0 <= i < ps.len() ==> valid_key(#[trigger] ps[i].0) && valid_value(ps[i].1)
}

/// The header line of a section: `[Name]`.
pub open spec fn spec_header_line(name: Seq<char>) -> Seq<char> {
    seq!['['] + name + seq![']']
}

/// The line of one pair: `Key=Value`.
pub open spec fn spec_pair_line(k: Seq<char>, v: Seq<char>) -> Seq<char> {
    k + seq!['='] + v
}

/// The lines of a section's pairs, in order.
pub open spec fn spec_pair_lines(ps: Seq<(Seq<char>, Seq<char>)>) -> Seq<Seq<char>> {
    ps.map_values(|p: (Seq<char>, Seq<char>)| spec_pair_line(p.0, p.1))
}

/// The lines of one whole section: its header, then its pairs.
pub open spec fn spec_section_lines(name: Seq<char>, ps: Seq<(Seq<char>, Seq<char>)>) -> Seq<
    Seq<char>,
> {
    seq![spec_header_line(name)] + spec_pair_lines(ps)
}

/// The lines of a whole rendered model, sections in fixed order.
pub open spec fn spec_unit_lines(
    u: Seq<(Seq<char>, Seq<char>)>,
    s: Seq<(Seq<char>, Seq<char>)>,
    i: Seq<(Seq<char>, Seq<char>)>,
) -> Seq<Seq<char>> {
    spec_section_lines("Unit"@, u) + spec_section_lines("Service"@, s) + spec_section_lines(
        "Install"@,
        i,
    )
}

/// Lines joined back into text, every line terminated by a newline.
pub open spec fn spec_unlines(lines: Seq<Seq<char>>) -> Seq<char>
    decreases lines.len(),
{
    if lines.len() == 0 {
        Seq::empty()
    } else {
        lines[0] + seq!['\n'] + spec_unlines(lines.drop_first())
    }
}

/// The rendered text of a whole model.
pub open spec fn spec_render_unit(
    u: Seq<(Seq<char>, Seq<char>)>,
    s: Seq<(Seq<char>, Seq<char>)>,
    i: Seq<(Seq<char>, Seq<char>)>,
) -> Seq<char> {
    spec_unlines(spec_unit_lines(u, s, i))
}

/// What one line means: a `[Name]` header, a pair split at the first `=`, or
/// nothing.
pub open spec fn spec_classify(line: Seq<char>) -> LineKind {
    if line.len() >= 2 && line[0] == '[' && line[line.len() - 1] == ']' {
        LineKind::Header(line.subrange(1, line.len() - 1))
    } else {
        match find_char_spec(line, '=') {
            Some(i) => LineKind::Pair(line.subrange(0, i), line.subrange(i + 1, line.len() as int)),
            None => LineKind::Skip,
        }
    }
}

/// The section a header name selects.
pub open spec fn spec_section_of(name: Seq<char>) -> Section {
    if name == "Unit"@ {
        Section::Unit
    } else if name == "Service"@ {
        Section::Service
    } else if name == "Install"@ {
        Section::Install
    } else {
        Section::Other
    }
}

/// One parsing step: the state after reading one line.
pub open spec fn spec_step(
    st: (Section, Seq<(Seq<char>, Seq<char>)>, Seq<(Seq<char>, Seq<char>)>, Seq<(Seq<char>, Seq<char>)>),
    line: Seq<char>,
) -> (Section, Seq<(Seq<char>, Seq<char>)>, Seq<(Seq<char>, Seq<char>)>, Seq<(Seq<char>, Seq<char>)>) {
    match spec_classify(line) {
        LineKind::Header(name) => (spec_section_of(name), st.1, st.2, st.3),
        LineKind::Pair(k, v) => match st.0 {
            Section::Unit => (st.0, st.1.push((k, v)), st.2, st.3),
            Section::Service => (st.0, st.1, st.2.push((k, v)), st.3),
            Section::Install => (st.0, st.1, st.2, st.3.push((k, v))),
            Section::Other => st,
        },
        LineKind::Skip => st,
    }
}

/// The parsing state after reading all of `lines`, starting from `st`.
pub open spec fn spec_parse_lines(
    lines: Seq<Seq<char>>,
    st: (Section, Seq<(Seq<char>, Seq<char>)>, Seq<(Seq<char>, Seq<char>)>, Seq<(Seq<char>, Seq<char>)>),
) -> (Section, Seq<(Seq<char>, Seq<char>)>, Seq<(Seq<char>, Seq<char>)>, Seq<(Seq<char>, Seq<char>)>)
    decreases lines.len(),
{
    if lines.len() == 0 {
        st
    } else {
        spec_parse_lines(lines.drop_first(), spec_step(st, lines[0]))
    }
}

/// The state every parse starts from: no section selected, all sections empty.
pub open spec fn spec_initial_state() -> (
    Section,
    Seq<(Seq<char>, Seq<char>)>,
    Seq<(Seq<char>, Seq<char>)>,
    Seq<(Seq<char>, Seq<char>)>,
) {
    (Section::Other, Seq::empty(), Seq::empty(), Seq::empty())
}

/// The three sections recovered from unit-file text.
pub open spec fn spec_parse_unit_text(s: Seq<char>) -> (
    Seq<(Seq<char>, Seq<char>)>,
    Seq<(Seq<char>, Seq<char>)>,
    Seq<(Seq<char>, Seq<char>)>,
) {
    let st = spec_parse_lines(spec_split_lines(s), spec_initial_state());
    (st.1, st.2, st.3)
}

/// Joining lines distributes over appending line sequences.
proof fn lemma_unlines_append(l1: Seq<Seq<char>>, l2: Seq<Seq<char>>)
    ensures
        spec_unlines(l1 + l2) == spec_unlines(l1) + spec_unlines(l2),
    decreases l1.len(),
{
    if l1.len() == 0 {
        assert(l1 + l2 =~= l2);
        assert(spec_unlines(l1) + spec_unlines(l2) =~= spec_unlines(l2));
    } else {
        lemma_unlines_append(l1.drop_first(), l2);
        assert((l1 + l2).drop_first() =~= l1.drop_first() + l2);
        assert((l1 + l2)[0] == l1[0]);
        assert(spec_unlines(l1 + l2) =~= spec_unlines(l1) + spec_unlines(l2));
    }
}

/// Joining one more line appends that line and a newline.
proof fn lemma_unlines_snoc(l: Seq<Seq<char>>, x: Seq<char>)
    ensures
        spec_unlines(l.push(x)) == spec_unlines(l) + x + seq!['\n'],
{
    assert(l.push(x) =~= l + seq![x]);
    lemma_unlines_append(l, seq![x]);
    assert(seq![x].drop_first() =~= Seq::<Seq<char>>::empty());
    assert(seq![x][0] == x);
    assert(spec_unlines(Seq::<Seq<char>>::empty()) =~= Seq::<char>::empty());
    assert(spec_unlines(seq![x]) =~= x + seq!['\n']);
    assert(spec_unlines(l) + (x + seq!['\n']) =~= spec_unlines(l) + x + seq!['\n']);
}

/// Splitting the joined text of newline-free lines recovers the lines.
proof fn lemma_split_unlines(lines: Seq<Seq<char>>)
    requires
        forall|i: int| 0 <= i < lines.len() ==> no_newline(#[trigger] lines[i]),
    ensures
        spec_split_lines(spec_unlines(lines)) == lines,
    decreases lines.len(),
{
    if lines.len() == 0 {
        assert(spec_split_lines(spec_unlines(lines)) =~= lines);
    } else {
        let first = lines[0];
        let rest = lines.drop_first();
        let s = spec_unlines(lines);
        assert(s == first + seq!['\n'] + spec_unlines(rest));
        let n0 = first.len() as int;
        assert(s[n0] == '\n');
        assert(forall|j: int| 0 <= j < n0 ==> s[j] == first[j]);
        assert(forall|j: int| 0 <= j < n0 ==> s[j] != '\n') by {
            assert(no_newline(first));
        }
        lemma_find_char_at(s, '\n', n0);
        assert(s.subrange(0, n0) =~= first);
        assert(s.subrange(n0 + 1, s.len() as int) =~= spec_unlines(rest));
        assert(forall|i: int| 0 <= i < rest.len() ==> no_newline(#[trigger] rest[i]));
        lemma_split_unlines(rest);
        assert(spec_split_lines(s) =~= lines);
    }
}

/// Parsing distributes over appending line sequences.
proof fn lemma_parse_lines_append(
    l1: Seq<Seq<char>>,
    l2: Seq<Seq<char>>,
    st: (Section, Seq<(Seq<char>, Seq<char>)>, Seq<(Seq<char>, Seq<char>)>, Seq<(Seq<char>, Seq<char>)>),
)
    ensures
        spec_parse_lines(l1 + l2, st) == spec_parse_lines(l2, spec_parse_lines(l1, st)),
    decreases l1.len(),
{
    if l1.len() == 0 {
        assert(l1 + l2 =~= l2);
    } else {
        assert((l1 + l2)[0] == l1[0]);
        assert((l1 + l2).drop_first() =~= l1.drop_first() + l2);
        lemma_parse_lines_append(l1.drop_first(), l2, spec_step(st, l1[0]));
    }
}

/// Parsing one more line applies one step.
proof fn lemma_parse_lines_snoc(
    l: Seq<Seq<char>>,
    x: Seq<char>,
    st: (Section, Seq<(Seq<char>, Seq<char>)>, Seq<(Seq<char>, Seq<char>)>, Seq<(Seq<char>, Seq<char>)>),
)
    ensures
        spec_parse_lines(l.push(x), st) == spec_step(spec_parse_lines(l, st), x),
{
    assert(l.push(x) =~= l + seq![x]);
    lemma_parse_lines_append(l, seq![x], st);
    let st2 = spec_parse_lines(l, st);
    assert(seq![x][0] == x);
    assert(seq![x].drop_first() =~= Seq::<Seq<char>>::empty());
    assert(spec_parse_lines(seq![x].drop_first(), spec_step(st2, x)) == spec_step(st2, x));
}

/// A rendered header line is read back as a header naming the same section.
proof fn lemma_classify_header(name: Seq<char>)
    ensures
        spec_classify(spec_header_line(name)) == LineKind::Header(name),
{
    let line = spec_header_line(name);
    assert(line.len() == name.len() + 2);
    assert(line[0] == '[');
    assert(line[line.len() - 1] == ']');
    assert(line.subrange(1, line.len() - 1) =~= name);
}

/// A rendered pair line is read back as the same pair.
proof fn lemma_classify_pair_line(k: Seq<char>, v: Seq<char>)
    requires
        valid_key(k),
    ensures
        spec_classify(spec_pair_line(k, v)) == LineKind::Pair(k, v),
{
    let line = spec_pair_line(k, v);
    assert(line.len() == k.len() + 1 + v.len());
    assert(line[k.len() as int] == '=');
    assert(forall|j: int| 0 <= j < k.len() ==> line[j] == k[j]);
    if line.len() >= 2 && line[0] == '[' && line[line.len() - 1] == ']' {
        if k.len() > 0 {
            assert(line[0] == k[0]);
            assert(false);
        } else {
            assert(line[0] == '=');
            assert(false);
        }
    }
    lemma_find_char_at(line, '=', k.len() as int);
    assert(line.subrange(0, k.len() as int) =~= k);
    assert(line.subrange(k.len() as int + 1, line.len() as int) =~= v);
}

/// Reading the pair lines of one selected section appends exactly those pairs
/// to it and leaves the other sections and the selection unchanged.
proof fn lemma_parse_pair_lines(
    ps: Seq<(Seq<char>, Seq<char>)>,
    st: (Section, Seq<(Seq<char>, Seq<char>)>, Seq<(Seq<char>, Seq<char>)>, Seq<(Seq<char>, Seq<char>)>),
)
    requires
        valid_pairs(ps),
    ensures
        spec_parse_lines(spec_pair_lines(ps), st) == match st.0 {
            Section::Unit => (st.0, st.1 + ps, st.2, st.3),
            Section::Service => (st.0, st.1, st.2 + ps, st.3),
            Section::Install => (st.0, st.1, st.2, st.3 + ps),
            Section::Other => st,
        },
    decreases ps.len(),
{
    if ps.len() == 0 {
        assert(spec_pair_lines(ps).len() == 0);
        assert(st.1 + ps =~= st.1);
        assert(st.2 + ps =~= st.2);
        assert(st.3 + ps =~= st.3);
    } else {
        let p0 = ps[0];
        assert(valid_key(p0.0));
        lemma_classify_pair_line(p0.0, p0.1);
        assert(spec_pair_lines(ps)[0] == spec_pair_line(p0.0, p0.1));
        assert(spec_pair_lines(ps).drop_first() =~= spec_pair_lines(ps.drop_first()));
        let st1 = spec_step(st, spec_pair_lines(ps)[0]);
        assert(forall|i: int|
            0 <= i < ps.drop_first().len() ==> ps.drop_first()[i] == ps[i + 1]);
        lemma_parse_pair_lines(ps.drop_first(), st1);
        match st.0 {
            Section::Unit => {
                assert(st.1.push(p0) + ps.drop_first() =~= st.1 + ps);
            },
            Section::Service => {
                assert(st.2.push(p0) + ps.drop_first() =~= st.2 + ps);
            },
            Section::Install => {
                assert(st.3.push(p0) + ps.drop_first() =~= st.3 + ps);
            },
            Section::Other => {},
        }
    }
}

/// Reading one whole rendered section selects it and appends its pairs.
proof fn lemma_parse_section_lines(
    name: Seq<char>,
    ps: Seq<(Seq<char>, Seq<char>)>,
    st: (Section, Seq<(Seq<char>, Seq<char>)>, Seq<(Seq<char>, Seq<char>)>, Seq<(Seq<char>, Seq<char>)>),
)
    requires
        valid_pairs(ps),
    ensures
        spec_parse_lines(spec_section_lines(name, ps), st) == match spec_section_of(name) {
            Section::Unit => (spec_section_of(name), st.1 + ps, st.2, st.3),
            Section::Service => (spec_section_of(name), st.1, st.2 + ps, st.3),
            Section::Install => (spec_section_of(name), st.1, st.2, st.3 + ps),
            Section::Other => (spec_section_of(name), st.1, st.2, st.3),
        },
{
    lemma_classify_header(name);
    lemma_parse_lines_append(seq![spec_header_line(name)], spec_pair_lines(ps), st);
    let hdr = spec_header_line(name);
    assert(seq![hdr][0] == hdr);
    assert(seq![hdr].drop_first() =~= Seq::<Seq<char>>::empty());
    assert(spec_parse_lines(seq![hdr].drop_first(), spec_step(st, hdr)) == spec_step(st, hdr));
    let st1 = spec_parse_lines(seq![hdr], st);
    assert(st1 == (spec_section_of(name), st.1, st.2, st.3));
    lemma_parse_pair_lines(ps, st1);
}

/// No line of a rendered section holds a newline, provided the section's name
/// does not and its pairs are valid.
proof fn lemma_section_lines_no_newline(name: Seq<char>, ps: Seq<(Seq<char>, Seq<char>)>)
    requires
        no_newline(name),
        valid_pairs(ps),
    ensures
        forall|i: int| 0 <= i < spec_section_lines(name, ps).len() ==> no_newline(
            #[trigger] spec_section_lines(name, ps)[i],
        ),
{
    let lines = spec_section_lines(name, ps);
    assert forall|i: int| 0 <= i < lines.len() implies no_newline(lines[i]) by {
        if i == 0 {
            assert(lines[0] == spec_header_line(name));
            assert forall|j: int| 0 <= j < spec_header_line(name).len() implies spec_header_line(
                name,
            )[j] != '\n' by {
                if 1 <= j < name.len() + 1 {
                    assert(spec_header_line(name)[j] == name[j - 1]);
                }
            }
        } else {
            assert(0 <= i - 1 < ps.len());
            let p = ps[i - 1];
            assert(valid_key(ps[i - 1].0) && valid_value(ps[i - 1].1));
            assert(lines[i] == spec_pair_lines(ps)[i - 1]);
            assert(lines[i] == spec_pair_line(p.0, p.1));
            let line = spec_pair_line(p.0, p.1);
            assert forall|j: int| 0 <= j < line.len() implies line[j] != '\n' by {
                if j < p.0.len() {
                    assert(line[j] == p.0[j]);
                } else if j == p.0.len() {
                    assert(line[j] == '=');
                } else {
                    assert(line[j] == p.1[j - p.0.len() - 1]);
                }
            }
        }
    }
}

/// Rendering a model and parsing the text back recovers exactly the pairs of
/// every section, in order.
///
/// This holds for every model whose keys hold no `=` or newline and do not
/// open with `[`, and whose values hold no newline.
pub proof fn lemma_render_parse_round_trip(
    u: Seq<(Seq<char>, Seq<char>)>,
    s: Seq<(Seq<char>, Seq<char>)>,
    i: Seq<(Seq<char>, Seq<char>)>,
)
    requires
        valid_pairs(u),
        valid_pairs(s),
        valid_pairs(i),
    ensures
        spec_parse_unit_text(spec_render_unit(u, s, i)) == (u, s, i),
{
    reveal_strlit("Unit");
    reveal_strlit("Service");
    reveal_strlit("Install");
    let la = spec_section_lines("Unit"@, u);
    let lb = spec_section_lines("Service"@, s);
    let lc = spec_section_lines("Install"@, i);
    let all = spec_unit_lines(u, s, i);
    assert(no_newline("Unit"@)) by {
        assert(forall|j: int| 0 <= j < "Unit"@.len() ==> "Unit"@[j] != '\n');
    }
    assert(no_newline("Service"@)) by {
        assert(forall|j: int| 0 <= j < "Service"@.len() ==> "Service"@[j] != '\n');
    }
    assert(no_newline("Install"@)) by {
        assert(forall|j: int| 0 <= j < "Install"@.len() ==> "Install"@[j] != '\n');
    }
    lemma_section_lines_no_newline("Unit"@, u);
    lemma_section_lines_no_newline("Service"@, s);
    lemma_section_lines_no_newline("Install"@, i);
    assert forall|t: int| 0 <= t < all.len() implies no_newline(#[trigger] all[t]) by {
        if t < la.len() {
            assert(all[t] == la[t]);
        } else if t < la.len() + lb.len() {
            assert(all[t] == lb[t - la.len()]);
        } else {
            assert(all[t] == lc[t - la.len() - lb.len()]);
        }
    }
    lemma_split_unlines(all);
    let st0 = spec_initial_state();
    lemma_parse_lines_append(la + lb, lc, st0);
    lemma_parse_lines_append(la, lb, st0);
    lemma_parse_section_lines("Unit"@, u, st0);
    let st1 = spec_parse_lines(la, st0);
    lemma_parse_section_lines("Service"@, s, st1);
    let st2 = spec_parse_lines(lb, st1);
    lemma_parse_section_lines("Install"@, i, st2);
    assert(spec_section_of("Unit"@) == Section::Unit);
    assert(spec_section_of("Service"@) == Section::Service) by {
        assert("Service"@.len() != "Unit"@.len());
    }
    assert(spec_section_of("Install"@) == Section::Install) by {
        assert("Install"@.len() != "Unit"@.len());
        assert("Install"@[0] != "Service"@[0]);
    }
    assert(Seq::<(Seq<char>, Seq<char>)>::empty() + u =~= u);
    assert(Seq::<(Seq<char>, Seq<char>)>::empty() + s =~= s);
    assert(Seq::<(Seq<char>, Seq<char>)>::empty() + i =~= i);
}

/// One section appended to `out`: the header line, then one line per pair.
fn append_section(out: &mut String, name: &str, ps: &Vec<(String, String)>)
    ensures
        final(out)@ == old(out)@ + spec_unlines(spec_section_lines(name@, ps.deep_view())),
{
    let ghost lines = spec_section_lines(name@, ps.deep_view());
    let ghost start = out@;
    out.append("[");
    out.append(name);
    out.append("]");
    out.append("\n");
    proof {
        reveal_strlit("[");
        reveal_strlit("]");
        reveal_strlit("\n");
        assert("["@ =~= seq!['[']);
        assert("]"@ =~= seq![']']);
        assert("\n"@ =~= seq!['\n']);
        assert(lines.take(1) =~= seq![spec_header_line(name@)]);
        assert(seq![spec_header_line(name@)].drop_first() =~= Seq::<Seq<char>>::empty());
        assert(spec_unlines(Seq::<Seq<char>>::empty()) =~= Seq::<char>::empty());
        assert(spec_unlines(lines.take(1)) =~= spec_header_line(name@) + seq!['\n']);
        assert(out@ =~= start + spec_unlines(lines.take(1)));
    }
    let mut idx: usize = 0;
    while idx < ps.len()
        invariant
            idx <= ps.len(),
            lines == spec_section_lines(name@, ps.deep_view()),
            ps.deep_view().len() == ps@.len(),
            lines.len() == 1 + ps@.len(),
            out@ == start + spec_unlines(lines.take(1 + idx as int)),
        decreases ps.len() - idx,
    {
        let ghost before = out@;
        out.append(ps[idx].0.as_str());
        out.append("=");
        out.append(ps[idx].1.as_str());
        out.append("\n");
        proof {
            reveal_strlit("=");
            reveal_strlit("\n");
            assert("="@ =~= seq!['=']);
            assert("\n"@ =~= seq!['\n']);
            let dv = ps.deep_view();
            assert(dv[idx as int] == (ps@[idx as int].0@, ps@[idx as int].1@));
            assert(lines[1 + idx as int] == spec_pair_lines(dv)[idx as int]);
            assert(lines[1 + idx as int] == spec_pair_line(dv[idx as int].0, dv[idx as int].1));
            lemma_unlines_snoc(lines.take(1 + idx as int), lines[1 + idx as int]);
            assert(lines.take(1 + idx as int).push(lines[1 + idx as int]) =~= lines.take(
                2 + idx as int,
            ));
            assert(out@ =~= start + spec_unlines(lines.take(2 + idx as int)));
        }
        idx += 1;
    }
    proof {
        assert(lines.take(lines.len() as int) =~= lines);
    }
}

/// The rendered unit-file text of a model: the `Unit`, `Service` and
/// `Install` sections in fixed order, each as a header line followed by one
/// `Key=Value` line per pair, every line ending in a newline.
pub fn render_unit_file(u: &Unit) -> (r: String)
    ensures
        r@ == spec_render_unit(u.unit.deep_view(), u.service.deep_view(), u.install.deep_view()),
{
    let mut out = String::new();
    append_section(&mut out, "Unit", &u.unit);
    append_section(&mut out, "Service", &u.service);
    append_section(&mut out, "Install", &u.install);
    proof {
        let la = spec_section_lines("Unit"@, u.unit.deep_view());
        let lb = spec_section_lines("Service"@, u.service.deep_view());
        let lc = spec_section_lines("Install"@, u.install.deep_view());
        lemma_unlines_append(la + lb, lc);
        lemma_unlines_append(la, lb);
        assert(out@ =~= spec_unlines(la + lb + lc));
    }
    out
}

/// The section a header name selects.
fn section_of_str(name: &str) -> (r: Section)
    ensures
        r == spec_section_of(name@),
{
    if str_eq(name, "Unit") {
        Section::Unit
    } else if str_eq(name, "Service") {
        Section::Service
    } else if str_eq(name, "Install") {
        Section::Install
    } else {
        Section::Other
    }
}

/// The model recovered from unit-file text: a `[Name]` line selects a
/// section, a line holding `=` adds one pair to the selected section at the
/// first `=`, every other line is skipped, and pairs before a recognized
/// header are dropped.
pub fn parse_unit_file(s: &str) -> (u: Unit)
    ensures
        (u.unit.deep_view(), u.service.deep_view(), u.install.deep_view())
            == spec_parse_unit_text(s@),
{
    let lines = split_lines(s);
    let ghost lv = lines.deep_view();
    let mut cur = Section::Other;
    let mut unit_ps: Vec<(String, String)> = Vec::new();
    let mut service_ps: Vec<(String, String)> = Vec::new();
    let mut install_ps: Vec<(String, String)> = Vec::new();
    let mut j: usize = 0;
    while j < lines.len()
        invariant
            j <= lines@.len(),
            lv == lines.deep_view(),
            lv.len() == lines@.len(),
            lv == spec_split_lines(s@),
            (cur, unit_ps.deep_view(), service_ps.deep_view(), install_ps.deep_view())
                == spec_parse_lines(lv.take(j as int), spec_initial_state()),
        decreases lines@.len() - j,
    {
        let ghost prev = (cur, unit_ps.deep_view(), service_ps.deep_view(), install_ps.deep_view());
        proof {
            lemma_parse_lines_snoc(lv.take(j as int), lv[j as int], spec_initial_state());
            assert(lv.take(j as int).push(lv[j as int]) =~= lv.take(j as int + 1));
        }
        let line = lines[j].as_str();
        assert(line@ == lv[j as int]);
        let m = line.unicode_len();
        if m >= 2 && line.get_char(0) == '[' && line.get_char(m - 1) == ']' {
            let name = line.substring_char(1, m - 1);
            cur = section_of_str(name);
            assert(spec_classify(lv[j as int]) == LineKind::Header(name@));
        } else {
            match find_char(line, '=') {
                Some(p) => {
                    proof {
                        lemma_find_char_spec(line@, '=');
                    }
                    let k = line.substring_char(0, p).to_owned();
                    let v = line.substring_char(p + 1, m).to_owned();
                    assert(spec_classify(lv[j as int]) == LineKind::Pair(k@, v@));
                    match cur {
                        Section::Unit => {
                            unit_ps.push((k, v));
                            assert(unit_ps.deep_view() =~= prev.1.push(
                                (lv[j as int].subrange(0, p as int), lv[j as int].subrange(
                                    p as int + 1,
                                    lv[j as int].len() as int,
                                )),
                            ));
                        },
                        Section::Service => {
                            service_ps.push((k, v));
                            assert(service_ps.deep_view() =~= prev.2.push(
                                (lv[j as int].subrange(0, p as int), lv[j as int].subrange(
                                    p as int + 1,
                                    lv[j as int].len() as int,
                                )),
                            ));
                        },
                        Section::Install => {
                            install_ps.push((k, v));
                            assert(install_ps.deep_view() =~= prev.3.push(
                                (lv[j as int].subrange(0, p as int), lv[j as int].subrange(
                                    p as int + 1,
                                    lv[j as int].len() as int,
                                )),
                            ));
                        },
                        Section::Other => {},
                    }
                },
                None => {
                    assert(spec_classify(lv[j as int]) == LineKind::Skip);
                },
            }
        }
        assert((cur, unit_ps.deep_view(), service_ps.deep_view(), install_ps.deep_view())
            == spec_step(prev, lv[j as int]));
        j += 1;
    }
    proof {
        assert(lv.take(lines@.len() as int) =~= lv);
    }
    Unit { unit: unit_ps, service: service_ps, install: install_ps }
}

} // verus!
