//! The definition synthesizer: caller-supplied `KEY=VALUE` overrides merged
//! with built-in defaults into a complete service definition.
//!
//! Each override list is split into pairs at the first `=`; an entry with no
//! `=` is a caller error and aborts synthesis. Within a section, a repeated
//! override key keeps its first occurrence and later occurrences are dropped
//! silently; that choice is fixed here and tested. A built-in default is
//! applied only when its key is absent after the overrides, so a user value
//! is never replaced. Environment entries are appended afterwards, copied
//! process environment first, explicit entries last.

use vstd::prelude::*;
use vstd::string::*;
use crate::text::{find_char_spec, lemma_find_char_spec, find_char, str_eq};
use crate::unit_file::Unit;

verus! {

/// A caller error found while synthesizing: an override entry with no `=`.
#[derive(Debug)]
pub enum SynthesisError {
    MalformedOverride(String),
}

/// Whether an override entry holds an `=` and so splits into a pair.
pub open spec fn spec_is_kv(s: Seq<char>) -> bool {
    find_char_spec(s, '=') is Some
}

/// The pair an override entry splits into at its first `=`. Meaningful only
/// for entries that hold an `=`.
pub open spec fn spec_kv_of(s: Seq<char>) -> (Seq<char>, Seq<char>) {
    match find_char_spec(s, '=') {
        Some(i) => (s.subrange(0, i), s.subrange(i + 1, s.len() as int)),
        None => (s, Seq::empty()),
    }
}

/// Every entry of `items` holds an `=`.
pub open spec fn all_kv(items: Seq<Seq<char>>) -> bool {
    forall|i: int| 0 <= i < items.len() ==> spec_is_kv(#[trigger] items[i])
}

/// The pairs of a list of well-formed override entries, in order.
pub open spec fn spec_parse_pairs(items: Seq<Seq<char>>) -> Seq<(Seq<char>, Seq<char>)> {
    items.map_values(|s: Seq<char>| spec_kv_of(s))
}

/// Some pair of `ps` has key `k`.
pub open spec fn has_key(ps: Seq<(Seq<char>, Seq<char>)>, k: Seq<char>) -> bool {
    exists|i: int| 0 <= i < ps.len() && (#[trigger] ps[i]).0 == k
}

/// `ps` with every repeated key dropped, keeping the first occurrence of each
/// key in its original position.
pub open spec fn spec_dedup_first(ps: Seq<(Seq<char>, Seq<char>)>) -> Seq<(Seq<char>, Seq<char>)>
    decreases ps.len(),
{
    if ps.len() == 0 {
        Seq::empty()
    } else {
        let front = spec_dedup_first(ps.drop_last());
        if has_key(front, ps.last().0) {
            front
        } else {
            front.push(ps.last())
        }
    }
}

/// `ps` with `(k, v)` appended when `k` is absent; unchanged when present.
pub open spec fn spec_with_default(
    ps: Seq<(Seq<char>, Seq<char>)>,
    k: Seq<char>,
    v: Seq<char>,
) -> Seq<(Seq<char>, Seq<char>)> {
    if has_key(ps, k) {
        ps
    } else {
        ps.push((k, v))
    }
}

/// One rendered environment entry: key `Environment`, value `KEY='VALUE'`.
pub open spec fn spec_env_pair(k: Seq<char>, v: Seq<char>) -> (Seq<char>, Seq<char>) {
    ("Environment"@, k + "='"@ + v + "'"@)
}

/// The environment entries of a list of pairs, in order.
pub open spec fn spec_env_entries(pairs: Seq<(Seq<char>, Seq<char>)>) -> Seq<
    (Seq<char>, Seq<char>),
> {
    pairs.map_values(|p: (Seq<char>, Seq<char>)| spec_env_pair(p.0, p.1))
}

/// The environment pairs copied from the process, or none.
pub open spec fn spec_copied_env(copy_env: bool, inherited: Seq<(Seq<char>, Seq<char>)>) -> Seq<
    (Seq<char>, Seq<char>),
> {
    if copy_env {
        inherited
    } else {
        Seq::empty()
    }
}

/// The synthesized `Unit` section: deduplicated overrides, then the
/// `Description` and `StartLimitIntervalSec` defaults where absent.
pub open spec fn spec_unit_section(
    unit_ov: Seq<(Seq<char>, Seq<char>)>,
    description: Seq<char>,
) -> Seq<(Seq<char>, Seq<char>)> {
    spec_with_default(
        spec_with_default(spec_dedup_first(unit_ov), "Description"@, description),
        "StartLimitIntervalSec"@,
        "0"@,
    )
}

/// The synthesized `Service` section: deduplicated overrides, the
/// `ExecStart`, `Restart`, `RestartSec` and `WorkingDirectory` defaults where
/// absent, then one `Environment` entry per environment pair.
pub open spec fn spec_service_section(
    service_ov: Seq<(Seq<char>, Seq<char>)>,
    command: Seq<char>,
    cwd: Seq<char>,
    env: Seq<(Seq<char>, Seq<char>)>,
) -> Seq<(Seq<char>, Seq<char>)> {
    let base = spec_dedup_first(service_ov);
    let d1 = spec_with_default(base, "ExecStart"@, "/usr/bin/env "@ + command);
    let d2 = spec_with_default(d1, "Restart"@, "always"@);
    let d3 = spec_with_default(d2, "RestartSec"@, "1"@);
    let d4 = spec_with_default(d3, "WorkingDirectory"@, cwd);
    d4 + spec_env_entries(env)
}

/// The synthesized `Install` section: deduplicated overrides, then the
/// `WantedBy` default where absent.
pub open spec fn spec_install_section(
    install_ov: Seq<(Seq<char>, Seq<char>)>,
    target: Seq<char>,
) -> Seq<(Seq<char>, Seq<char>)> {
    spec_with_default(spec_dedup_first(install_ov), "WantedBy"@, target)
}

/// How many pairs of `ps` carry key `k`.
pub open spec fn key_count(ps: Seq<(Seq<char>, Seq<char>)>, k: Seq<char>) -> nat
    decreases ps.len(),
{
    if ps.len() == 0 {
        0
    } else {
        key_count(ps.drop_last(), k) + if ps.last().0 == k {
            1nat
        } else {
            0nat
        }
    }
}

/// The value of the first pair of `ps` with key `k`. Meaningful only when
/// `ps` has that key.
pub open spec fn spec_lookup(ps: Seq<(Seq<char>, Seq<char>)>, k: Seq<char>) -> Seq<char>
    decreases ps.len(),
{
    if ps.len() == 0 {
        Seq::empty()
    } else if ps[0].0 == k {
        ps[0].1
    } else {
        spec_lookup(ps.drop_first(), k)
    }
}

proof fn lemma_has_key_push(l: Seq<(Seq<char>, Seq<char>)>, p: (Seq<char>, Seq<char>), k: Seq<char>)
    ensures
        has_key(l.push(p), k) <==> (has_key(l, k) || p.0 == k),
{
    if has_key(l, k) {
        let i = choose|i: int| 0 <= i < l.len() && (#[trigger] l[i]).0 == k;
        assert(l.push(p)[i].0 == k);
    }
    if p.0 == k {
        assert(l.push(p)[l.len() as int].0 == k);
    }
    if has_key(l.push(p), k) && p.0 != k {
        let i = choose|i: int| 0 <= i < l.push(p).len() && (#[trigger] l.push(p)[i]).0 == k;
        assert(l[i].0 == k);
    }
}

proof fn lemma_has_key_front(l: Seq<(Seq<char>, Seq<char>)>, k: Seq<char>)
    requires
        l.len() > 0,
    ensures
        has_key(l, k) <==> (l[0].0 == k || has_key(l.drop_first(), k)),
{
    if has_key(l, k) {
        let i = choose|i: int| 0 <= i < l.len() && (#[trigger] l[i]).0 == k;
        if i > 0 {
            assert(l.drop_first()[i - 1].0 == k);
        }
    }
    if has_key(l.drop_first(), k) {
        let i = choose|i: int|
            0 <= i < l.drop_first().len() && (#[trigger] l.drop_first()[i]).0 == k;
        assert(l[i + 1].0 == k);
    }
}

proof fn lemma_key_count_push(
    l: Seq<(Seq<char>, Seq<char>)>,
    p: (Seq<char>, Seq<char>),
    k: Seq<char>,
)
    ensures
        key_count(l.push(p), k) == key_count(l, k) + if p.0 == k {
            1nat
        } else {
            0nat
        },
{
    assert(l.push(p).drop_last() =~= l);
    assert(l.push(p).last() == p);
}

proof fn lemma_key_count_append(
    a: Seq<(Seq<char>, Seq<char>)>,
    b: Seq<(Seq<char>, Seq<char>)>,
    k: Seq<char>,
)
    ensures
        key_count(a + b, k) == key_count(a, k) + key_count(b, k),
    decreases b.len(),
{
    if b.len() == 0 {
        assert(a + b =~= a);
    } else {
        lemma_key_count_append(a, b.drop_last(), k);
        assert((a + b).drop_last() =~= a + b.drop_last());
        assert((a + b).last() == b.last());
    }
}

proof fn lemma_key_count_pos(ps: Seq<(Seq<char>, Seq<char>)>, k: Seq<char>)
    ensures
        (key_count(ps, k) > 0) <==> has_key(ps, k),
    decreases ps.len(),
{
    if ps.len() == 0 {
    } else {
        lemma_key_count_pos(ps.drop_last(), k);
        assert(ps =~= ps.drop_last().push(ps.last()));
        lemma_has_key_push(ps.drop_last(), ps.last(), k);
    }
}

/// Deduplication leaves exactly one pair per key that occurs, none per key
/// that does not.
proof fn lemma_dedup_first_count(ps: Seq<(Seq<char>, Seq<char>)>, k: Seq<char>)
    ensures
        key_count(spec_dedup_first(ps), k) == if has_key(ps, k) {
            1nat
        } else {
            0nat
        },
    decreases ps.len(),
{
    if ps.len() == 0 {
        assert(!has_key(ps, k));
    } else {
        let dl = ps.drop_last();
        let last = ps.last();
        let front = spec_dedup_first(dl);
        lemma_dedup_first_count(dl, k);
        assert(ps =~= dl.push(last));
        lemma_has_key_push(dl, last, k);
        lemma_key_count_pos(front, k);
        if has_key(front, last.0) {
            lemma_dedup_first_count(dl, last.0);
            lemma_key_count_pos(front, last.0);
            assert(has_key(dl, last.0));
        } else {
            lemma_key_count_push(front, last, k);
            if last.0 == k {
                assert(!has_key(front, k));
                assert(key_count(front, k) == 0);
            }
        }
    }
}

/// Whether `k` occurs in `ps` is preserved by deduplication.
proof fn lemma_dedup_first_has_key(ps: Seq<(Seq<char>, Seq<char>)>, k: Seq<char>)
    ensures
        has_key(spec_dedup_first(ps), k) <==> has_key(ps, k),
{
    lemma_dedup_first_count(ps, k);
    lemma_key_count_pos(spec_dedup_first(ps), k);
}

proof fn lemma_env_entries_count(env: Seq<(Seq<char>, Seq<char>)>, k: Seq<char>)
    requires
        k != "Environment"@,
    ensures
        key_count(spec_env_entries(env), k) == 0,
    decreases env.len(),
{
    if env.len() == 0 {
        assert(spec_env_entries(env).len() == 0);
    } else {
        lemma_env_entries_count(env.drop_last(), k);
        assert(spec_env_entries(env).drop_last() =~= spec_env_entries(env.drop_last()));
        assert(spec_env_entries(env).last() == spec_env_pair(env.last().0, env.last().1));
    }
}

/// Whether `section` lacks `key`.
pub fn has_not_key(section: &Vec<(String, String)>, key: &str) -> (r: bool)
    ensures
        r == !has_key(section.deep_view(), key@),
{
    let mut i: usize = 0;
    while i < section.len()
        invariant
            i <= section@.len(),
            section.deep_view().len() == section@.len(),
            forall|j: int| 0 <= j < i ==> (#[trigger] section.deep_view()[j]).0 != key@,
        decreases section@.len() - i,
    {
        if str_eq(section[i].0.as_str(), key) {
            assert(section.deep_view()[i as int].0 == key@);
            return false;
        }
        i += 1;
    }
    assert(!has_key(section.deep_view(), key@));
    true
}

/// Each entry of `items` split into a pair at its first `=`, in order; the
/// first entry with no `=` aborts with a `MalformedOverride` error.
fn parse_override_list(items: &Vec<String>) -> (r: Result<
    Vec<(String, String)>,
    SynthesisError,
>)
    ensures
        match r {
            Ok(ps) => all_kv(items.deep_view()) && ps.deep_view() == spec_parse_pairs(
                items.deep_view(),
            ),
            Err(e) => match e {
                SynthesisError::MalformedOverride(s) => {
                    &&& !all_kv(items.deep_view())
                    &&& items.deep_view().contains(s@)
                    &&& !spec_is_kv(s@)
                },
            },
        },
{
    let ghost dv = items.deep_view();
    let mut out: Vec<(String, String)> = Vec::new();
    let mut i: usize = 0;
    while i < items.len()
        invariant
            i <= items@.len(),
            dv == items.deep_view(),
            dv.len() == items@.len(),
            forall|j: int| 0 <= j < i ==> spec_is_kv(#[trigger] dv[j]),
            out.deep_view() == spec_parse_pairs(dv.take(i as int)),
        decreases items@.len() - i,
    {
        let item = items[i].as_str();
        assert(item@ == dv[i as int]);
        match find_char(item, '=') {
            Some(p) => {
                proof {
                    lemma_find_char_spec(item@, '=');
                }
                let m = item.unicode_len();
                let k = item.substring_char(0, p).to_owned();
                let v = item.substring_char(p + 1, m).to_owned();
                out.push((k, v));
                proof {
                    assert(out.deep_view() =~= spec_parse_pairs(dv.take(i as int)).push(
                        spec_kv_of(dv[i as int]),
                    ));
                    assert(spec_parse_pairs(dv.take(i as int + 1)) =~= spec_parse_pairs(
                        dv.take(i as int),
                    ).push(spec_kv_of(dv[i as int])));
                }
            },
            None => {
                let bad = items[i].clone();
                assert(bad@ == dv[i as int]);
                assert(!spec_is_kv(bad@));
                assert(dv.contains(bad@)) by {
                    assert(dv[i as int] == bad@);
                }
                return Err(SynthesisError::MalformedOverride(bad));
            },
        }
        i += 1;
    }
    proof {
        assert(dv.take(items@.len() as int) =~= dv);
    }
    Ok(out)
}

/// The deduplicated overrides of one section: the first occurrence of each
/// key kept in order, later occurrences dropped.
fn dedup_first(ps: &Vec<(String, String)>) -> (r: Vec<(String, String)>)
    ensures
        r.deep_view() == spec_dedup_first(ps.deep_view()),
{
    let ghost dv = ps.deep_view();
    let mut out: Vec<(String, String)> = Vec::new();
    let mut i: usize = 0;
    while i < ps.len()
        invariant
            i <= ps@.len(),
            dv == ps.deep_view(),
            dv.len() == ps@.len(),
            out.deep_view() == spec_dedup_first(dv.take(i as int)),
        decreases ps@.len() - i,
    {
        proof {
            assert(dv.take(i as int + 1).drop_last() =~= dv.take(i as int));
            assert(dv.take(i as int + 1).last() == dv[i as int]);
        }
        if has_not_key(&out, ps[i].0.as_str()) {
            let k = ps[i].0.clone();
            let v = ps[i].1.clone();
            out.push((k, v));
            proof {
                assert(out.deep_view() =~= spec_dedup_first(dv.take(i as int)).push(
                    dv[i as int],
                ));
            }
        }
        i += 1;
    }
    proof {
        assert(dv.take(ps@.len() as int) =~= dv);
    }
    out
}

/// `(key, value)` appended to `section` when `key` is absent; no change when
/// the caller already supplied it.
fn apply_default(section: &mut Vec<(String, String)>, key: &str, value: &str)
    ensures
        final(section).deep_view() == spec_with_default(old(section).deep_view(), key@, value@),
{
    if has_not_key(section, key) {
        section.push((key.to_owned(), value.to_owned()));
        proof {
            assert(section.deep_view() =~= old(section).deep_view().push((key@, value@)));
        }
    }
}

/// One `Environment` entry per pair appended to `section`, each value
/// rendered as `KEY='VALUE'`.
fn push_env_entries(section: &mut Vec<(String, String)>, env: &Vec<(String, String)>)
    ensures
        final(section).deep_view() == old(section).deep_view() + spec_env_entries(
            env.deep_view(),
        ),
{
    let ghost dv = env.deep_view();
    let ghost start = old(section).deep_view();
    let mut i: usize = 0;
    while i < env.len()
        invariant
            i <= env@.len(),
            dv == env.deep_view(),
            dv.len() == env@.len(),
            section.deep_view() == start + spec_env_entries(dv.take(i as int)),
        decreases env@.len() - i,
    {
        let mut val = env[i].0.clone();
        val.append("='");
        val.append(env[i].1.as_str());
        val.append("'");
        proof {
            assert(dv[i as int] == (env@[i as int].0@, env@[i as int].1@));
            assert(val@ == dv[i as int].0 + "='"@ + dv[i as int].1 + "'"@);
        }
        let ghost before = section.deep_view();
        section.push((String::from_str("Environment"), val));
        proof {
            let pair = spec_env_pair(dv[i as int].0, dv[i as int].1);
            assert(section.deep_view() =~= before.push(pair));
            assert(spec_env_entries(dv.take(i as int + 1)) =~= spec_env_entries(
                dv.take(i as int),
            ).push(pair));
            assert(before.push(pair) =~= start + spec_env_entries(dv.take(i as int + 1)));
        }
        i += 1;
    }
    proof {
        assert(dv.take(env@.len() as int) =~= dv);
    }
}

/// The complete service definition for one `run` invocation: each override
/// list split into pairs (first `=`), repeated keys keeping their first
/// occurrence, the built-in defaults filled in only where their key is
/// absent, and environment entries appended last, copied process environment
/// before explicit pairs.
///
/// `cwd` is the caller's current working directory, already resolved;
/// `default_target` is the activation target of the surrounding context. The
/// first override entry with no `=` aborts synthesis with a
/// `MalformedOverride` error and nothing else is reported in that case.
pub fn synthesize(
    command: &str,
    description: &str,
    copy_env: bool,
    inherited_env: &Vec<(String, String)>,
    env_overrides: &Vec<String>,
    unit_overrides: &Vec<String>,
    service_overrides: &Vec<String>,
    install_overrides: &Vec<String>,
    cwd: &str,
    default_target: &str,
) -> (r: Result<Unit, SynthesisError>)
    ensures
        match r {
            Ok(u) => {
                &&& all_kv(unit_overrides.deep_view())
                &&& all_kv(service_overrides.deep_view())
                &&& all_kv(install_overrides.deep_view())
                &&& all_kv(env_overrides.deep_view())
                &&& u.unit.deep_view() == spec_unit_section(
                    spec_parse_pairs(unit_overrides.deep_view()),
                    description@,
                )
                &&& u.service.deep_view() == spec_service_section(
                    spec_parse_pairs(service_overrides.deep_view()),
                    command@,
                    cwd@,
                    spec_copied_env(copy_env, inherited_env.deep_view()) + spec_parse_pairs(
                        env_overrides.deep_view(),
                    ),
                )
                &&& u.install.deep_view() == spec_install_section(
                    spec_parse_pairs(install_overrides.deep_view()),
                    default_target@,
                )
            },
            Err(e) => match e {
                SynthesisError::MalformedOverride(s) => {
                    &&& !(all_kv(unit_overrides.deep_view()) && all_kv(
                        service_overrides.deep_view(),
                    ) && all_kv(install_overrides.deep_view()) && all_kv(
                        env_overrides.deep_view(),
                    ))
                    &&& !spec_is_kv(s@)
                    &&& (unit_overrides.deep_view().contains(s@) || service_overrides.deep_view()
                        .contains(s@) || install_overrides.deep_view().contains(s@)
                        || env_overrides.deep_view().contains(s@))
                },
            },
        },
{
    let unit_pairs = match parse_override_list(unit_overrides) {
        Ok(p) => p,
        Err(e) => {
            return Err(e);
        },
    };
    let service_pairs = match parse_override_list(service_overrides) {
        Ok(p) => p,
        Err(e) => {
            return Err(e);
        },
    };
    let install_pairs = match parse_override_list(install_overrides) {
        Ok(p) => p,
        Err(e) => {
            return Err(e);
        },
    };
    let env_pairs = match parse_override_list(env_overrides) {
        Ok(p) => p,
        Err(e) => {
            return Err(e);
        },
    };

    let mut unit_sec = dedup_first(&unit_pairs);
    apply_default(&mut unit_sec, "Description", description);
    apply_default(&mut unit_sec, "StartLimitIntervalSec", "0");

    let mut service_sec = dedup_first(&service_pairs);
    let mut exec_start = String::from_str("/usr/bin/env ");
    exec_start.append(command);
    apply_default(&mut service_sec, "ExecStart", exec_start.as_str());
    apply_default(&mut service_sec, "Restart", "always");
    apply_default(&mut service_sec, "RestartSec", "1");
    apply_default(&mut service_sec, "WorkingDirectory", cwd);
    if copy_env {
        push_env_entries(&mut service_sec, inherited_env);
    }
    push_env_entries(&mut service_sec, &env_pairs);
    proof {
        let copied = spec_copied_env(copy_env, inherited_env.deep_view());
        let explicit = spec_parse_pairs(env_overrides.deep_view());
        assert(spec_env_entries(copied + explicit) =~= spec_env_entries(copied)
            + spec_env_entries(explicit));
        if !copy_env {
            assert(spec_env_entries(copied) =~= Seq::<(Seq<char>, Seq<char>)>::empty());
        }
        assert(service_sec.deep_view() =~= spec_service_section(
            spec_parse_pairs(service_overrides.deep_view()),
            command@,
            cwd@,
            copied + explicit,
        ));
    }

    let mut install_sec = dedup_first(&install_pairs);
    apply_default(&mut install_sec, "WantedBy", default_target);

    Ok(Unit { unit: unit_sec, service: service_sec, install: install_sec })
}

/// Every required default key is present exactly once in the synthesized
/// model, whichever of its sections it belongs to and whether the caller
/// supplied it or the default filled it in.
pub proof fn lemma_required_keys_present_once(
    unit_ov: Seq<(Seq<char>, Seq<char>)>,
    service_ov: Seq<(Seq<char>, Seq<char>)>,
    install_ov: Seq<(Seq<char>, Seq<char>)>,
    description: Seq<char>,
    command: Seq<char>,
    cwd: Seq<char>,
    env: Seq<(Seq<char>, Seq<char>)>,
    target: Seq<char>,
)
    ensures
        key_count(spec_unit_section(unit_ov, description), "Description"@) == 1,
        key_count(spec_unit_section(unit_ov, description), "StartLimitIntervalSec"@) == 1,
        key_count(spec_service_section(service_ov, command, cwd, env), "ExecStart"@) == 1,
        key_count(spec_service_section(service_ov, command, cwd, env), "Restart"@) == 1,
        key_count(spec_service_section(service_ov, command, cwd, env), "RestartSec"@) == 1,
        key_count(spec_service_section(service_ov, command, cwd, env), "WorkingDirectory"@) == 1,
        key_count(spec_install_section(install_ov, target), "WantedBy"@) == 1,
{
    reveal_strlit("Description");
    reveal_strlit("StartLimitIntervalSec");
    reveal_strlit("ExecStart");
    reveal_strlit("Restart");
    reveal_strlit("RestartSec");
    reveal_strlit("WorkingDirectory");
    reveal_strlit("Environment");
    reveal_strlit("WantedBy");
    assert("Description"@.len() == 11);
    assert("StartLimitIntervalSec"@.len() == 21);
    assert("ExecStart"@.len() == 9);
    assert("Restart"@.len() == 7);
    assert("RestartSec"@.len() == 10);
    assert("WorkingDirectory"@.len() == 16);
    assert("Environment"@.len() == 11);
    assert("WantedBy"@.len() == 8);
    assert("Environment"@[0] == 'E' && "Description"@[0] == 'D');

    // The Unit section.
    let d0 = spec_dedup_first(unit_ov);
    lemma_dedup_first_count(d0, "Description"@);
    lemma_dedup_first_count(unit_ov, "Description"@);
    lemma_dedup_first_count(unit_ov, "StartLimitIntervalSec"@);
    lemma_key_count_pos(d0, "Description"@);
    lemma_key_count_pos(d0, "StartLimitIntervalSec"@);
    let d1 = spec_with_default(d0, "Description"@, description);
    if !has_key(d0, "Description"@) {
        lemma_key_count_push(d0, ("Description"@, description), "Description"@);
        lemma_key_count_push(d0, ("Description"@, description), "StartLimitIntervalSec"@);
        lemma_has_key_push(d0, ("Description"@, description), "StartLimitIntervalSec"@);
    }
    lemma_key_count_pos(d1, "StartLimitIntervalSec"@);
    if !has_key(d1, "StartLimitIntervalSec"@) {
        lemma_key_count_push(d1, ("StartLimitIntervalSec"@, "0"@), "Description"@);
        lemma_key_count_push(d1, ("StartLimitIntervalSec"@, "0"@), "StartLimitIntervalSec"@);
    }

    // The Service section.
    let b0 = spec_dedup_first(service_ov);
    lemma_dedup_first_count(service_ov, "ExecStart"@);
    lemma_dedup_first_count(service_ov, "Restart"@);
    lemma_dedup_first_count(service_ov, "RestartSec"@);
    lemma_dedup_first_count(service_ov, "WorkingDirectory"@);
    lemma_key_count_pos(b0, "ExecStart"@);
    let b1 = spec_with_default(b0, "ExecStart"@, "/usr/bin/env "@ + command);
    if !has_key(b0, "ExecStart"@) {
        lemma_key_count_push(b0, ("ExecStart"@, "/usr/bin/env "@ + command), "ExecStart"@);
        lemma_key_count_push(b0, ("ExecStart"@, "/usr/bin/env "@ + command), "Restart"@);
        lemma_key_count_push(b0, ("ExecStart"@, "/usr/bin/env "@ + command), "RestartSec"@);
        lemma_key_count_push(
            b0,
            ("ExecStart"@, "/usr/bin/env "@ + command),
            "WorkingDirectory"@,
        );
    }
    lemma_key_count_pos(b1, "Restart"@);
    let b2 = spec_with_default(b1, "Restart"@, "always"@);
    if !has_key(b1, "Restart"@) {
        lemma_key_count_push(b1, ("Restart"@, "always"@), "ExecStart"@);
        lemma_key_count_push(b1, ("Restart"@, "always"@), "Restart"@);
        lemma_key_count_push(b1, ("Restart"@, "always"@), "RestartSec"@);
        lemma_key_count_push(b1, ("Restart"@, "always"@), "WorkingDirectory"@);
    }
    lemma_key_count_pos(b2, "RestartSec"@);
    let b3 = spec_with_default(b2, "RestartSec"@, "1"@);
    if !has_key(b2, "RestartSec"@) {
        lemma_key_count_push(b2, ("RestartSec"@, "1"@), "ExecStart"@);
        lemma_key_count_push(b2, ("RestartSec"@, "1"@), "Restart"@);
        lemma_key_count_push(b2, ("RestartSec"@, "1"@), "RestartSec"@);
        lemma_key_count_push(b2, ("RestartSec"@, "1"@), "WorkingDirectory"@);
    }
    lemma_key_count_pos(b3, "WorkingDirectory"@);
    let b4 = spec_with_default(b3, "WorkingDirectory"@, cwd);
    if !has_key(b3, "WorkingDirectory"@) {
        lemma_key_count_push(b3, ("WorkingDirectory"@, cwd), "ExecStart"@);
        lemma_key_count_push(b3, ("WorkingDirectory"@, cwd), "Restart"@);
        lemma_key_count_push(b3, ("WorkingDirectory"@, cwd), "RestartSec"@);
        lemma_key_count_push(b3, ("WorkingDirectory"@, cwd), "WorkingDirectory"@);
    }
    lemma_key_count_append(b4, spec_env_entries(env), "ExecStart"@);
    lemma_key_count_append(b4, spec_env_entries(env), "Restart"@);
    lemma_key_count_append(b4, spec_env_entries(env), "RestartSec"@);
    lemma_key_count_append(b4, spec_env_entries(env), "WorkingDirectory"@);
    lemma_env_entries_count(env, "ExecStart"@);
    lemma_env_entries_count(env, "Restart"@);
    lemma_env_entries_count(env, "RestartSec"@);
    lemma_env_entries_count(env, "WorkingDirectory"@);

    // The Install section.
    let c0 = spec_dedup_first(install_ov);
    lemma_dedup_first_count(install_ov, "WantedBy"@);
    lemma_key_count_pos(c0, "WantedBy"@);
    if !has_key(c0, "WantedBy"@) {
        lemma_key_count_push(c0, ("WantedBy"@, target), "WantedBy"@);
    }
}

proof fn lemma_contains_push(
    l: Seq<(Seq<char>, Seq<char>)>,
    p: (Seq<char>, Seq<char>),
    x: (Seq<char>, Seq<char>),
)
    requires
        l.contains(x),
    ensures
        l.push(p).contains(x),
{
    let i = choose|i: int| 0 <= i < l.len() && l[i] == x;
    assert(l.push(p)[i] == x);
}

proof fn lemma_contains_append_left(
    a: Seq<(Seq<char>, Seq<char>)>,
    b: Seq<(Seq<char>, Seq<char>)>,
    x: (Seq<char>, Seq<char>),
)
    requires
        a.contains(x),
    ensures
        (a + b).contains(x),
{
    let i = choose|i: int| 0 <= i < a.len() && a[i] == x;
    assert((a + b)[i] == x);
}

/// Appending a pair does not move the first occurrence of a key that is
/// already present, and supplies it when the key was absent.
proof fn lemma_lookup_push(
    l: Seq<(Seq<char>, Seq<char>)>,
    p: (Seq<char>, Seq<char>),
    k: Seq<char>,
)
    ensures
        has_key(l, k) ==> spec_lookup(l.push(p), k) == spec_lookup(l, k),
        !has_key(l, k) && p.0 == k ==> spec_lookup(l.push(p), k) == p.1,
    decreases l.len(),
{
    if l.len() == 0 {
        if p.0 == k {
            assert(l.push(p)[0] == p);
        }
    } else {
        lemma_has_key_front(l, k);
        assert(l.push(p)[0] == l[0]);
        assert(l.push(p).drop_first() =~= l.drop_first().push(p));
        lemma_lookup_push(l.drop_first(), p, k);
    }
}

/// Deduplication keeps, for every key that occurs, the pair formed from its
/// first value.
proof fn lemma_dedup_keeps_first(ps: Seq<(Seq<char>, Seq<char>)>, k: Seq<char>)
    requires
        has_key(ps, k),
    ensures
        spec_dedup_first(ps).contains((k, spec_lookup(ps, k))),
    decreases ps.len(),
{
    let dl = ps.drop_last();
    let last = ps.last();
    let front = spec_dedup_first(dl);
    assert(ps =~= dl.push(last));
    lemma_has_key_push(dl, last, k);
    lemma_lookup_push(dl, last, k);
    if has_key(front, last.0) {
        lemma_dedup_first_has_key(dl, last.0);
        if k == last.0 {
            lemma_dedup_keeps_first(dl, k);
        } else {
            lemma_dedup_keeps_first(dl, k);
        }
    } else {
        lemma_dedup_first_has_key(dl, last.0);
        if k == last.0 {
            assert(!has_key(dl, k));
            assert(spec_lookup(ps, k) == last.1);
            assert(front.push(last)[front.len() as int] == last);
            assert((k, spec_lookup(ps, k)) == last);
        } else {
            lemma_dedup_keeps_first(dl, k);
            lemma_contains_push(front, last, (k, spec_lookup(dl, k)));
        }
    }
}

/// A caller-supplied `Unit` override is never replaced by a built-in
/// default: the synthesized section still holds the pair formed from the
/// key's first caller-supplied value.
pub proof fn lemma_override_preserved_unit(
    unit_ov: Seq<(Seq<char>, Seq<char>)>,
    description: Seq<char>,
    k: Seq<char>,
)
    requires
        has_key(unit_ov, k),
    ensures
        spec_unit_section(unit_ov, description).contains((k, spec_lookup(unit_ov, k))),
{
    lemma_dedup_keeps_first(unit_ov, k);
    let d0 = spec_dedup_first(unit_ov);
    let x = (k, spec_lookup(unit_ov, k));
    let d1 = spec_with_default(d0, "Description"@, description);
    if !has_key(d0, "Description"@) {
        lemma_contains_push(d0, ("Description"@, description), x);
    }
    if !has_key(d1, "StartLimitIntervalSec"@) {
        lemma_contains_push(d1, ("StartLimitIntervalSec"@, "0"@), x);
    }
}

/// A caller-supplied `Service` override is never replaced by a built-in
/// default or displaced by the appended environment entries.
pub proof fn lemma_override_preserved_service(
    service_ov: Seq<(Seq<char>, Seq<char>)>,
    command: Seq<char>,
    cwd: Seq<char>,
    env: Seq<(Seq<char>, Seq<char>)>,
    k: Seq<char>,
)
    requires
        has_key(service_ov, k),
    ensures
        spec_service_section(service_ov, command, cwd, env).contains(
            (k, spec_lookup(service_ov, k)),
        ),
{
    lemma_dedup_keeps_first(service_ov, k);
    let x = (k, spec_lookup(service_ov, k));
    let b0 = spec_dedup_first(service_ov);
    let b1 = spec_with_default(b0, "ExecStart"@, "/usr/bin/env "@ + command);
    if !has_key(b0, "ExecStart"@) {
        lemma_contains_push(b0, ("ExecStart"@, "/usr/bin/env "@ + command), x);
    }
    let b2 = spec_with_default(b1, "Restart"@, "always"@);
    if !has_key(b1, "Restart"@) {
        lemma_contains_push(b1, ("Restart"@, "always"@), x);
    }
    let b3 = spec_with_default(b2, "RestartSec"@, "1"@);
    if !has_key(b2, "RestartSec"@) {
        lemma_contains_push(b2, ("RestartSec"@, "1"@), x);
    }
    let b4 = spec_with_default(b3, "WorkingDirectory"@, cwd);
    if !has_key(b3, "WorkingDirectory"@) {
        lemma_contains_push(b3, ("WorkingDirectory"@, cwd), x);
    }
    lemma_contains_append_left(b4, spec_env_entries(env), x);
}

/// A caller-supplied `Install` override is never replaced by the built-in
/// `WantedBy` default.
pub proof fn lemma_override_preserved_install(
    install_ov: Seq<(Seq<char>, Seq<char>)>,
    target: Seq<char>,
    k: Seq<char>,
)
    requires
        has_key(install_ov, k),
    ensures
        spec_install_section(install_ov, target).contains((k, spec_lookup(install_ov, k))),
{
    lemma_dedup_keeps_first(install_ov, k);
    let c0 = spec_dedup_first(install_ov);
    if !has_key(c0, "WantedBy"@) {
        lemma_contains_push(c0, ("WantedBy"@, target), (k, spec_lookup(install_ov, k)));
    }
}

/// Injecting a default twice is the same as injecting it once.
pub proof fn lemma_with_default_idempotent(
    ps: Seq<(Seq<char>, Seq<char>)>,
    k: Seq<char>,
    v: Seq<char>,
)
    ensures
        spec_with_default(spec_with_default(ps, k, v), k, v) == spec_with_default(ps, k, v),
{
    if !has_key(ps, k) {
        lemma_has_key_push(ps, (k, v), k);
    }
}

} // verus!
