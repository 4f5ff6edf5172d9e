use lpm::synth::{has_not_key, synthesize, SynthesisError};
use lpm::unit_file::Unit;

fn strings(items: &[&str]) -> Vec<String> {
    items.iter().map(|s| s.to_string()).collect()
}

fn env_pairs(items: &[(&str, &str)]) -> Vec<(String, String)> {
    items.iter().map(|(k, v)| (k.to_string(), v.to_string())).collect()
}

fn plain_synthesize(
    command: &str,
    description: &str,
    unit_ov: &[&str],
    service_ov: &[&str],
    install_ov: &[&str],
) -> Result<Unit, SynthesisError> {
    synthesize(
        command,
        description,
        false,
        &env_pairs(&[]),
        &strings(&[]),
        &strings(unit_ov),
        &strings(service_ov),
        &strings(install_ov),
        "/work",
        "default.target",
    )
}

fn count_key(section: &[(String, String)], key: &str) -> usize {
    section.iter().filter(|(k, _)| k == key).count()
}

fn lookup<'a>(section: &'a [(String, String)], key: &str) -> Option<&'a str> {
    section.iter().find(|(k, _)| k == key).map(|(_, v)| v.as_str())
}

#[test]
fn defaults_fill_every_required_key() {
    let u = plain_synthesize("sleep 100", "test", &[], &[], &[]).unwrap();
    assert_eq!(lookup(&u.unit, "Description"), Some("test"));
    assert_eq!(lookup(&u.unit, "StartLimitIntervalSec"), Some("0"));
    assert_eq!(lookup(&u.service, "ExecStart"), Some("/usr/bin/env sleep 100"));
    assert_eq!(lookup(&u.service, "Restart"), Some("always"));
    assert_eq!(lookup(&u.service, "RestartSec"), Some("1"));
    assert_eq!(lookup(&u.service, "WorkingDirectory"), Some("/work"));
    assert_eq!(lookup(&u.install, "WantedBy"), Some("default.target"));
}

#[test]
fn required_keys_present_exactly_once() {
    let u = plain_synthesize(
        "sleep 100",
        "d",
        &["Description=mine"],
        &["Restart=on-failure", "RestartSec=5"],
        &["WantedBy=multi-user.target"],
    )
    .unwrap();
    assert_eq!(count_key(&u.unit, "Description"), 1);
    assert_eq!(count_key(&u.unit, "StartLimitIntervalSec"), 1);
    assert_eq!(count_key(&u.service, "ExecStart"), 1);
    assert_eq!(count_key(&u.service, "Restart"), 1);
    assert_eq!(count_key(&u.service, "RestartSec"), 1);
    assert_eq!(count_key(&u.service, "WorkingDirectory"), 1);
    assert_eq!(count_key(&u.install, "WantedBy"), 1);
}

#[test]
fn user_overrides_are_never_replaced_by_defaults() {
    let u = plain_synthesize(
        "sleep 100",
        "ignored",
        &["Description=mine"],
        &["Restart=on-failure", "ExecStart=/bin/true", "WorkingDirectory=/elsewhere"],
        &["WantedBy=graphical.target"],
    )
    .unwrap();
    assert_eq!(lookup(&u.unit, "Description"), Some("mine"));
    assert_eq!(lookup(&u.service, "Restart"), Some("on-failure"));
    assert_eq!(lookup(&u.service, "ExecStart"), Some("/bin/true"));
    assert_eq!(lookup(&u.service, "WorkingDirectory"), Some("/elsewhere"));
    assert_eq!(lookup(&u.install, "WantedBy"), Some("graphical.target"));
}

#[test]
fn repeated_override_key_keeps_the_first_occurrence() {
    let u = plain_synthesize(
        "x",
        "",
        &["After=a.target", "After=b.target"],
        &["Restart=on-failure", "Restart=never"],
        &[],
    )
    .unwrap();
    assert_eq!(count_key(&u.unit, "After"), 1);
    assert_eq!(lookup(&u.unit, "After"), Some("a.target"));
    assert_eq!(count_key(&u.service, "Restart"), 1);
    assert_eq!(lookup(&u.service, "Restart"), Some("on-failure"));
}

#[test]
fn override_order_is_preserved() {
    let u = plain_synthesize("x", "", &["After=net", "Wants=net"], &[], &[]).unwrap();
    assert_eq!(u.unit[0], ("After".to_string(), "net".to_string()));
    assert_eq!(u.unit[1], ("Wants".to_string(), "net".to_string()));
    // Defaults come after the user's pairs.
    assert_eq!(u.unit[2].0, "Description");
    assert_eq!(u.unit[3].0, "StartLimitIntervalSec");
}

#[test]
fn malformed_override_aborts_synthesis() {
    let r = plain_synthesize("x", "", &["NoEqualsSign"], &[], &[]);
    match r {
        Err(SynthesisError::MalformedOverride(s)) => assert_eq!(s, "NoEqualsSign"),
        Ok(_) => panic!("a malformed override must abort synthesis"),
    }
    let r = plain_synthesize("x", "", &[], &["also bad"], &[]);
    assert!(r.is_err());
    let r = synthesize(
        "x",
        "",
        false,
        &env_pairs(&[]),
        &strings(&["bad"]),
        &strings(&[]),
        &strings(&[]),
        &strings(&[]),
        "/work",
        "default.target",
    );
    assert!(r.is_err());
}

#[test]
fn override_splits_at_the_first_equals() {
    let u = plain_synthesize("x", "", &["Documentation=a=b"], &[], &[]).unwrap();
    assert_eq!(lookup(&u.unit, "Documentation"), Some("a=b"));
}

#[test]
fn explicit_env_entries_are_rendered_quoted() {
    let u = synthesize(
        "x",
        "",
        false,
        &env_pairs(&[]),
        &strings(&["FOO=bar", "BAZ=two words"]),
        &strings(&[]),
        &strings(&[]),
        &strings(&[]),
        "/work",
        "default.target",
    )
    .unwrap();
    let envs: Vec<&str> = u
        .service
        .iter()
        .filter(|(k, _)| k == "Environment")
        .map(|(_, v)| v.as_str())
        .collect();
    assert_eq!(envs, vec!["FOO='bar'", "BAZ='two words'"]);
}

#[test]
fn copied_environment_comes_before_explicit_entries() {
    let u = synthesize(
        "x",
        "",
        true,
        &env_pairs(&[("HOME", "/home/u"), ("TERM", "dumb")]),
        &strings(&["TERM=xterm"]),
        &strings(&[]),
        &strings(&[]),
        &strings(&[]),
        "/work",
        "default.target",
    )
    .unwrap();
    let envs: Vec<&str> = u
        .service
        .iter()
        .filter(|(k, _)| k == "Environment")
        .map(|(_, v)| v.as_str())
        .collect();
    assert_eq!(envs, vec!["HOME='/home/u'", "TERM='dumb'", "TERM='xterm'"]);
}

#[test]
fn environment_is_not_copied_unless_asked() {
    let u = synthesize(
        "x",
        "",
        false,
        &env_pairs(&[("HOME", "/home/u")]),
        &strings(&[]),
        &strings(&[]),
        &strings(&[]),
        &strings(&[]),
        "/work",
        "default.target",
    )
    .unwrap();
    assert_eq!(count_key(&u.service, "Environment"), 0);
}

#[test]
fn has_not_key_reports_absence() {
    let section = env_pairs(&[("Restart", "always"), ("RestartSec", "1")]);
    assert!(!has_not_key(&section, "Restart"));
    assert!(has_not_key(&section, "ExecStart"));
    assert!(has_not_key(&env_pairs(&[]), "Restart"));
}
