use lpm::unit_file::{parse_unit_file, render_unit_file, Unit};

fn pairs(ps: &[(&str, &str)]) -> Vec<(String, String)> {
    ps.iter().map(|(k, v)| (k.to_string(), v.to_string())).collect()
}

#[test]
fn renders_sections_in_fixed_order() {
    let unit = Unit {
        unit: pairs(&[("Description", "test")]),
        service: pairs(&[("ExecStart", "/usr/bin/env sleep 100"), ("Restart", "always")]),
        install: pairs(&[("WantedBy", "default.target")]),
    };
    let text = render_unit_file(&unit);
    assert_eq!(
        text,
        "[Unit]\nDescription=test\n[Service]\nExecStart=/usr/bin/env sleep 100\n\
         Restart=always\n[Install]\nWantedBy=default.target\n"
    );
}

#[test]
fn renders_empty_sections_as_bare_headers() {
    let unit = Unit { unit: vec![], service: vec![], install: vec![] };
    assert_eq!(render_unit_file(&unit), "[Unit]\n[Service]\n[Install]\n");
}

#[test]
fn render_then_parse_recovers_all_sections() {
    let unit = Unit {
        unit: pairs(&[("Description", "a service"), ("StartLimitIntervalSec", "0")]),
        service: pairs(&[
            ("ExecStart", "/usr/bin/env sleep 100"),
            ("Restart", "always"),
            ("Environment", "A='1'"),
            ("Environment", "B='2 3'"),
        ]),
        install: pairs(&[("WantedBy", "multi-user.target")]),
    };
    let parsed = parse_unit_file(&render_unit_file(&unit));
    assert_eq!(parsed.unit, unit.unit);
    assert_eq!(parsed.service, unit.service);
    assert_eq!(parsed.install, unit.install);
}

#[test]
fn render_then_parse_keeps_values_with_equals_signs() {
    let unit = Unit {
        unit: pairs(&[("Documentation", "man:x(1)=y")]),
        service: pairs(&[("ExecStart", "/usr/bin/env FOO=bar cmd")]),
        install: pairs(&[]),
    };
    let parsed = parse_unit_file(&render_unit_file(&unit));
    assert_eq!(parsed.unit, unit.unit);
    assert_eq!(parsed.service, unit.service);
    assert_eq!(parsed.install, unit.install);
}

#[test]
fn parse_skips_unrelated_lines_and_unknown_sections() {
    let text = "# a comment\n[Unit]\nDescription=d\n[Timer]\nOnCalendar=daily\n\
                [Service]\nRestart=always\nnot a pair\n";
    let parsed = parse_unit_file(text);
    assert_eq!(parsed.unit, pairs(&[("Description", "d")]));
    assert_eq!(parsed.service, pairs(&[("Restart", "always")]));
    assert!(parsed.install.is_empty());
}

#[test]
fn parse_drops_pairs_before_any_header() {
    let parsed = parse_unit_file("Stray=1\n[Install]\nWantedBy=default.target\n");
    assert!(parsed.unit.is_empty());
    assert!(parsed.service.is_empty());
    assert_eq!(parsed.install, pairs(&[("WantedBy", "default.target")]));
}

#[test]
fn parse_splits_at_the_first_equals() {
    let parsed = parse_unit_file("[Service]\nEnvironment=A=B=C\n");
    assert_eq!(parsed.service, pairs(&[("Environment", "A=B=C")]));
}
