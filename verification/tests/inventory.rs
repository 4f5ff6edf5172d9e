use lpm::inventory::{parse_list_output, parse_status_output};
use lpm::systemd::Systemd;

const NAP_STATUS: &str = "\u{25cf} lpm-nap.service - test\n     Loaded: loaded\n     \
                          Active: active (running) since Mon\n   Memory: 4.2M\n";

#[test]
fn listing_joined_with_statuses_yields_one_record_per_unit() {
    let systemd = Systemd::new(true, "/home/u");
    let list_output = "lpm-nap.service enabled\nlpm-web.service disabled\n";
    let statuses = vec![NAP_STATUS.to_string(), "Unit lpm-web.service not found.\n".to_string()];
    let services = systemd.get_services(list_output, &statuses);
    assert_eq!(services.len(), 2);
    assert_eq!(services[0].name, "nap");
    assert!(services[0].is_active);
    assert!(services[0].is_enabled);
    assert_eq!(services[0].memory, "4.2M");
    assert_eq!(services[1].name, "web");
    assert!(!services[1].is_active);
    assert!(!services[1].is_enabled);
    assert_eq!(services[1].memory, "");
}

#[test]
fn listing_without_prefixed_lines_yields_nothing() {
    let systemd = Systemd::new(false, "");
    let list_output = "UNIT FILE STATE PRESET\ncron.service enabled enabled\n\n2 unit files listed.\n";
    let services = systemd.get_services(list_output, &vec![]);
    assert!(services.is_empty());
    assert!(systemd.get_services("", &vec![]).is_empty());
}

#[test]
fn listing_skips_header_and_footer_lines() {
    let entries = parse_list_output(
        "UNIT FILE STATE PRESET\nlpm-nap.service enabled enabled\n\n1 unit files listed.\n",
    );
    assert_eq!(entries, vec![("lpm-nap".to_string(), true)]);
}

#[test]
fn listing_line_with_one_token_degrades_to_disabled() {
    let entries = parse_list_output("lpm-nap.service\n");
    assert_eq!(entries, vec![("lpm-nap".to_string(), false)]);
}

#[test]
fn listing_reads_only_the_enabled_literal_as_enabled() {
    let entries = parse_list_output(
        "lpm-a.service enabled\nlpm-b.service disabled\nlpm-c.service static\n",
    );
    assert_eq!(
        entries,
        vec![
            ("lpm-a".to_string(), true),
            ("lpm-b".to_string(), false),
            ("lpm-c".to_string(), false),
        ]
    );
}

#[test]
fn status_with_both_signals() {
    let (active, memory) = parse_status_output(NAP_STATUS);
    assert!(active);
    assert_eq!(memory, "4.2M");
}

#[test]
fn status_without_signals_degrades_to_defaults() {
    let (active, memory) = parse_status_output("Unit lpm-x.service could not be found.\n");
    assert!(!active);
    assert_eq!(memory, "");
    let (active, memory) = parse_status_output("");
    assert!(!active);
    assert_eq!(memory, "");
}

#[test]
fn inactive_status_is_not_read_as_active() {
    let (active, _) = parse_status_output("   Active: inactive (dead)\n");
    assert!(!active);
    let (active, _) = parse_status_output("   Active: failed (Result: exit-code)\n");
    assert!(!active);
}

#[test]
fn memory_is_the_last_token_of_the_first_memory_line() {
    let (_, memory) = parse_status_output("Memory: 12.0M (peak: 20.1M)\nMemory: 9M\n");
    assert_eq!(memory, "20.1M)");
    let (_, memory) = parse_status_output("Tasks: 1\n   Memory: 512K\n");
    assert_eq!(memory, "512K");
}
