use lpm::commands::{Cat, Disable, Enable, List, Logs, Reload, Remove, Restart, Run, Start,
                    Status, Stop};
use lpm::inventory::Service;
use lpm::systemd::Systemd;

fn user_systemd() -> Systemd {
    Systemd::new(true, "/home/u")
}

fn system_systemd() -> Systemd {
    Systemd::new(false, "/root")
}

#[test]
fn run_writes_a_complete_unit_file() {
    let run = Run {
        command: "sleep 100".to_string(),
        name: "nap".to_string(),
        inherit_env: false,
        env: vec![],
        description: "test".to_string(),
        unit: vec![],
        service: vec![],
        install: vec![],
    };
    let systemd = user_systemd();
    let plan = run.execute(&systemd, "/work", &vec![]).unwrap();
    assert_eq!(plan.unit_path, "/home/u/.config/systemd/user/lpm-nap.service");
    let unit_lines: Vec<&str> = plan.unit_file.lines().collect();
    let service_start = unit_lines.iter().position(|l| *l == "[Service]").unwrap();
    let install_start = unit_lines.iter().position(|l| *l == "[Install]").unwrap();
    let service_section = &unit_lines[service_start + 1..install_start];
    assert!(service_section.contains(&"ExecStart=/usr/bin/env sleep 100"));
    assert!(service_section.contains(&"Restart=always"));
    assert!(service_section.contains(&"RestartSec=1"));
    let unit_section = &unit_lines[1..service_start];
    assert!(unit_section.contains(&"Description=test"));
    assert_eq!(plan.daemon_reload, vec!["systemctl", "--user", "daemon-reload"]);
    assert_eq!(plan.enable, vec!["systemctl", "--user", "enable", "lpm-nap"]);
    assert_eq!(plan.restart, vec!["systemctl", "--user", "restart", "lpm-nap"]);
}

#[test]
fn run_rejects_malformed_overrides_without_a_plan() {
    let run = Run {
        command: "sleep 100".to_string(),
        name: "nap".to_string(),
        inherit_env: false,
        env: vec![],
        description: String::new(),
        unit: vec!["broken".to_string()],
        service: vec![],
        install: vec![],
    };
    assert!(run.execute(&user_systemd(), "/work", &vec![]).is_err());
}

#[test]
fn simple_commands_build_their_invocations() {
    let systemd = user_systemd();
    let s = "nap".to_string();
    assert_eq!(
        Start { service: s.clone() }.execute(&systemd),
        vec!["systemctl", "--user", "start", "lpm-nap"]
    );
    assert_eq!(
        Stop { service: s.clone() }.execute(&systemd),
        vec!["systemctl", "--user", "stop", "lpm-nap"]
    );
    assert_eq!(
        Restart { service: s.clone() }.execute(&systemd),
        vec!["systemctl", "--user", "restart", "lpm-nap"]
    );
    assert_eq!(
        Reload { service: s.clone() }.execute(&systemd),
        vec!["systemctl", "--user", "reload", "lpm-nap"]
    );
    assert_eq!(
        Enable { service: s.clone() }.execute(&systemd),
        vec!["systemctl", "--user", "enable", "lpm-nap"]
    );
    assert_eq!(
        Disable { service: s.clone() }.execute(&systemd),
        vec!["systemctl", "--user", "disable", "lpm-nap"]
    );
    assert_eq!(
        Status { service: s.clone() }.execute(&systemd),
        vec!["systemctl", "--user", "status", "lpm-nap"]
    );
    assert_eq!(
        Cat { service: s }.execute(&systemd),
        vec!["systemctl", "--user", "cat", "lpm-nap"]
    );
}

#[test]
fn system_mode_drops_the_user_flag() {
    let systemd = system_systemd();
    assert_eq!(
        Start { service: "web".to_string() }.execute(&systemd),
        vec!["systemctl", "start", "lpm-web"]
    );
}

#[test]
fn logs_renders_its_options_as_arguments() {
    let systemd = user_systemd();
    let plain = Logs { lines: None, follow: false, catalog: false, service: "nap".to_string() };
    assert_eq!(
        plain.execute(&systemd),
        vec!["journalctl", "--user", "--unit", "lpm-nap", "--pager-end"]
    );
    let full = Logs { lines: Some(250), follow: true, catalog: true, service: "nap".to_string() };
    assert_eq!(
        full.execute(&systemd),
        vec![
            "journalctl",
            "--user",
            "--unit",
            "lpm-nap",
            "--pager-end",
            "--lines",
            "250",
            "--follow",
            "--catalog",
        ]
    );
}

#[test]
fn remove_plans_disable_stop_delete_and_reload() {
    let systemd = user_systemd();
    let plan = Remove { service: "nap".to_string() }.execute(&systemd);
    assert_eq!(plan.disable, vec!["systemctl", "--user", "disable", "lpm-nap"]);
    assert_eq!(plan.stop, vec!["systemctl", "--user", "stop", "lpm-nap"]);
    assert_eq!(plan.unit_path, "/home/u/.config/systemd/user/lpm-nap.service");
    assert_eq!(plan.daemon_reload, vec!["systemctl", "--user", "daemon-reload"]);
}

#[test]
fn systemd_context_paths_follow_the_mode() {
    let user = user_systemd();
    assert_eq!(user.services_path, "/home/u/.config/systemd/user");
    assert_eq!(user.default_target, "default.target");
    assert_eq!(user.unit_file_path("lpm-nap"), "/home/u/.config/systemd/user/lpm-nap.service");
    let system = system_systemd();
    assert_eq!(system.services_path, "/etc/systemd/system");
    assert_eq!(system.default_target, "multi-user.target");
    assert_eq!(system.unit_file_path("lpm-web"), "/etc/systemd/system/lpm-web.service");
}

#[test]
fn list_unit_files_takes_an_optional_pattern() {
    let systemd = system_systemd();
    assert_eq!(
        systemd.list_unit_files(Some("lpm-*.service")),
        vec!["systemctl", "list-unit-files", "lpm-*.service"]
    );
    assert_eq!(systemd.list_unit_files(None), vec!["systemctl", "list-unit-files"]);
}

fn sample_services() -> Vec<Service> {
    vec![
        Service {
            name: "nap".to_string(),
            is_active: true,
            is_enabled: true,
            memory: "4.2M".to_string(),
        },
        Service {
            name: "web".to_string(),
            is_active: false,
            is_enabled: false,
            memory: String::new(),
        },
    ]
}

#[test]
fn list_raw_mode_renders_every_field() {
    let list = List { raw: true, quiet: false };
    let lines = list.execute(&sample_services()).unwrap();
    assert_eq!(lines, vec!["nap true true 4.2M", "web false false "]);
}

#[test]
fn list_quiet_mode_renders_names_only() {
    let list = List { raw: false, quiet: true };
    let lines = list.execute(&sample_services()).unwrap();
    assert_eq!(lines, vec!["nap", "web"]);
}

#[test]
fn list_default_mode_is_left_to_the_renderer() {
    let list = List { raw: false, quiet: false };
    assert!(list.execute(&sample_services()).is_none());
}
