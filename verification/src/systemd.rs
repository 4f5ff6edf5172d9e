//! The service-manager context: the user-mode/system-mode decision made once
//! at startup, the derived unit-storage path and activation target, and the
//! exact argument vectors handed to the external service manager.
//!
//! No function here performs I/O. Every operation on a managed unit is
//! returned as a full argument vector (program name first) for the caller to
//! execute, and installing a definition is returned as the unit-file path
//! together with the rendered file contents.

use vstd::prelude::*;
use vstd::string::*;
use crate::unit_file::{Unit, render_unit_file, spec_render_unit};

verus! {

/// The extra arguments every service-manager invocation carries: `--user` in
/// user mode, nothing in system mode.
pub open spec fn spec_default_args(user_mode: bool) -> Seq<Seq<char>> {
    if user_mode {
        seq!["--user"@]
    } else {
        Seq::empty()
    }
}

/// The directory unit files are stored in: per-user under the home
/// directory in user mode, the system-wide directory otherwise.
pub open spec fn spec_services_path(user_mode: bool, home: Seq<char>) -> Seq<char> {
    if user_mode {
        home + "/.config/systemd/user"@
    } else {
        "/etc/systemd/system"@
    }
}

/// The activation target new services are wanted by.
pub open spec fn spec_default_target(user_mode: bool) -> Seq<char> {
    if user_mode {
        "default.target"@
    } else {
        "multi-user.target"@
    }
}

/// A full service-manager argument vector: the program, the mode arguments,
/// then the operation's own arguments.
pub open spec fn spec_argv(
    program: Seq<char>,
    defaults: Seq<Seq<char>>,
    tail: Seq<Seq<char>>,
) -> Seq<Seq<char>> {
    seq![program] + defaults + tail
}

/// The path of a managed unit's file under `base`.
pub open spec fn spec_unit_path(base: Seq<char>, service: Seq<char>) -> Seq<char> {
    base + "/"@ + service + ".service"@
}

/// The process-wide service-manager context, computed once at startup and
/// read-only afterwards.
pub struct Systemd {
    pub user_mode: bool,
    pub default_args: Vec<String>,
    pub services_path: String,
    pub default_target: String,
}

/// `program`, then `defaults`, then `args`, as one owned argument vector.
fn build_argv(program: &str, defaults: &Vec<String>, args: &Vec<String>) -> (r: Vec<String>)
    ensures
        r.deep_view() == spec_argv(program@, defaults.deep_view(), args.deep_view()),
{
    let ghost dd = defaults.deep_view();
    let ghost da = args.deep_view();
    let mut cmd: Vec<String> = Vec::new();
    cmd.push(program.to_owned());
    assert(cmd.deep_view() =~= seq![program@]);
    let mut i: usize = 0;
    while i < defaults.len()
        invariant
            i <= defaults@.len(),
            dd == defaults.deep_view(),
            dd.len() == defaults@.len(),
            cmd.deep_view() == seq![program@] + dd.take(i as int),
        decreases defaults@.len() - i,
    {
        let ghost before = cmd.deep_view();
        cmd.push(defaults[i].clone());
        proof {
            assert(cmd.deep_view() =~= before.push(dd[i as int]));
            assert(dd.take(i as int + 1) =~= dd.take(i as int).push(dd[i as int]));
            assert(before.push(dd[i as int]) =~= seq![program@] + dd.take(i as int + 1));
        }
        i += 1;
    }
    proof {
        assert(dd.take(defaults@.len() as int) =~= dd);
    }
    let mut j: usize = 0;
    while j < args.len()
        invariant
            j <= args@.len(),
            da == args.deep_view(),
            da.len() == args@.len(),
            cmd.deep_view() == seq![program@] + defaults.deep_view() + da.take(j as int),
        decreases args@.len() - j,
    {
        let ghost before = cmd.deep_view();
        cmd.push(args[j].clone());
        proof {
            assert(cmd.deep_view() =~= before.push(da[j as int]));
            assert(da.take(j as int + 1) =~= da.take(j as int).push(da[j as int]));
            assert(before.push(da[j as int]) =~= seq![program@] + defaults.deep_view() + da.take(
                j as int + 1,
            ));
        }
        j += 1;
    }
    proof {
        assert(da.take(args@.len() as int) =~= da);
    }
    cmd
}

impl Systemd {
    /// The context for the given mode. `home` is the invoking user's home
    /// directory, already read by the caller; it matters only in user mode.
    pub fn new(user_mode: bool, home: &str) -> (s: Systemd)
        ensures
            s.user_mode == user_mode,
            s.default_args.deep_view() == spec_default_args(user_mode),
            s.services_path@ == spec_services_path(user_mode, home@),
            s.default_target@ == spec_default_target(user_mode),
    {
        let mut default_args: Vec<String> = Vec::new();
        if user_mode {
            default_args.push(String::from_str("--user"));
            assert(default_args.deep_view() =~= seq!["--user"@]);
        } else {
            assert(default_args.deep_view() =~= Seq::<Seq<char>>::empty());
        }
        let services_path = if user_mode {
            let mut p = home.to_owned();
            p.append("/.config/systemd/user");
            p
        } else {
            String::from_str("/etc/systemd/system")
        };
        let default_target = if user_mode {
            String::from_str("default.target")
        } else {
            String::from_str("multi-user.target")
        };
        Systemd { user_mode, default_args, services_path, default_target }
    }

    /// A service-manager invocation: the manager program, the mode
    /// arguments, then `args`.
    fn systemctl(&self, args: &Vec<String>) -> (r: Vec<String>)
        ensures
            r.deep_view() == spec_argv("systemctl"@, self.default_args.deep_view(),
                args.deep_view()),
    {
        build_argv("systemctl", &self.default_args, args)
    }

    /// A log-query invocation: the journal program, the mode arguments, then
    /// `args`.
    pub fn journalctl(&self, args: &Vec<String>) -> (r: Vec<String>)
        ensures
            r.deep_view() == spec_argv("journalctl"@, self.default_args.deep_view(),
                args.deep_view()),
    {
        build_argv("journalctl", &self.default_args, args)
    }

    /// One operation on one unit, as a full argument vector.
    fn unit_op(&self, op: &str, service: &str) -> (r: Vec<String>)
        ensures
            r.deep_view() == spec_argv("systemctl"@, self.default_args.deep_view(),
                seq![op@, service@]),
    {
        let mut args: Vec<String> = Vec::new();
        args.push(op.to_owned());
        args.push(service.to_owned());
        assert(args.deep_view() =~= seq![op@, service@]);
        self.systemctl(&args)
    }

    /// The invocation that starts `service`.
    pub fn start(&self, service: &str) -> (r: Vec<String>)
        ensures
            r.deep_view() == spec_argv("systemctl"@, self.default_args.deep_view(),
                seq!["start"@, service@]),
    {
        self.unit_op("start", service)
    }

    /// The invocation that stops `service`.
    pub fn stop(&self, service: &str) -> (r: Vec<String>)
        ensures
            r.deep_view() == spec_argv("systemctl"@, self.default_args.deep_view(),
                seq!["stop"@, service@]),
    {
        self.unit_op("stop", service)
    }

    /// The invocation that restarts `service`.
    pub fn restart(&self, service: &str) -> (r: Vec<String>)
        ensures
            r.deep_view() == spec_argv("systemctl"@, self.default_args.deep_view(),
                seq!["restart"@, service@]),
    {
        self.unit_op("restart", service)
    }

    /// The invocation that reloads `service`.
    pub fn reload(&self, service: &str) -> (r: Vec<String>)
        ensures
            r.deep_view() == spec_argv("systemctl"@, self.default_args.deep_view(),
                seq!["reload"@, service@]),
    {
        self.unit_op("reload", service)
    }

    /// The invocation that enables `service`.
    pub fn enable(&self, service: &str) -> (r: Vec<String>)
        ensures
            r.deep_view() == spec_argv("systemctl"@, self.default_args.deep_view(),
                seq!["enable"@, service@]),
    {
        self.unit_op("enable", service)
    }

    /// The invocation that disables `service`.
    pub fn disable(&self, service: &str) -> (r: Vec<String>)
        ensures
            r.deep_view() == spec_argv("systemctl"@, self.default_args.deep_view(),
                seq!["disable"@, service@]),
    {
        self.unit_op("disable", service)
    }

    /// The invocation that queries the status of `service`.
    pub fn status(&self, service: &str) -> (r: Vec<String>)
        ensures
            r.deep_view() == spec_argv("systemctl"@, self.default_args.deep_view(),
                seq!["status"@, service@]),
    {
        self.unit_op("status", service)
    }

    /// The invocation that prints the unit file of `service`.
    pub fn cat(&self, service: &str) -> (r: Vec<String>)
        ensures
            r.deep_view() == spec_argv("systemctl"@, self.default_args.deep_view(),
                seq!["cat"@, service@]),
    {
        self.unit_op("cat", service)
    }

    /// The invocation that reloads the manager's own configuration.
    pub fn daemon_reload(&self) -> (r: Vec<String>)
        ensures
            r.deep_view() == spec_argv("systemctl"@, self.default_args.deep_view(),
                seq!["daemon-reload"@]),
    {
        let mut args: Vec<String> = Vec::new();
        args.push(String::from_str("daemon-reload"));
        assert(args.deep_view() =~= seq!["daemon-reload"@]);
        self.systemctl(&args)
    }

    /// The invocation that lists known unit files, optionally scoped to a
    /// glob pattern.
    pub fn list_unit_files(&self, pattern: Option<&str>) -> (r: Vec<String>)
        ensures
            r.deep_view() == spec_argv("systemctl"@, self.default_args.deep_view(),
                match pattern {
                    Some(p) => seq!["list-unit-files"@, p@],
                    None => seq!["list-unit-files"@],
                }),
    {
        let mut args: Vec<String> = Vec::new();
        args.push(String::from_str("list-unit-files"));
        match pattern {
            Some(p) => {
                args.push(p.to_owned());
                assert(args.deep_view() =~= seq!["list-unit-files"@, p@]);
            },
            None => {
                assert(args.deep_view() =~= seq!["list-unit-files"@]);
            },
        }
        self.systemctl(&args)
    }

    /// The path of the unit file of `service` under this context's storage
    /// directory.
    pub fn unit_file_path(&self, service: &str) -> (r: String)
        ensures
            r@ == spec_unit_path(self.services_path@, service@),
    {
        let mut p = self.services_path.clone();
        p.append("/");
        p.append(service);
        p.append(".service");
        p
    }

    /// What installing `unit` as `service` writes: the unit-file path and
    /// the complete rendered file contents. The caller persists the pair.
    pub fn install_service(&self, service: &str, unit: &Unit) -> (r: (String, String))
        ensures
            r.0@ == spec_unit_path(self.services_path@, service@),
            r.1@ == spec_render_unit(
                unit.unit.deep_view(),
                unit.service.deep_view(),
                unit.install.deep_view(),
            ),
    {
        (self.unit_file_path(service), render_unit_file(unit))
    }
}

} // verus!
