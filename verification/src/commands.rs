//! The commands of the tool, each reduced to what it decides: the exact
//! argument vectors, file writes and file removals the external collaborators
//! are to perform.
//!
//! A command's `execute` never performs I/O. It maps the user-facing service
//! name to its managed id, builds the invocation plan, and hands it back; the
//! unverified front end runs the invocations and touches the file system.

use vstd::prelude::*;
use vstd::string::*;
use crate::inventory::Service;
use crate::names::{get_service_name, spec_managed_id};
use crate::synth::{
    all_kv, spec_copied_env, spec_install_section, spec_is_kv, spec_parse_pairs,
    spec_service_section, spec_unit_section, synthesize, SynthesisError,
};
use crate::systemd::{spec_argv, spec_unit_path, Systemd};
use crate::text::{spec_decimal, usize_to_string};
use crate::unit_file::spec_render_unit;

verus! {

/// Run a command as a service.
pub struct Run {
    pub command: String,
    pub name: String,
    pub inherit_env: bool,
    pub env: Vec<String>,
    pub description: String,
    pub unit: Vec<String>,
    pub service: Vec<String>,
    pub install: Vec<String>,
}

/// Everything declaring a service changes in the world: one unit file to
/// write, then three manager invocations, in order.
pub struct RunPlan {
    pub unit_path: String,
    pub unit_file: String,
    pub daemon_reload: Vec<String>,
    pub enable: Vec<String>,
    pub restart: Vec<String>,
}

impl Run {
    /// The plan for declaring this command a managed service: the complete
    /// unit file synthesized from the overrides and defaults, and the
    /// invocations that reload the manager, enable the unit and restart it.
    ///
    /// `cwd` is the resolved current working directory and `inherited_env`
    /// the process environment, both read by the caller beforehand. The
    /// first override entry with no `=` aborts with a caller error instead.
    pub fn execute(&self, systemd: &Systemd, cwd: &str, inherited_env: &Vec<(String, String)>)
        -> (r: Result<RunPlan, SynthesisError>)
        ensures
            match r {
                Ok(plan) => {
                    &&& all_kv(self.unit.deep_view())
                    &&& all_kv(self.service.deep_view())
                    &&& all_kv(self.install.deep_view())
                    &&& all_kv(self.env.deep_view())
                    &&& plan.unit_path@ == spec_unit_path(
                        systemd.services_path@,
                        spec_managed_id(self.name@),
                    )
                    &&& plan.unit_file@ == spec_render_unit(
                        spec_unit_section(
                            spec_parse_pairs(self.unit.deep_view()),
                            self.description@,
                        ),
                        spec_service_section(
                            spec_parse_pairs(self.service.deep_view()),
                            self.command@,
                            cwd@,
                            spec_copied_env(self.inherit_env, inherited_env.deep_view())
                                + spec_parse_pairs(self.env.deep_view()),
                        ),
                        spec_install_section(
                            spec_parse_pairs(self.install.deep_view()),
                            systemd.default_target@,
                        ),
                    )
                    &&& plan.daemon_reload.deep_view() == spec_argv(
                        "systemctl"@,
                        systemd.default_args.deep_view(),
                        seq!["daemon-reload"@],
                    )
                    &&& plan.enable.deep_view() == spec_argv(
                        "systemctl"@,
                        systemd.default_args.deep_view(),
                        seq!["enable"@, spec_managed_id(self.name@)],
                    )
                    &&& plan.restart.deep_view() == spec_argv(
                        "systemctl"@,
                        systemd.default_args.deep_view(),
                        seq!["restart"@, spec_managed_id(self.name@)],
                    )
                },
                Err(e) => match e {
                    SynthesisError::MalformedOverride(s) => {
                        &&& !(all_kv(self.unit.deep_view()) && all_kv(self.service.deep_view())
                            && all_kv(self.install.deep_view()) && all_kv(self.env.deep_view()))
                        &&& !spec_is_kv(s@)
                        &&& (self.unit.deep_view().contains(s@) || self.service.deep_view()
                            .contains(s@) || self.install.deep_view().contains(s@)
                            || self.env.deep_view().contains(s@))
                    },
                },
            },
    {
        let unit = match synthesize(
            self.command.as_str(),
            self.description.as_str(),
            self.inherit_env,
            inherited_env,
            &self.env,
            &self.unit,
            &self.service,
            &self.install,
            cwd,
            systemd.default_target.as_str(),
        ) {
            Ok(u) => u,
            Err(e) => {
                return Err(e);
            },
        };
        let service_name = get_service_name(self.name.as_str());
        let (unit_path, unit_file) = systemd.install_service(service_name.as_str(), &unit);
        Ok(
            RunPlan {
                unit_path,
                unit_file,
                daemon_reload: systemd.daemon_reload(),
                enable: systemd.enable(service_name.as_str()),
                restart: systemd.restart(service_name.as_str()),
            },
        )
    }
}

/// Start a service.
pub struct Start {
    pub service: String,
}

impl Start {
    /// The invocation that starts this service's managed unit.
    pub fn execute(&self, systemd: &Systemd) -> (r: Vec<String>)
        ensures
            r.deep_view() == spec_argv("systemctl"@, systemd.default_args.deep_view(),
                seq!["start"@, spec_managed_id(self.service@)]),
    {
        let service_name = get_service_name(self.service.as_str());
        systemd.start(service_name.as_str())
    }
}

/// Stop a service.
pub struct Stop {
    pub service: String,
}

impl Stop {
    /// The invocation that stops this service's managed unit.
    pub fn execute(&self, systemd: &Systemd) -> (r: Vec<String>)
        ensures
            r.deep_view() == spec_argv("systemctl"@, systemd.default_args.deep_view(),
                seq!["stop"@, spec_managed_id(self.service@)]),
    {
        let service_name = get_service_name(self.service.as_str());
        systemd.stop(service_name.as_str())
    }
}

/// Restart a service.
pub struct Restart {
    pub service: String,
}

impl Restart {
    /// The invocation that restarts this service's managed unit.
    pub fn execute(&self, systemd: &Systemd) -> (r: Vec<String>)
        ensures
            r.deep_view() == spec_argv("systemctl"@, systemd.default_args.deep_view(),
                seq!["restart"@, spec_managed_id(self.service@)]),
    {
        let service_name = get_service_name(self.service.as_str());
        systemd.restart(service_name.as_str())
    }
}

/// Reload a service.
pub struct Reload {
    pub service: String,
}

impl Reload {
    /// The invocation that reloads this service's managed unit.
    pub fn execute(&self, systemd: &Systemd) -> (r: Vec<String>)
        ensures
            r.deep_view() == spec_argv("systemctl"@, systemd.default_args.deep_view(),
                seq!["reload"@, spec_managed_id(self.service@)]),
    {
        let service_name = get_service_name(self.service.as_str());
        systemd.reload(service_name.as_str())
    }
}

/// Enable a service.
pub struct Enable {
    pub service: String,
}

impl Enable {
    /// The invocation that enables this service's managed unit.
    pub fn execute(&self, systemd: &Systemd) -> (r: Vec<String>)
        ensures
            r.deep_view() == spec_argv("systemctl"@, systemd.default_args.deep_view(),
                seq!["enable"@, spec_managed_id(self.service@)]),
    {
        let service_name = get_service_name(self.service.as_str());
        systemd.enable(service_name.as_str())
    }
}

/// Disable a service.
pub struct Disable {
    pub service: String,
}

impl Disable {
    /// The invocation that disables this service's managed unit.
    pub fn execute(&self, systemd: &Systemd) -> (r: Vec<String>)
        ensures
            r.deep_view() == spec_argv("systemctl"@, systemd.default_args.deep_view(),
                seq!["disable"@, spec_managed_id(self.service@)]),
    {
        let service_name = get_service_name(self.service.as_str());
        systemd.disable(service_name.as_str())
    }
}

/// Query the status of a service.
pub struct Status {
    pub service: String,
}

impl Status {
    /// The invocation that queries this service's managed unit.
    pub fn execute(&self, systemd: &Systemd) -> (r: Vec<String>)
        ensures
            r.deep_view() == spec_argv("systemctl"@, systemd.default_args.deep_view(),
                seq!["status"@, spec_managed_id(self.service@)]),
    {
        let service_name = get_service_name(self.service.as_str());
        systemd.status(service_name.as_str())
    }
}

/// Print the unit file of a service.
pub struct Cat {
    pub service: String,
}

impl Cat {
    /// The invocation that prints this service's unit file.
    pub fn execute(&self, systemd: &Systemd) -> (r: Vec<String>)
        ensures
            r.deep_view() == spec_argv("systemctl"@, systemd.default_args.deep_view(),
                seq!["cat"@, spec_managed_id(self.service@)]),
    {
        let service_name = get_service_name(self.service.as_str());
        systemd.cat(service_name.as_str())
    }
}

/// Display the logs of a service.
pub struct Logs {
    pub lines: Option<usize>,
    pub follow: bool,
    pub catalog: bool,
    pub service: String,
}

/// The journal arguments the logs command builds from its options.
pub open spec fn spec_logs_args(
    lines: Option<usize>,
    follow: bool,
    catalog: bool,
    unit: Seq<char>,
) -> Seq<Seq<char>> {
    seq!["--unit"@, unit, "--pager-end"@] + (match lines {
        Some(n) => seq!["--lines"@, spec_decimal(n as nat)],
        None => Seq::empty(),
    }) + (if follow {
        seq!["--follow"@]
    } else {
        Seq::empty()
    }) + (if catalog {
        seq!["--catalog"@]
    } else {
        Seq::empty()
    })
}

impl Logs {
    /// The log-query invocation for this service's managed unit, with the
    /// line count, follow and catalog options rendered as arguments.
    pub fn execute(&self, systemd: &Systemd) -> (r: Vec<String>)
        ensures
            r.deep_view() == spec_argv("journalctl"@, systemd.default_args.deep_view(),
                spec_logs_args(self.lines, self.follow, self.catalog,
                    spec_managed_id(self.service@))),
    {
        let service_name = get_service_name(self.service.as_str());
        let mut args: Vec<String> = Vec::new();
        args.push(String::from_str("--unit"));
        args.push(service_name);
        args.push(String::from_str("--pager-end"));
        let ghost base = seq!["--unit"@, spec_managed_id(self.service@), "--pager-end"@];
        assert(args.deep_view() =~= base);
        let ghost lines_part = match self.lines {
            Some(n) => seq!["--lines"@, spec_decimal(n as nat)],
            None => Seq::empty(),
        };
        match self.lines {
            Some(n) => {
                args.push(String::from_str("--lines"));
                args.push(usize_to_string(n));
                assert(args.deep_view() =~= base + lines_part);
            },
            None => {
                assert(args.deep_view() =~= base + lines_part);
            },
        }
        let ghost follow_part: Seq<Seq<char>> = if self.follow {
            seq!["--follow"@]
        } else {
            Seq::empty()
        };
        if self.follow {
            args.push(String::from_str("--follow"));
        }
        assert(args.deep_view() =~= base + lines_part + follow_part);
        let ghost catalog_part: Seq<Seq<char>> = if self.catalog {
            seq!["--catalog"@]
        } else {
            Seq::empty()
        };
        if self.catalog {
            args.push(String::from_str("--catalog"));
        }
        assert(args.deep_view() =~= base + lines_part + follow_part + catalog_part);
        systemd.journalctl(&args)
    }
}

/// Remove a service.
pub struct Remove {
    pub service: String,
}

/// Everything removing a service changes in the world: two invocations, one
/// file removal, one manager reload, in order.
pub struct RemovalPlan {
    pub disable: Vec<String>,
    pub stop: Vec<String>,
    pub unit_path: String,
    pub daemon_reload: Vec<String>,
}

impl Remove {
    /// The plan for removing this service: disable the unit, stop it, delete
    /// its unit file, and reload the manager. The performer treats a unit
    /// file that is already absent as success, since the desired end state
    /// already holds.
    pub fn execute(&self, systemd: &Systemd) -> (r: RemovalPlan)
        ensures
            r.disable.deep_view() == spec_argv("systemctl"@, systemd.default_args.deep_view(),
                seq!["disable"@, spec_managed_id(self.service@)]),
            r.stop.deep_view() == spec_argv("systemctl"@, systemd.default_args.deep_view(),
                seq!["stop"@, spec_managed_id(self.service@)]),
            r.unit_path@ == spec_unit_path(
                systemd.services_path@,
                spec_managed_id(self.service@),
            ),
            r.daemon_reload.deep_view() == spec_argv("systemctl"@,
                systemd.default_args.deep_view(), seq!["daemon-reload"@]),
    {
        let service_name = get_service_name(self.service.as_str());
        RemovalPlan {
            disable: systemd.disable(service_name.as_str()),
            stop: systemd.stop(service_name.as_str()),
            unit_path: systemd.unit_file_path(service_name.as_str()),
            daemon_reload: systemd.daemon_reload(),
        }
    }
}

/// List services.
pub struct List {
    pub raw: bool,
    pub quiet: bool,
}

/// The rendering of a boolean in a raw listing line.
pub open spec fn spec_bool_str(b: bool) -> Seq<char> {
    if b {
        "true"@
    } else {
        "false"@
    }
}

/// One raw listing line: name, active flag, enabled flag and memory figure,
/// space-separated.
pub open spec fn spec_raw_line(s: Service) -> Seq<char> {
    s.name@ + " "@ + spec_bool_str(s.is_active) + " "@ + spec_bool_str(s.is_enabled) + " "@
        + s.memory@
}

/// The rendering of a boolean for the raw listing.
fn bool_str(b: bool) -> (r: String)
    ensures
        r@ == spec_bool_str(b),
{
    if b {
        String::from_str("true")
    } else {
        String::from_str("false")
    }
}

impl List {
    /// The lines this listing mode prints itself: every record on one line
    /// in raw mode, only the names in quiet mode. `None` selects the tabular
    /// rendering, which is the front end's concern.
    pub fn execute(&self, services: &Vec<Service>) -> (r: Option<Vec<String>>)
        ensures
            match r {
                Some(lines) => {
                    &&& lines@.len() == services@.len()
                    &&& self.raw ==> forall|i: int|
                        0 <= i < services@.len() ==> (#[trigger] lines.deep_view()[i])
                            == spec_raw_line(services@[i])
                    &&& !self.raw ==> self.quiet && forall|i: int|
                        0 <= i < services@.len() ==> (#[trigger] lines.deep_view()[i])
                            == services@[i].name@
                },
                None => !self.raw && !self.quiet,
            },
    {
        if self.raw {
            let mut lines: Vec<String> = Vec::new();
            let mut i: usize = 0;
            while i < services.len()
                invariant
                    i <= services@.len(),
                    lines@.len() == i,
                    forall|k: int|
                        0 <= k < i ==> (#[trigger] lines.deep_view()[k]) == spec_raw_line(
                            services@[k],
                        ),
                decreases services@.len() - i,
            {
                let mut line = services[i].name.clone();
                line.append(" ");
                line.append(bool_str(services[i].is_active).as_str());
                line.append(" ");
                line.append(bool_str(services[i].is_enabled).as_str());
                line.append(" ");
                line.append(services[i].memory.as_str());
                proof {
                    assert(line@ == spec_raw_line(services@[i as int]));
                }
                let ghost before = lines.deep_view();
                lines.push(line);
                proof {
                    assert(lines.deep_view() =~= before.push(spec_raw_line(
                        services@[i as int],
                    )));
                }
                i += 1;
            }
            Some(lines)
        } else if self.quiet {
            let mut lines: Vec<String> = Vec::new();
            let mut i: usize = 0;
            while i < services.len()
                invariant
                    i <= services@.len(),
                    lines@.len() == i,
                    forall|k: int|
                        0 <= k < i ==> (#[trigger] lines.deep_view()[k]) == services@[k].name@,
                decreases services@.len() - i,
            {
                let ghost before = lines.deep_view();
                lines.push(services[i].name.clone());
                proof {
                    assert(lines.deep_view() =~= before.push(services@[i as int].name@));
                }
                i += 1;
            }
            Some(lines)
        } else {
            None
        }
    }
}

} // verus!
