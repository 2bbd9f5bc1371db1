//! The daemon: what it does for a request, and what it answers.

use nvtree::Nvtree;
use vstd::prelude::*;

use crate::bhyve;
use crate::bhyve::VmCreateOptions;
use crate::config;
use crate::config::{Config, BASE_DATASET_PATH, BASE_PATH, IMAGE_BASE, JAIL_BASE, SEED_BASE, VM_BASE};
use crate::dependency;
use crate::dependency::{ResourceKind, Stored};
use crate::error;
use crate::error::{caused, Error};
use crate::jail;
use crate::jail::{mount, root_path, umount, CreateOptions, JailInfo};
use crate::metadata;
use crate::plan;
use crate::plan::{command, Act, Action, Command, CommandLine, Plan, PlanModel};
use crate::protocol;
use crate::request;
use crate::request::{bool_field, optional_bool, optional_number, optional_string, optional_strings, request_to_args, string_array_field, string_field};
use crate::service;
use crate::snapshot;
use crate::snapshot::Snapshot;
use crate::text;
use crate::text::{join, join_path, lines, lossy, owned, same, trim};
use crate::util::cmd;
use crate::util::cmd::{CommandEvent, CommandStream};
use crate::wire;
use crate::wire::{Tree, Value};

verus! {

// ---------------------------------------------------------------------------
// The datasets of the daemon
// ---------------------------------------------------------------------------

/// The paths of the datasets that the daemon needs.
pub open spec fn needed_paths() -> Seq<Seq<char>> {
    seq![
        "/var"@, BASE_PATH@, BASE_DATASET_PATH@, JAIL_BASE@, VM_BASE@, SEED_BASE@, IMAGE_BASE@
    ]
}

fn needed_path(index: usize) -> (path: &'static str)
    requires
        index < 7,
    ensures
        path@ == needed_paths()[index as int],
{
    if index == 0 {
        "/var"
    } else if index == 1 {
        BASE_PATH
    } else if index == 2 {
        BASE_DATASET_PATH
    } else if index == 3 {
        JAIL_BASE
    } else if index == 4 {
        VM_BASE
    } else if index == 5 {
        SEED_BASE
    } else {
        IMAGE_BASE
    }
}

/// A dataset that the daemon needs.
pub open spec fn needed_dataset(config: Config, index: int) -> Seq<char> {
    config::dataset_spec(config.zfs_pool@, needed_paths()[index])
}

/// The datasets that the daemon needs, those above others first.
pub fn dataset_names(config: &Config) -> (names: Vec<String>)
    ensures
        names@.len() == 7,
        forall|i: int| 0 <= i < 7 ==> (#[trigger] names@[i])@ == needed_dataset(*config, i),
{
    let mut names: Vec<String> = Vec::new();
    let mut index: usize = 0;
    while index < 7
        invariant
            index <= 7,
            names@.len() == index,
            forall|i: int| 0 <= i < index ==> (#[trigger] names@[i])@ == needed_dataset(*config, i),
        decreases 7 - index,
    {
        names.push(config::dataset(config, needed_path(index)));
        index += 1;
    }
    names
}

/// The command that creates a dataset that the daemon needs.
pub open spec fn dataset_command(config: Config, index: int) -> CommandLine {
    if index == 0 {
        plan::line("zfs"@).arg("create"@).arg("-o"@).arg("mountpoint=none"@).arg(
            needed_dataset(config, index),
        )
    } else if index == 1 {
        plan::line("zfs"@).arg("create"@).arg("-o"@).arg("mountpoint=/var/priosun"@).arg(
            needed_dataset(config, index),
        )
    } else {
        plan::line("zfs"@).arg("create"@).arg(needed_dataset(config, index))
    }
}

fn create_command(config: &Config, index: usize) -> (result: Command)
    requires
        index < 7,
    ensures
        result@ == dataset_command(*config, index as int),
{
    let dataset = config::dataset(config, needed_path(index));
    if index == 0 {
        command("zfs").arg("create").arg("-o").arg("mountpoint=none").arg(dataset.as_str())
    } else if index == 1 {
        command("zfs").arg("create").arg("-o").arg("mountpoint=/var/priosun").arg(dataset.as_str())
    } else {
        command("zfs").arg("create").arg(dataset.as_str())
    }
}

/// What was found out about datasets, as plain values.
pub open spec fn check_views(checks: Seq<Result<bool, Error>>) -> Seq<Result<bool, Seq<char>>> {
    checks.map_values(|check: Result<bool, Error>| error::outcome(check))
}

/// How the first `count` datasets that the daemon needs are created, where they are missing.
/// What is not known of one ends it.
pub open spec fn datasets_plan(config: Config, checks: Seq<Result<bool, Seq<char>>>, count: int) -> PlanModel
    decreases count,
{
    if count <= 0 {
        plan::no_steps()
    } else {
        let index = count - 1;
        let earlier = datasets_plan(config, checks, index);
        let created = match checks[index] {
            Ok(true) => earlier,
            Ok(false) => earlier.run(dataset_command(config, index)),
            Err(reason) => earlier.fail(
                error::with_cause(
                    "failed to check ZFS dataset "@ + needed_dataset(config, index),
                    reason,
                ),
            ),
        };
        if index == 1 {
            created.run(
                plan::line("zfs"@).arg("set"@).arg("compression=lz4"@).arg(
                    needed_dataset(config, index),
                ),
            )
        } else {
            created
        }
    }
}

/// Plans to create the datasets that the daemon needs, where they are missing; `checks` says
/// of each whether it exists.
pub fn ensure_datasets(config: &Config, checks: &[Result<bool, Error>; 7]) -> (plan: Plan)
    ensures
        plan@ == datasets_plan(*config, check_views(checks@), 7),
{
    let ghost known = check_views(checks@);
    let mut plan = Plan::new();
    let mut index: usize = 0;
    while index < 7
        invariant
            index <= 7,
            known == check_views(checks@),
            plan@ == datasets_plan(*config, known, index as int),
        decreases 7 - index,
    {
        proof {
            assert(known[index as int] == error::outcome(checks@[index as int]));
        }
        match &checks[index] {
            Ok(exists_already) => {
                if !*exists_already {
                    plan = plan.run(create_command(config, index));
                }
            },
            Err(error) => {
                let reason = caused(
                    owned("failed to check ZFS dataset ").concat(
                        config::dataset(config, needed_path(index)).as_str(),
                    ),
                    error.message.as_str(),
                );
                plan = plan.fail(reason.message);
            },
        }
        if index == 1 {
            plan = plan.run(
                command("zfs").arg("set").arg("compression=lz4").arg(
                    config::dataset(config, needed_path(index)).as_str(),
                ),
            );
        }
        index += 1;
    }
    plan
}

// ---------------------------------------------------------------------------
// What is done for a request
// ---------------------------------------------------------------------------

/// What a new virtual machine is to be, as a request says.
#[derive(Debug)]
pub struct VmOptions {
    pub disk: String,
    pub os: String,
    pub version: Option<String>,
    pub cloud_init: bool,
    pub ssh_key: Option<String>,
    pub iso: Option<String>,
    pub vnc_port: Option<u16>,
    pub vnc_bind: String,
    pub vnc_width: u32,
    pub vnc_height: u32,
    pub tpm: bool,
    pub cpus: u32,
    pub memory: String,
}

/// What a new virtual machine is to be, as plain values.
pub struct VmOptionsModel {
    pub disk: Seq<char>,
    pub os: Seq<char>,
    pub version: Option<Seq<char>>,
    pub cloud_init: bool,
    pub ssh_key: Option<Seq<char>>,
    pub iso: Option<Seq<char>>,
    pub vnc_port: Option<u16>,
    pub vnc_bind: Seq<char>,
    pub vnc_width: u32,
    pub vnc_height: u32,
    pub tpm: bool,
    pub cpus: u32,
    pub memory: Seq<char>,
}

impl View for VmOptions {
    type V = VmOptionsModel;

    open spec fn view(&self) -> VmOptionsModel {
        VmOptionsModel {
            disk: self.disk@,
            os: self.os@,
            version: text::optional_view(self.version),
            cloud_init: self.cloud_init,
            ssh_key: text::optional_view(self.ssh_key),
            iso: text::optional_view(self.iso),
            vnc_port: self.vnc_port,
            vnc_bind: self.vnc_bind@,
            vnc_width: self.vnc_width,
            vnc_height: self.vnc_height,
            tpm: self.tpm,
            cpus: self.cpus,
            memory: self.memory@,
        }
    }
}

/// The options as plain values.
pub open spec fn options_model(options: VmCreateOptions<'_>) -> VmOptionsModel {
    VmOptionsModel {
        disk: options.disk@,
        os: options.os@,
        version: text::str_view(options.version),
        cloud_init: options.cloud_init,
        ssh_key: text::str_view(options.ssh_key),
        iso: text::str_view(options.iso),
        vnc_port: options.vnc_port,
        vnc_bind: options.vnc_bind@,
        vnc_width: options.vnc_width,
        vnc_height: options.vnc_height,
        tpm: options.tpm,
        cpus: options.cpus,
        memory: options.memory@,
    }
}

fn borrowed(value: &Option<String>) -> (result: Option<&str>)
    ensures
        text::str_view(result) == text::optional_view(*value),
{
    match value {
        Some(value) => Some(value.as_str()),
        None => None,
    }
}

impl VmOptions {
    /// The options in the form in which a virtual machine is created with them.
    pub fn options(&self) -> (options: VmCreateOptions<'_>)
        ensures
            options_model(options) == self@,
    {
        VmCreateOptions {
            disk: self.disk.as_str(),
            os: self.os.as_str(),
            version: borrowed(&self.version),
            cloud_init: self.cloud_init,
            ssh_key: borrowed(&self.ssh_key),
            iso: borrowed(&self.iso),
            vnc_port: self.vnc_port,
            vnc_bind: self.vnc_bind.as_str(),
            vnc_width: self.vnc_width,
            vnc_height: self.vnc_height,
            tpm: self.tpm,
            cpus: self.cpus,
            memory: self.memory.as_str(),
        }
    }
}

/// Something that the daemon does for a request.
#[derive(Debug)]
pub enum Job {
    CreateJail(CreateOptions),
    CreateVm { name: String, options: VmOptions },
    SetEnabled { name: String, enabled: bool },
    /// Show the source of a service in its jail.
    MountSource { name: String, directory: String },
    UnmountSource(String),
    StartJail(String),
    StartVm { name: String, seed: bool },
    StopJail(String),
    StopVm(String),
    DestroyJail(String),
    DestroyBase(String),
    DestroyVm(String),
    Provision { directory: String, container: String, name: String, provisioners: Vec<String> },
    /// Give up with this reason.
    Fail(String),
}

/// Something that the daemon does for a request, as plain values.
pub enum JobModel {
    CreateJail {
        name: Seq<char>,
        set: Option<Seq<char>>,
        version: Option<Seq<char>>,
        base: bool,
        from_base: Option<Seq<char>>,
        ssh_key: Option<Seq<char>>,
    },
    CreateVm { name: Seq<char>, options: VmOptionsModel },
    SetEnabled { name: Seq<char>, enabled: bool },
    MountSource { name: Seq<char>, directory: Seq<char> },
    UnmountSource(Seq<char>),
    StartJail(Seq<char>),
    StartVm { name: Seq<char>, seed: bool },
    StopJail(Seq<char>),
    StopVm(Seq<char>),
    DestroyJail(Seq<char>),
    DestroyBase(Seq<char>),
    DestroyVm(Seq<char>),
    Provision {
        directory: Seq<char>,
        container: Seq<char>,
        name: Seq<char>,
        provisioners: Seq<Seq<char>>,
    },
    Fail(Seq<char>),
}

impl View for Job {
    type V = JobModel;

    open spec fn view(&self) -> JobModel {
        match self {
            Job::CreateJail(options) => JobModel::CreateJail {
                name: options.name@,
                set: text::optional_view(options.set),
                version: text::optional_view(options.version),
                base: options.base,
                from_base: text::optional_view(options.from_base),
                ssh_key: text::optional_view(options.ssh_key),
            },
            Job::CreateVm { name, options } => JobModel::CreateVm {
                name: name@,
                options: options@,
            },
            Job::SetEnabled { name, enabled } => JobModel::SetEnabled {
                name: name@,
                enabled: *enabled,
            },
            Job::MountSource { name, directory } => JobModel::MountSource {
                name: name@,
                directory: directory@,
            },
            Job::UnmountSource(name) => JobModel::UnmountSource(name@),
            Job::StartJail(name) => JobModel::StartJail(name@),
            Job::StartVm { name, seed } => JobModel::StartVm { name: name@, seed: *seed },
            Job::StopJail(name) => JobModel::StopJail(name@),
            Job::StopVm(name) => JobModel::StopVm(name@),
            Job::DestroyJail(name) => JobModel::DestroyJail(name@),
            Job::DestroyBase(name) => JobModel::DestroyBase(name@),
            Job::DestroyVm(name) => JobModel::DestroyVm(name@),
            Job::Provision { directory, container, name, provisioners } => JobModel::Provision {
                directory: directory@,
                container: container@,
                name: name@,
                provisioners: text::views(provisioners@),
            },
            Job::Fail(reason) => JobModel::Fail(reason@),
        }
    }
}

/// What is done, as plain values.
pub open spec fn job_views(jobs: Seq<Job>) -> Seq<JobModel> {
    jobs.map_values(|job: Job| job@)
}

fn with(jobs: Vec<Job>, job: Job) -> (longer: Vec<Job>)
    ensures
        job_views(longer@) == job_views(jobs@).push(job@),
{
    let mut longer = jobs;
    longer.push(job);
    proof {
        assert(job_views(longer@) =~= job_views(jobs@).push(job@));
    }
    longer
}

fn nothing() -> (jobs: Vec<Job>)
    ensures
        job_views(jobs@) == no_jobs(),
{
    let jobs: Vec<Job> = Vec::new();
    proof {
        assert(job_views(jobs@) =~= no_jobs());
    }
    jobs
}

/// Nothing to do.
pub open spec fn no_jobs() -> Seq<JobModel> {
    Seq::empty()
}

fn failed(jobs: Vec<Job>, error: Error) -> (longer: Vec<Job>)
    ensures
        job_views(longer@) == job_views(jobs@).push(JobModel::Fail(error@)),
{
    with(jobs, Job::Fail(error.message))
}

/// A jail without anything special.
pub open spec fn plain_jail(name: Seq<char>) -> JobModel {
    JobModel::CreateJail {
        name,
        set: None,
        version: None,
        base: false,
        from_base: None,
        ssh_key: None,
    }
}

/// What ends `up`: the service is provisioned, unless it was before.
pub open spec fn provision_jobs(
    start: Seq<JobModel>,
    request: Tree,
    name: Seq<char>,
    provisioned: Option<Seq<char>>,
) -> Seq<JobModel> {
    match metadata::bool_spec("provisioned"@, provisioned, false) {
        Err(reason) => start.push(JobModel::Fail(reason)),
        Ok(true) => start,
        Ok(false) => match request::texts_at(request, "provisioners"@) {
            None => start,
            Some(provisioners) => if provisioners.len() == 0 {
                start
            } else {
                match request::need_text(request, "service_dir"@) {
                    Err(reason) => start.push(JobModel::Fail(reason)),
                    Ok(directory) => start.push(
                        JobModel::Provision { directory, container: "jail"@, name, provisioners },
                    ),
                }
            },
        },
    }
}

fn add_provision(
    start: Vec<Job>,
    request: &Nvtree,
    name: &str,
    provisioned: &Option<String>,
) -> (jobs: Vec<Job>)
    ensures
        job_views(jobs@) == provision_jobs(
            job_views(start@),
            wire::content(*request),
            name@,
            text::optional_view(*provisioned),
        ),
{
    match metadata::get_bool("provisioned", provisioned, false) {
        Err(error) => failed(start, error),
        Ok(true) => start,
        Ok(false) => match optional_strings(request, "provisioners") {
            None => start,
            Some(provisioners) => {
                if provisioners.len() == 0 {
                    return start;
                }
                match string_field(request, "service_dir") {
                    Err(error) => failed(start, error),
                    Ok(directory) => with(
                        start,
                        Job::Provision {
                            directory,
                            container: owned("jail"),
                            name: owned(name),
                            provisioners,
                        },
                    ),
                }
            },
        },
    }
}

/// What `up` does: the jail of the service is created if there is none, enabled unless the
/// service is under development, shown its source if it is and the jail does not run yet,
/// started, and provisioned.
pub open spec fn up_jobs(
    request: Tree,
    files: Snapshot,
    running: bool,
    provisioned: Option<Seq<char>>,
) -> Seq<JobModel> {
    match (request::need_text(request, "name"@), request::need_flag(request, "develop"@)) {
        (Err(reason), _) => no_jobs().push(JobModel::Fail(reason)),
        (Ok(_), Err(reason)) => no_jobs().push(JobModel::Fail(reason)),
        (Ok(name), Ok(develop)) => {
            let made = if snapshot::is_dir_at(files, jail::jail_path(name)) {
                no_jobs()
            } else {
                no_jobs().push(plain_jail(name))
            };
            let enabled = made.push(JobModel::SetEnabled { name, enabled: !develop });
            if develop && !running {
                match request::need_text(request, "service_dir"@) {
                    Err(reason) => enabled.push(JobModel::Fail(reason)),
                    Ok(directory) => provision_jobs(
                        enabled.push(JobModel::MountSource { name, directory }).push(
                            JobModel::StartJail(name),
                        ),
                        request,
                        name,
                        provisioned,
                    ),
                }
            } else {
                provision_jobs(
                    enabled.push(JobModel::StartJail(name)),
                    request,
                    name,
                    provisioned,
                )
            }
        },
    }
}

fn up(request: &Nvtree, files: &Snapshot, running: bool, provisioned: &Option<String>) -> (jobs:
    Vec<Job>)
    ensures
        job_views(jobs@) == up_jobs(
            wire::content(*request),
            *files,
            running,
            text::optional_view(*provisioned),
        ),
{
    let name = match string_field(request, "name") {
        Ok(name) => name,
        Err(error) => {
            return failed(nothing(), error);
        },
    };
    let develop = match bool_field(request, "develop") {
        Ok(develop) => develop,
        Err(error) => {
            return failed(nothing(), error);
        },
    };
    let made = if jail::path_exists(name.as_str(), files) {
        nothing()
    } else {
        with(
            nothing(),
            Job::CreateJail(
                CreateOptions {
                    name: owned(name.as_str()),
                    set: None,
                    version: None,
                    base: false,
                    from_base: None,
                    ssh_key: None,
                },
            ),
        )
    };
    let enabled = with(made, Job::SetEnabled { name: owned(name.as_str()), enabled: !develop });
    let shown = if develop && !running {
        match string_field(request, "service_dir") {
            Ok(directory) => with(
                enabled,
                Job::MountSource { name: owned(name.as_str()), directory },
            ),
            Err(error) => {
                return failed(enabled, error);
            },
        }
    } else {
        enabled
    };
    let started = with(shown, Job::StartJail(owned(name.as_str())));
    add_provision(started, request, name.as_str(), provisioned)
}

/// What `down` does: the jail of the service is stopped, and its source is taken away if it
/// is under development.
pub open spec fn down_jobs(request: Tree) -> Seq<JobModel> {
    match request::need_text(request, "name"@) {
        Err(reason) => no_jobs().push(JobModel::Fail(reason)),
        Ok(name) => {
            let stopped = no_jobs().push(JobModel::StopJail(name));
            match request::need_flag(request, "develop"@) {
                Err(reason) => stopped.push(JobModel::Fail(reason)),
                Ok(true) => stopped.push(JobModel::UnmountSource(name)),
                Ok(false) => stopped,
            }
        },
    }
}

fn down(request: &Nvtree) -> (jobs: Vec<Job>)
    ensures
        job_views(jobs@) == down_jobs(wire::content(*request)),
{
    let name = match string_field(request, "name") {
        Ok(name) => name,
        Err(error) => {
            return failed(nothing(), error);
        },
    };
    let stopped = with(nothing(), Job::StopJail(owned(name.as_str())));
    match bool_field(request, "develop") {
        Err(error) => failed(stopped, error),
        Ok(true) => with(stopped, Job::UnmountSource(name)),
        Ok(false) => stopped,
    }
}

/// Why a number is refused that is too large.
pub open spec fn out_of_range(field: Seq<char>) -> Seq<char> {
    error::with_cause(
        field + " is out of range"@,
        "out of range integral type conversion attempted"@,
    )
}

/// The number of a field, or its default; it must not be too large.
pub open spec fn bounded_spec(request: Tree, field: Seq<char>, default: u32) -> Result<
    u32,
    Seq<char>,
> {
    match request::number_at(request, field) {
        None => Ok(default),
        Some(number) => if number > u32::MAX {
            Err(out_of_range(field))
        } else {
            Ok(number as u32)
        },
    }
}

fn range_error(field: &str) -> (error: Error)
    ensures
        error@ == out_of_range(field@),
{
    caused(
        owned(field).concat(" is out of range"),
        "out of range integral type conversion attempted",
    )
}

fn bounded(request: &Nvtree, field: &str, default: u32) -> (result: Result<u32, Error>)
    ensures
        error::outcome(result) == bounded_spec(wire::content(*request), field@, default),
{
    match optional_number(request, field) {
        None => Ok(default),
        Some(number) => if number > u32::MAX as u64 {
            Err(range_error(field))
        } else {
            Ok(number as u32)
        },
    }
}

/// The port of a field, if there is one; it must not be too large.
pub open spec fn vnc_port_spec(request: Tree) -> Result<Option<u16>, Seq<char>> {
    match request::number_at(request, "vnc_port"@) {
        None => Ok(None),
        Some(number) => if number > u16::MAX {
            Err(out_of_range("vnc_port"@))
        } else {
            Ok(Some(number as u16))
        },
    }
}

fn vnc_port(request: &Nvtree) -> (result: Result<Option<u16>, Error>)
    ensures
        error::outcome(result) == vnc_port_spec(wire::content(*request)),
{
    match optional_number(request, "vnc_port") {
        None => Ok(None),
        Some(number) => if number > u16::MAX as u64 {
            Err(range_error("vnc_port"))
        } else {
            Ok(Some(number as u16))
        },
    }
}

/// The text of a field, or its default.
pub open spec fn text_or(request: Tree, field: Seq<char>, default: Seq<char>) -> Seq<char> {
    match request::text_at(request, field) {
        Some(text) => text,
        None => default,
    }
}

fn text_field(request: &Nvtree, field: &str, default: &str) -> (text: String)
    ensures
        text@ == text_or(wire::content(*request), field@, default@),
{
    match optional_string(request, field) {
        Some(text) => text,
        None => owned(default),
    }
}

/// What a request says of a new virtual machine, or the first thing that is wrong with it.
pub open spec fn vm_options_spec(request: Tree) -> Result<VmOptionsModel, Seq<char>> {
    match (
        vnc_port_spec(request),
        bounded_spec(request, "vnc_width"@, 1024),
        bounded_spec(request, "vnc_height"@, 768),
        bounded_spec(request, "cpus"@, 1),
        request::need_text(request, "disk"@),
        request::need_text(request, "os"@),
        request::need_flag(request, "cloud_init"@),
        request::need_flag(request, "tpm"@),
    ) {
        (Err(reason), _, _, _, _, _, _, _) => Err(reason),
        (_, Err(reason), _, _, _, _, _, _) => Err(reason),
        (_, _, Err(reason), _, _, _, _, _) => Err(reason),
        (_, _, _, Err(reason), _, _, _, _) => Err(reason),
        (_, _, _, _, Err(reason), _, _, _) => Err(reason),
        (_, _, _, _, _, Err(reason), _, _) => Err(reason),
        (_, _, _, _, _, _, Err(reason), _) => Err(reason),
        (_, _, _, _, _, _, _, Err(reason)) => Err(reason),
        (
            Ok(vnc_port),
            Ok(vnc_width),
            Ok(vnc_height),
            Ok(cpus),
            Ok(disk),
            Ok(os),
            Ok(cloud_init),
            Ok(tpm),
        ) => Ok(
            VmOptionsModel {
                disk,
                os,
                version: request::text_at(request, "version"@),
                cloud_init,
                ssh_key: request::text_at(request, "ssh_key"@),
                iso: request::text_at(request, "iso"@),
                vnc_port,
                vnc_bind: text_or(request, "vnc_bind"@, "127.0.0.1"@),
                vnc_width,
                vnc_height,
                tpm,
                cpus,
                memory: text_or(request, "memory"@, "1G"@),
            },
        ),
    }
}

/// What a request says of a new virtual machine.
pub fn create_vm(request: &Nvtree) -> (result: Result<VmOptions, Error>)
    ensures
        match result {
            Ok(options) => vm_options_spec(wire::content(*request)) == Ok::<
                VmOptionsModel,
                Seq<char>,
            >(options@),
            Err(error) => vm_options_spec(wire::content(*request)) == Err::<
                VmOptionsModel,
                Seq<char>,
            >(error@),
        },
{
    let vnc_port = match vnc_port(request) {
        Ok(port) => port,
        Err(error) => {
            return Err(error);
        },
    };
    let vnc_width: u32 = match bounded(request, "vnc_width", 1024) {
        Ok(width) => width,
        Err(error) => {
            return Err(error);
        },
    };
    let vnc_height: u32 = match bounded(request, "vnc_height", 768) {
        Ok(height) => height,
        Err(error) => {
            return Err(error);
        },
    };
    let cpus: u32 = match bounded(request, "cpus", 1) {
        Ok(cpus) => cpus,
        Err(error) => {
            return Err(error);
        },
    };
    let disk = match string_field(request, "disk") {
        Ok(disk) => disk,
        Err(error) => {
            return Err(error);
        },
    };
    let os = match string_field(request, "os") {
        Ok(os) => os,
        Err(error) => {
            return Err(error);
        },
    };
    let cloud_init = match bool_field(request, "cloud_init") {
        Ok(flag) => flag,
        Err(error) => {
            return Err(error);
        },
    };
    let tpm = match bool_field(request, "tpm") {
        Ok(flag) => flag,
        Err(error) => {
            return Err(error);
        },
    };
    Ok(
        VmOptions {
            disk,
            os,
            version: optional_string(request, "version"),
            cloud_init,
            ssh_key: optional_string(request, "ssh_key"),
            iso: optional_string(request, "iso"),
            vnc_port,
            vnc_bind: text_field(request, "vnc_bind", "127.0.0.1"),
            vnc_width,
            vnc_height,
            tpm,
            cpus,
            memory: text_field(request, "memory", "1G"),
        },
    )
}

/// What `create` does for a virtual machine: it is created, and started if that is asked
/// for or cloud-init is to set it up, which takes its seed.
pub open spec fn create_vm_jobs(request: Tree, name: Seq<char>) -> Seq<JobModel> {
    match vm_options_spec(request) {
        Err(reason) => no_jobs().push(JobModel::Fail(reason)),
        Ok(options) => {
            let made = no_jobs().push(JobModel::CreateVm { name, options });
            let seed = request::flag_at(request, "cloud_init"@) == Some(true);
            if seed || request::flag_at(request, "start"@) == Some(true) {
                made.push(JobModel::StartVm { name, seed })
            } else {
                made
            }
        },
    }
}

/// What `create` does for a jail: it is created, and started if that is asked for and it is
/// no base jail.
pub open spec fn create_jail_jobs(request: Tree, name: Seq<char>, kind: Seq<char>) -> Seq<
    JobModel,
> {
    let resource = text_or(request, "resource"@, kind);
    let base = kind == "base"@;
    if base && resource != "jail"@ {
        no_jobs().push(JobModel::Fail("base "@ + resource + " creation is not supported yet"@))
    } else {
        let made = no_jobs().push(
            JobModel::CreateJail {
                name,
                set: request::text_at(request, "set"@),
                version: request::text_at(request, "version"@),
                base,
                from_base: request::text_at(request, "base"@),
                ssh_key: request::text_at(request, "ssh_key"@),
            },
        );
        if !base && request::flag_at(request, "start"@) == Some(true) {
            made.push(JobModel::StartJail(name))
        } else {
            made
        }
    }
}

/// What `create` does.
pub open spec fn create_jobs(request: Tree) -> Seq<JobModel> {
    match (request::need_text(request, "name"@), request::need_text(request, "type"@)) {
        (Err(reason), _) => no_jobs().push(JobModel::Fail(reason)),
        (Ok(_), Err(reason)) => no_jobs().push(JobModel::Fail(reason)),
        (Ok(name), Ok(kind)) => if kind == "vm"@ {
            create_vm_jobs(request, name)
        } else {
            create_jail_jobs(request, name, kind)
        },
    }
}

fn is_set(request: &Nvtree, field: &str) -> (result: bool)
    ensures
        result == (request::flag_at(wire::content(*request), field@) == Some(true)),
{
    match optional_bool(request, field) {
        Some(flag) => flag,
        None => false,
    }
}

fn create(request: &Nvtree) -> (jobs: Vec<Job>)
    ensures
        job_views(jobs@) == create_jobs(wire::content(*request)),
{
    let name = match string_field(request, "name") {
        Ok(name) => name,
        Err(error) => {
            return failed(nothing(), error);
        },
    };
    let kind = match string_field(request, "type") {
        Ok(kind) => kind,
        Err(error) => {
            return failed(nothing(), error);
        },
    };
    if same(kind.as_str(), "vm") {
        let options = match create_vm(request) {
            Ok(options) => options,
            Err(error) => {
                return failed(nothing(), error);
            },
        };
        let made = with(nothing(), Job::CreateVm { name: owned(name.as_str()), options });
        let seed = is_set(request, "cloud_init");
        if seed || is_set(request, "start") {
            with(made, Job::StartVm { name, seed })
        } else {
            made
        }
    } else {
        let resource = text_field(request, "resource", kind.as_str());
        let base = same(kind.as_str(), "base");
        if base && !same(resource.as_str(), "jail") {
            return with(
                nothing(),
                Job::Fail(
                    owned("base ").concat(resource.as_str()).concat(
                        " creation is not supported yet",
                    ),
                ),
            );
        }
        let made = with(
            nothing(),
            Job::CreateJail(
                CreateOptions {
                    name: owned(name.as_str()),
                    set: optional_string(request, "set"),
                    version: optional_string(request, "version"),
                    base,
                    from_base: optional_string(request, "base"),
                    ssh_key: optional_string(request, "ssh_key"),
                },
            ),
        );
        if !base && is_set(request, "start") {
            with(made, Job::StartJail(name))
        } else {
            made
        }
    }
}

/// What `destroy` does.
pub open spec fn destroy_jobs(request: Tree) -> Seq<JobModel> {
    match (request::need_text(request, "type"@), request::need_text(request, "name"@)) {
        (Err(reason), _) => no_jobs().push(JobModel::Fail(reason)),
        (Ok(_), Err(reason)) => no_jobs().push(JobModel::Fail(reason)),
        (Ok(kind), Ok(name)) => no_jobs().push(
            if kind == "vm"@ {
                JobModel::DestroyVm(name)
            } else if kind == "base"@ {
                JobModel::DestroyBase(name)
            } else {
                JobModel::DestroyJail(name)
            },
        ),
    }
}

fn destroy(request: &Nvtree) -> (jobs: Vec<Job>)
    ensures
        job_views(jobs@) == destroy_jobs(wire::content(*request)),
{
    let kind = match string_field(request, "type") {
        Ok(kind) => kind,
        Err(error) => {
            return failed(nothing(), error);
        },
    };
    let name = match string_field(request, "name") {
        Ok(name) => name,
        Err(error) => {
            return failed(nothing(), error);
        },
    };
    if same(kind.as_str(), "vm") {
        with(nothing(), Job::DestroyVm(name))
    } else if same(kind.as_str(), "base") {
        with(nothing(), Job::DestroyBase(name))
    } else {
        with(nothing(), Job::DestroyJail(name))
    }
}

/// Whether a request is about a jail.
pub open spec fn concerns_jail(request: Tree, command: Seq<char>, files: Snapshot) -> bool {
    let kind = request::text_at(request, "type"@);
    if command == "create"@ {
        kind == Some("jail"@) || (kind == Some("base"@) && request::text_at(request, "resource"@)
            == Some("jail"@))
    } else if command == "start"@ || command == "stop"@ || command == "attach"@ {
        request::text_at(request, "name"@) matches Some(name) && snapshot::is_dir_at(
            files,
            jail::jail_path(name),
        )
    } else if command == "destroy"@ {
        kind == Some("jail"@) || kind == Some("base"@)
    } else {
        command == "up"@ || command == "down"@
    }
}

/// Whether a request is about a virtual machine.
pub open spec fn concerns_vm(request: Tree, command: Seq<char>, files: Snapshot) -> bool {
    if command == "create"@ || command == "destroy"@ {
        request::text_at(request, "type"@) == Some("vm"@)
    } else if command == "start"@ || command == "stop"@ {
        request::text_at(request, "name"@) matches Some(name) && bhyve::is_managed(name, files)
    } else {
        false
    }
}

fn is_text(request: &Nvtree, field: &str, wanted: &str) -> (result: bool)
    ensures
        result == (request::text_at(wire::content(*request), field@) == Some(wanted@)),
{
    match optional_string(request, field) {
        Some(text) => same(text.as_str(), wanted),
        None => false,
    }
}

fn about_jail(request: &Nvtree, command: &str, files: &Snapshot) -> (result: bool)
    ensures
        result == concerns_jail(wire::content(*request), command@, *files),
{
    if same(command, "create") {
        is_text(request, "type", "jail") || (is_text(request, "type", "base") && is_text(
            request,
            "resource",
            "jail",
        ))
    } else if same(command, "start") || same(command, "stop") || same(command, "attach") {
        match optional_string(request, "name") {
            Some(name) => jail::path_exists(name.as_str(), files),
            None => false,
        }
    } else if same(command, "destroy") {
        is_text(request, "type", "jail") || is_text(request, "type", "base")
    } else {
        same(command, "up") || same(command, "down")
    }
}

fn about_vm(request: &Nvtree, command: &str, files: &Snapshot) -> (result: bool)
    ensures
        result == concerns_vm(wire::content(*request), command@, *files),
{
    if same(command, "create") || same(command, "destroy") {
        is_text(request, "type", "vm")
    } else if same(command, "start") || same(command, "stop") {
        match optional_string(request, "name") {
            Some(name) => bhyve::path_exists(name.as_str(), files),
            None => false,
        }
    } else {
        false
    }
}

/// What is done with a jail or a virtual machine of a name.
pub open spec fn named_jobs(request: Tree, command: Seq<char>, vm: bool) -> Seq<JobModel> {
    match request::need_text(request, "name"@) {
        Err(reason) => no_jobs().push(JobModel::Fail(reason)),
        Ok(name) => no_jobs().push(
            if command == "start"@ {
                if vm {
                    JobModel::StartVm { name, seed: false }
                } else {
                    JobModel::StartJail(name)
                }
            } else {
                if vm {
                    JobModel::StopVm(name)
                } else {
                    JobModel::StopJail(name)
                }
            },
        ),
    }
}

fn named(request: &Nvtree, command: &str, vm: bool) -> (jobs: Vec<Job>)
    ensures
        job_views(jobs@) == named_jobs(wire::content(*request), command@, vm),
{
    match string_field(request, "name") {
        Err(error) => failed(nothing(), error),
        Ok(name) => if same(command, "start") {
            if vm {
                with(nothing(), Job::StartVm { name, seed: false })
            } else {
                with(nothing(), Job::StartJail(name))
            }
        } else {
            if vm {
                with(nothing(), Job::StopVm(name))
            } else {
                with(nothing(), Job::StopJail(name))
            }
        },
    }
}

/// What the daemon does itself for a request, if it does: for the lifecycle of jails and
/// virtual machines. `running` says whether the jail that the request names runs,
/// `provisioned` what is recorded of its having been provisioned.
pub open spec fn request_jobs(
    request: Tree,
    files: Snapshot,
    running: bool,
    provisioned: Option<Seq<char>>,
) -> Option<Seq<JobModel>> {
    match request::text_at(request, "command"@) {
        None => None,
        Some(command) => {
            let vm = concerns_vm(request, command, files);
            if !concerns_jail(request, command, files) && !vm {
                None
            } else if command == "up"@ {
                Some(up_jobs(request, files, running, provisioned))
            } else if command == "down"@ {
                Some(down_jobs(request))
            } else if command == "create"@ {
                Some(create_jobs(request))
            } else if command == "start"@ || command == "stop"@ {
                Some(named_jobs(request, command, vm))
            } else if command == "destroy"@ {
                Some(destroy_jobs(request))
            } else {
                None
            }
        },
    }
}

/// What the daemon does itself for a request. The others are carried out by the client
/// program.
pub fn execute_jail_request(
    request: &Nvtree,
    files: &Snapshot,
    running: bool,
    provisioned: &Option<String>,
) -> (jobs: Option<Vec<Job>>)
    ensures
        match jobs {
            Some(jobs) => request_jobs(
                wire::content(*request),
                *files,
                running,
                text::optional_view(*provisioned),
            ) == Some(job_views(jobs@)),
            None => request_jobs(
                wire::content(*request),
                *files,
                running,
                text::optional_view(*provisioned),
            ) is None,
        },
{
    let command = match optional_string(request, "command") {
        Some(command) => command,
        None => {
            return None;
        },
    };
    let command = command.as_str();
    let vm = about_vm(request, command, files);
    if !about_jail(request, command, files) && !vm {
        return None;
    }
    if same(command, "up") {
        Some(up(request, files, running, provisioned))
    } else if same(command, "down") {
        Some(down(request))
    } else if same(command, "create") {
        Some(create(request))
    } else if same(command, "start") || same(command, "stop") {
        Some(named(request, command, vm))
    } else if same(command, "destroy") {
        Some(destroy(request))
    } else {
        None
    }
}

/// A service under development is not started with the daemon, and its jail is shown the
/// source before it is started, unless it runs already.
pub proof fn law_development_mounts_the_source(
    request: Tree,
    files: Snapshot,
    running: bool,
    provisioned: Option<Seq<char>>,
    name: Seq<char>,
    directory: Seq<char>,
)
    requires
        request::text_at(request, "name"@) == Some(name),
        request::text_at(request, "service_dir"@) == Some(directory),
        request::flag_at(request, "develop"@) == Some(true),
    ensures
        ({
            let jobs = up_jobs(request, files, running, provisioned);
            let start = if snapshot::is_dir_at(files, jail::jail_path(name)) {
                0int
            } else {
                1int
            };
            &&& jobs.len() > start + 1
            &&& jobs[start] == (JobModel::SetEnabled { name, enabled: false })
            &&& running ==> jobs[start + 1] == JobModel::StartJail(name)
            &&& !running ==> jobs.len() > start + 2 && jobs[start + 1] == (JobModel::MountSource {
                name,
                directory,
            }) && jobs[start + 2] == JobModel::StartJail(name)
        }),
{
}

/// What is provisioned once is not provisioned again.
pub proof fn law_provisioned_once(
    request: Tree,
    files: Snapshot,
    running: bool,
    i: int,
)
    requires
        0 <= i < up_jobs(request, files, running, Some("true"@)).len(),
    ensures
        !(up_jobs(request, files, running, Some("true"@))[i] is Provision),
{
    metadata::law_recorded_flag_reads_back("provisioned"@, true, false);
}

/// What was not provisioned yet is provisioned: the last thing that is done for the service is
/// to provision its jail, which was started before, from its directory with exactly the
/// provisioners that are asked for. It does not matter whether the service is under
/// development or the jail runs already.
pub proof fn law_unprovisioned_service_is_provisioned(
    request: Tree,
    files: Snapshot,
    running: bool,
    provisioned: Option<Seq<char>>,
    name: Seq<char>,
    directory: Seq<char>,
    provisioners: Seq<Seq<char>>,
)
    requires
        request::text_at(request, "name"@) == Some(name),
        request::text_at(request, "service_dir"@) == Some(directory),
        request::flag_at(request, "develop"@) is Some,
        request::texts_at(request, "provisioners"@) == Some(provisioners),
        provisioners.len() > 0,
        provisioned is None || provisioned == Some("false"@),
    ensures
        ({
            let jobs = up_jobs(request, files, running, provisioned);
            &&& jobs.len() > 2
            &&& jobs.last() == (JobModel::Provision {
                directory,
                container: "jail"@,
                name,
                provisioners,
            })
            &&& jobs[jobs.len() - 2] == JobModel::StartJail(name)
        }),
{
    text::law_bool_reads_back(false);
}

/// Whether a job concerns only the jail of this name.
pub open spec fn is_about_jail(job: JobModel, name: Seq<char>) -> bool {
    match job {
        JobModel::CreateJail { name: own, .. } => own == name,
        JobModel::SetEnabled { name: own, .. } => own == name,
        JobModel::MountSource { name: own, .. } => own == name,
        JobModel::UnmountSource(own) => own == name,
        JobModel::StartJail(own) => own == name,
        JobModel::StopJail(own) => own == name,
        JobModel::Provision { name: own, .. } => own == name,
        _ => false,
    }
}

/// To bring a service up, its jail is created exactly if it has none, as a plain jail and
/// before anything else; it is set to start with the daemon exactly if the service is not
/// under development; its source is shown to it only under development; and in any case it
/// is started. Nothing is done to anything else.
pub proof fn law_up_starts_the_jail_of_the_service(
    request: Tree,
    files: Snapshot,
    running: bool,
    provisioned: Option<Seq<char>>,
    name: Seq<char>,
    directory: Seq<char>,
    develop: bool,
)
    requires
        request::text_at(request, "name"@) == Some(name),
        request::text_at(request, "service_dir"@) == Some(directory),
        request::flag_at(request, "develop"@) == Some(develop),
        provisioned is None || provisioned == Some("false"@) || provisioned == Some("true"@),
    ensures
        ({
            let jobs = up_jobs(request, files, running, provisioned);
            let exists = snapshot::is_dir_at(files, jail::jail_path(name));
            &&& jobs.contains(JobModel::StartJail(name))
            &&& jobs.contains(JobModel::SetEnabled { name, enabled: !develop })
            &&& !jobs.contains(JobModel::SetEnabled { name, enabled: develop })
            &&& !exists ==> jobs[0] == (JobModel::CreateJail {
                name,
                set: None,
                version: None,
                base: false,
                from_base: None,
                ssh_key: None,
            })
            &&& forall|i: int|
                0 <= i < jobs.len() ==> {
                    &&& is_about_jail(#[trigger] jobs[i], name)
                    &&& jobs[i] is CreateJail ==> !exists && i == 0
                    &&& jobs[i] is MountSource ==> develop && !running && jobs[i]
                        == (JobModel::MountSource { name, directory })
                }
        }),
{
    text::law_bool_reads_back(false);
    text::law_bool_reads_back(true);
    let jobs = up_jobs(request, files, running, provisioned);
    let start = if snapshot::is_dir_at(files, jail::jail_path(name)) {
        0int
    } else {
        1int
    };
    assert(jobs[start] == (JobModel::SetEnabled { name, enabled: !develop }));
    let started = if develop && !running {
        start + 2
    } else {
        start + 1
    };
    assert(jobs[started] == JobModel::StartJail(name));
}

/// What brings a service down undoes what brought it up: the jail that was started is
/// stopped, and after that the source that a service under development was shown is taken
/// away again. Nothing else is done.
pub proof fn law_down_undoes_up(request: Tree, name: Seq<char>, develop: bool)
    requires
        request::text_at(request, "name"@) == Some(name),
        request::flag_at(request, "develop"@) == Some(develop),
    ensures
        ({
            let jobs = down_jobs(request);
            &&& jobs.len() == if develop { 2int } else { 1int }
            &&& jobs[0] == JobModel::StopJail(name)
            &&& develop ==> jobs[1] == JobModel::UnmountSource(name)
        }),
{
}

proof fn lemma_command_names()
    ensures
        "up"@ != "down"@ && "up"@ != "create"@ && "up"@ != "start"@ && "up"@ != "stop"@ && "up"@
            != "destroy"@ && "up"@ != "attach"@,
        "down"@ != "create"@ && "down"@ != "start"@ && "down"@ != "stop"@ && "down"@ != "destroy"@,
        "down"@ != "attach"@,
        "create"@ != "start"@ && "create"@ != "stop"@ && "create"@ != "destroy"@ && "create"@
            != "attach"@,
        "start"@ != "stop"@ && "start"@ != "destroy"@ && "start"@ != "attach"@,
        "stop"@ != "destroy"@ && "stop"@ != "attach"@ && "destroy"@ != "attach"@,
        "vm"@ != "jail"@ && "vm"@ != "base"@ && "jail"@ != "base"@,
{
    reveal_strlit("up");
    reveal_strlit("down");
    reveal_strlit("create");
    reveal_strlit("start");
    reveal_strlit("stop");
    reveal_strlit("destroy");
    reveal_strlit("attach");
    reveal_strlit("vm");
    reveal_strlit("jail");
    reveal_strlit("base");
    assert("up"@.len() == 2 && "down"@.len() == 4 && "stop"@.len() == 4 && "start"@.len() == 5);
    assert("create"@.len() == 6 && "attach"@.len() == 6 && "destroy"@.len() == 7);
    assert("down"@[0] == 'd' && "stop"@[0] == 's');
    assert("create"@[0] == 'c' && "attach"@[0] == 'a');
    assert("jail"@[0] == 'j' && "base"@[0] == 'b');
}

/// A resource that is named is started and stopped as what it is: a managed virtual machine
/// as such and without a seed, a jail as a jail. A name that nothing has is left to the client
/// program.
pub proof fn law_named_resource_is_started_and_stopped(
    request: Tree,
    files: Snapshot,
    running: bool,
    provisioned: Option<Seq<char>>,
    name: Seq<char>,
    stop: bool,
)
    requires
        request::text_at(request, "command"@) == Some(if stop { "stop"@ } else { "start"@ }),
        request::text_at(request, "name"@) == Some(name),
    ensures
        ({
            let jobs = request_jobs(request, files, running, provisioned);
            let job = if bhyve::is_managed(name, files) {
                if stop {
                    JobModel::StopVm(name)
                } else {
                    JobModel::StartVm { name, seed: false }
                }
            } else {
                if stop {
                    JobModel::StopJail(name)
                } else {
                    JobModel::StartJail(name)
                }
            };
            if bhyve::is_managed(name, files) || snapshot::is_dir_at(files, jail::jail_path(name)) {
                jobs == Some(seq![job])
            } else {
                jobs is None
            }
        }),
{
    lemma_command_names();
    let jobs = request_jobs(request, files, running, provisioned);
    if bhyve::is_managed(name, files) || snapshot::is_dir_at(files, jail::jail_path(name)) {
        assert(jobs is Some);
        assert(jobs->Some_0.len() == 1);
        assert(jobs->Some_0 =~= seq![jobs->Some_0[0]]);
    }
}

/// What is destroyed is what the request names, as the kind that it says.
pub proof fn law_destroy_removes_what_is_named(
    request: Tree,
    files: Snapshot,
    running: bool,
    provisioned: Option<Seq<char>>,
    name: Seq<char>,
    kind: Seq<char>,
)
    requires
        request::text_at(request, "command"@) == Some("destroy"@),
        request::text_at(request, "name"@) == Some(name),
        request::text_at(request, "type"@) == Some(kind),
    ensures
        ({
            let jobs = request_jobs(request, files, running, provisioned);
            &&& kind == "vm"@ ==> jobs == Some(seq![JobModel::DestroyVm(name)])
            &&& kind == "jail"@ ==> jobs == Some(seq![JobModel::DestroyJail(name)])
            &&& kind == "base"@ ==> jobs == Some(seq![JobModel::DestroyBase(name)])
            &&& kind != "vm"@ && kind != "jail"@ && kind != "base"@ ==> jobs is None
        }),
{
    lemma_command_names();
    let jobs = request_jobs(request, files, running, provisioned);
    if jobs is Some {
        assert(jobs->Some_0.len() == 1);
        assert(jobs->Some_0 =~= seq![jobs->Some_0[0]]);
    }
}

/// A jail is created as it was asked for, first of all; it is started after that exactly if
/// the request says so, but never if it is a base jail.
pub proof fn law_jail_is_created_as_asked(
    request: Tree,
    files: Snapshot,
    running: bool,
    provisioned: Option<Seq<char>>,
    name: Seq<char>,
    base: bool,
)
    requires
        request::text_at(request, "command"@) == Some("create"@),
        request::text_at(request, "name"@) == Some(name),
        request::text_at(request, "type"@) == Some(if base { "base"@ } else { "jail"@ }),
        base ==> request::text_at(request, "resource"@) == Some("jail"@),
    ensures
        ({
            let jobs = request_jobs(request, files, running, provisioned);
            let started = !base && request::flag_at(request, "start"@) == Some(true);
            let made = JobModel::CreateJail {
                name,
                set: request::text_at(request, "set"@),
                version: request::text_at(request, "version"@),
                base,
                from_base: request::text_at(request, "base"@),
                ssh_key: request::text_at(request, "ssh_key"@),
            };
            &&& started ==> jobs == Some(seq![made, JobModel::StartJail(name)])
            &&& !started ==> jobs == Some(seq![made])
        }),
{
    lemma_command_names();
    let jobs = request_jobs(request, files, running, provisioned)->Some_0;
    if jobs.len() == 2 {
        assert(jobs =~= seq![jobs[0], jobs[1]]);
    } else {
        assert(jobs =~= seq![jobs[0]]);
    }
}

/// A virtual machine is created as it was asked for: every number and text that the request
/// holds is taken over, and what it does not hold has its default. The machine is started
/// after that if the request says so, or for cloud-init to set it up, which takes the seed.
#[verifier::spinoff_prover]
#[verifier::rlimit(40)]
pub proof fn law_vm_is_created_as_asked(
    request: Tree,
    files: Snapshot,
    running: bool,
    provisioned: Option<Seq<char>>,
    name: Seq<char>,
    disk: Seq<char>,
    os: Seq<char>,
    cloud_init: bool,
    tpm: bool,
)
    requires
        request::text_at(request, "command"@) == Some("create"@),
        request::text_at(request, "name"@) == Some(name),
        request::text_at(request, "type"@) == Some("vm"@),
        request::text_at(request, "disk"@) == Some(disk),
        request::text_at(request, "os"@) == Some(os),
        request::flag_at(request, "cloud_init"@) == Some(cloud_init),
        request::flag_at(request, "tpm"@) == Some(tpm),
        request::number_at(request, "vnc_port"@) matches Some(port) ==> port <= 65535,
        request::number_at(request, "vnc_width"@) matches Some(width) ==> width <= 4294967295,
        request::number_at(request, "vnc_height"@) matches Some(height) ==> height <= 4294967295,
        request::number_at(request, "cpus"@) matches Some(cpus) ==> cpus <= 4294967295,
    ensures
        ({
            let jobs = request_jobs(request, files, running, provisioned)->Some_0;
            let started = cloud_init || request::flag_at(request, "start"@) == Some(true);
            &&& request_jobs(request, files, running, provisioned) is Some
            &&& jobs.len() == if started { 2int } else { 1int }
            &&& started ==> jobs[1] == (JobModel::StartVm { name, seed: cloud_init })
            &&& jobs[0] matches JobModel::CreateVm { name: made, options } && {
                &&& made == name
                &&& options.disk == disk
                &&& options.os == os
                &&& options.cloud_init == cloud_init
                &&& options.tpm == tpm
                &&& options.version == request::text_at(request, "version"@)
                &&& options.ssh_key == request::text_at(request, "ssh_key"@)
                &&& options.iso == request::text_at(request, "iso"@)
                &&& match request::number_at(request, "vnc_port"@) {
                    Some(port) => options.vnc_port matches Some(own) && own == port,
                    None => options.vnc_port is None,
                }
                &&& options.vnc_width == match request::number_at(request, "vnc_width"@) {
                    Some(width) => width as int,
                    None => 1024,
                }
                &&& options.vnc_height == match request::number_at(request, "vnc_height"@) {
                    Some(height) => height as int,
                    None => 768,
                }
                &&& options.cpus == match request::number_at(request, "cpus"@) {
                    Some(cpus) => cpus as int,
                    None => 1,
                }
                &&& options.memory == match request::text_at(request, "memory"@) {
                    Some(memory) => memory,
                    None => "1G"@,
                }
                &&& options.vnc_bind == match request::text_at(request, "vnc_bind"@) {
                    Some(bind) => bind,
                    None => "127.0.0.1"@,
                }
            }
        }),
{
    lemma_command_names();
}

// ---------------------------------------------------------------------------
// Starting up
// ---------------------------------------------------------------------------

/// The jobs that start resources.
pub open spec fn start_jobs(list: Seq<(ResourceKind, Seq<char>)>) -> Seq<JobModel> {
    list.map_values(
        |item: (ResourceKind, Seq<char>)|
            match item.0 {
                ResourceKind::Jail => JobModel::StartJail(item.1),
                ResourceKind::Vm => JobModel::StartVm { name: item.1, seed: false },
            },
    )
}

/// What the daemon starts when it starts itself: the enabled resources, in order, if the
/// dependencies of all are in order. `dependencies` and `enabled` are what is recorded of
/// the resources.
pub fn start_enabled(dependencies: &Vec<Stored>, enabled: &Vec<Stored>) -> (result: Result<
    Vec<Job>,
    Error,
>)
    ensures
        match result {
            Ok(jobs) => dependency::is_valid(dependency::stored_graph(dependencies@))
                && dependency::enabled_spec(enabled@) is Ok && job_views(jobs@) == start_jobs(
                dependency::enabled_spec(enabled@)->Ok_0,
            ),
            Err(error) => if dependency::is_valid(dependency::stored_graph(dependencies@)) {
                dependency::enabled_spec(enabled@) == Err::<
                    Seq<(ResourceKind, Seq<char>)>,
                    Seq<char>,
                >(error@)
            } else {
                dependency::is_verdict(
                    dependency::stored_graph(dependencies@),
                    Err(error),
                )
            },
        },
{
    match dependency::validate_all(dependencies) {
        Err(error) => {
            return Err(error);
        },
        Ok(_) => {},
    }
    let list = match dependency::enabled(enabled) {
        Ok(list) => list,
        Err(error) => {
            return Err(error);
        },
    };
    let mut jobs: Vec<Job> = Vec::new();
    let mut index: usize = 0;
    while index < list.len()
        invariant
            index <= list@.len(),
            jobs@.len() == index,
            forall|i: int|
                0 <= i < index ==> (#[trigger] jobs@[i])@ == start_jobs(
                    dependency::named_views(list@),
                )[i],
        decreases list@.len() - index,
    {
        let name = owned(list[index].1.as_str());
        match list[index].0 {
            ResourceKind::Jail => {
                jobs.push(Job::StartJail(name));
            },
            ResourceKind::Vm => {
                jobs.push(Job::StartVm { name, seed: false });
            },
        }
        index += 1;
    }
    proof {
        assert(job_views(jobs@) =~= start_jobs(dependency::named_views(list@)));
    }
    Ok(jobs)
}

// ---------------------------------------------------------------------------
// Services
// ---------------------------------------------------------------------------

/// The dataset that a service runs from, or that its container is not supported.
pub open spec fn service_dataset_spec(container: Seq<char>, name: Seq<char>, config: Config) -> Result<
    Seq<char>,
    Seq<char>,
> {
    if container == "jail"@ {
        Ok(config::dataset_spec(config.zfs_pool@, text::join_path_spec(JAIL_BASE@, name)))
    } else if container == "vm"@ {
        Ok(config::dataset_spec(config.zfs_pool@, text::join_path_spec(VM_BASE@, name)))
    } else {
        Err("unsupported container: "@ + container)
    }
}

/// The dataset that a service runs from.
pub fn service_dataset(container: &str, name: &str, config: &Config) -> (result: Result<
    String,
    Error,
>)
    ensures
        error::text_outcome(result) == service_dataset_spec(container@, name@, *config),
{
    if same(container, "jail") {
        Ok(config::dataset(config, join_path(JAIL_BASE, name).as_str()))
    } else if same(container, "vm") {
        Ok(config::dataset(config, join_path(VM_BASE, name).as_str()))
    } else {
        Err(Error::new(owned("unsupported container: ").concat(container)))
    }
}

/// How a service is provisioned, which is then recorded, or why it is not.
pub open spec fn provision_spec(
    directory: Seq<char>,
    container: Seq<char>,
    name: Seq<char>,
    provisioners: Seq<Seq<char>>,
    config: Config,
    files: Snapshot,
) -> Result<PlanModel, Seq<char>> {
    if !snapshot::is_dir_at(files, directory) {
        Err("service directory does not exist: "@ + directory)
    } else if provisioners.len() == 0 {
        Err("no provisioner was supplied"@)
    } else {
        let applied = service::provision_plan(directory, provisioners);
        match service_dataset_spec(container, name, config) {
            Err(reason) => Ok(applied.fail(reason)),
            Ok(dataset) => Ok(
                applied.run(metadata::set_spec(dataset, "provisioned"@, "true"@)),
            ),
        }
    }
}

/// Plans to provision a service and to record that it was.
pub fn provision_service(
    directory: &str,
    container: &str,
    name: &str,
    provisioners: &Vec<String>,
    config: &Config,
    files: &Snapshot,
) -> (result: Result<Plan, Error>)
    ensures
        jail::plan_result(result) == provision_spec(
            directory@,
            container@,
            name@,
            text::views(provisioners@),
            *config,
            *files,
        ),
{
    let applied = match service::provision_at(directory, provisioners, files) {
        Ok(applied) => applied,
        Err(error) => {
            return Err(error);
        },
    };
    match service_dataset(container, name, config) {
        Err(error) => Ok(applied.fail(error.message)),
        Ok(dataset) => Ok(applied.run(metadata::set(dataset.as_str(), "provisioned", "true"))),
    }
}

/// What a request says of provisioning: the directory, the provisioners, the container and
/// the name of the service.
pub fn execute_provision_request(request: &Nvtree) -> (result: Result<Job, Error>)
    ensures
        match (
            request::need_text(wire::content(*request), "service_dir"@),
            request::need_texts(wire::content(*request), "provisioners"@),
            request::need_text(wire::content(*request), "container"@),
            request::need_text(wire::content(*request), "name"@),
            result,
        ) {
            (Err(reason), _, _, _, Err(error)) => error@ == reason,
            (Ok(_), Err(reason), _, _, Err(error)) => error@ == reason,
            (Ok(_), Ok(_), Err(reason), _, Err(error)) => error@ == reason,
            (Ok(_), Ok(_), Ok(_), Err(reason), Err(error)) => error@ == reason,
            (Ok(directory), Ok(provisioners), Ok(container), Ok(name), Ok(job)) => job@ == (
            JobModel::Provision { directory, container, name, provisioners }),
            _ => false,
        },
{
    let directory = match string_field(request, "service_dir") {
        Ok(directory) => directory,
        Err(error) => {
            return Err(error);
        },
    };
    let provisioners = match string_array_field(request, "provisioners") {
        Ok(provisioners) => provisioners,
        Err(error) => {
            return Err(error);
        },
    };
    let container = match string_field(request, "container") {
        Ok(container) => container,
        Err(error) => {
            return Err(error);
        },
    };
    match string_field(request, "name") {
        Ok(name) => Ok(Job::Provision { directory, container, name, provisioners }),
        Err(error) => Err(error),
    }
}

/// Where the source of a service is shown in its jail.
pub open spec fn source_path(name: Seq<char>) -> Seq<char> {
    text::join_path_spec(jail::jail_path(name), "usr/src"@)
}

/// The plan that shows the source of a service in its jail.
pub open spec fn source_mount_spec(
    name: Seq<char>,
    directory: Seq<char>,
    files: Snapshot,
) -> Result<PlanModel, Seq<char>> {
    if snapshot::is_dir_at(files, directory) {
        Ok(
            plan::no_steps().must(Act::CreateDir(source_path(name))).tell(
                "Mounting "@ + directory + " at "@ + source_path(name),
            ).run(jail::mount_spec("nullfs"@, directory, source_path(name))),
        )
    } else {
        Err("development service directory does not exist: "@ + directory)
    }
}

/// The plan that takes the source of a service out of its jail.
pub open spec fn source_unmount_spec(name: Seq<char>) -> PlanModel {
    plan::no_steps().may(Act::Run(jail::umount_spec(source_path(name))))
}

/// Plans to show the source of a service in its jail.
pub fn mount_development_dir(name: &str, directory: &str, files: &Snapshot) -> (result: Result<
    Plan,
    Error,
>)
    ensures
        jail::plan_result(result) == source_mount_spec(name@, directory@, *files),
{
    if !files.is_dir(directory) {
        return Err(
            Error::new(
                owned("development service directory does not exist: ").concat(directory),
            ),
        );
    }
    let target = join_path(root_path(name).as_str(), "usr/src");
    let message = owned("Mounting ").concat(directory).concat(" at ").concat(target.as_str());
    let shown = mount("nullfs", directory, target.as_str());
    Ok(Plan::new().must(Action::CreateDir(target)).tell(message).run(shown))
}

/// Plans to take the source of a service away from its jail, whether or not it is there.
pub fn unmount_development_dir(name: &str) -> (plan: Plan)
    ensures
        plan@ == source_unmount_spec(name@),
{
    let target = join_path(root_path(name).as_str(), "usr/src");
    Plan::new().may(Action::Run(umount(target.as_str())))
}

// ---------------------------------------------------------------------------
// Ways to handle a request
// ---------------------------------------------------------------------------

/// How a request is handled.
#[derive(Debug, Clone, Copy, PartialEq, Eq, Structural)]
pub enum Route {
    Provision,
    NetworkInit,
    /// Carry the request out, then attach to the resource.
    StartAttach,
    Attach,
    List,
    /// Carry the request out.
    Plain,
}

/// How a request is handled.
pub open spec fn route_spec(request: Tree) -> Route {
    let command = request::text_at(request, "command"@);
    if command == Some("provision"@) {
        Route::Provision
    } else if command == Some("network-init"@) {
        Route::NetworkInit
    } else if request::flag_at(request, "attach"@) == Some(true) && (command == Some("start"@) || (
    command == Some("create"@) && request::flag_at(request, "start"@) == Some(true))) {
        Route::StartAttach
    } else if command == Some("attach"@) {
        Route::Attach
    } else if command == Some("list"@) {
        Route::List
    } else {
        Route::Plain
    }
}

/// How a request is handled.
pub fn handle(request: &Nvtree) -> (route: Route)
    ensures
        route == route_spec(wire::content(*request)),
{
    if is_text(request, "command", "provision") {
        Route::Provision
    } else if is_text(request, "command", "network-init") {
        Route::NetworkInit
    } else if is_set(request, "attach") && (is_text(request, "command", "start") || (is_text(
        request,
        "command",
        "create",
    ) && is_set(request, "start"))) {
        Route::StartAttach
    } else if is_text(request, "command", "attach") {
        Route::Attach
    } else if is_text(request, "command", "list") {
        Route::List
    } else {
        Route::Plain
    }
}

/// What comes of the first half of starting with attachment: the resource must be one that
/// the daemon starts.
pub fn attached_jobs(jobs: Option<Vec<Job>>) -> (result: Result<Vec<Job>, Error>)
    ensures
        match (jobs, result) {
            (Some(jobs), Ok(same)) => same == jobs,
            (None, Err(error)) => error@ == "failed to start resource"@,
            _ => false,
        },
{
    match jobs {
        Some(jobs) => Ok(jobs),
        None => Err(Error::new(owned("failed to start resource"))),
    }
}

/// What a client is attached to.
#[derive(Debug)]
pub enum Target {
    Vm(String),
    Jail(String),
}

/// What a request is to be attached to: the virtual machine of the name, or else the jail.
pub fn execute_attach(request: &Nvtree, files: &Snapshot) -> (result: Result<Target, Error>)
    ensures
        match (request::need_text(wire::content(*request), "name"@), result) {
            (Err(reason), Err(error)) => error@ == reason,
            (Ok(name), Ok(Target::Vm(target))) => target@ == name && bhyve::is_managed(
                name,
                *files,
            ),
            (Ok(name), Ok(Target::Jail(target))) => target@ == name && !bhyve::is_managed(
                name,
                *files,
            ),
            _ => false,
        },
{
    match string_field(request, "name") {
        Err(error) => Err(error),
        Ok(name) => if bhyve::path_exists(name.as_str(), files) {
            Ok(Target::Vm(name))
        } else {
            Ok(Target::Jail(name))
        },
    }
}

/// Fails if a virtual machine cannot be attached to because it does not run.
pub fn execute_vm_attach(name: &str, running: bool) -> (result: Result<(), Error>)
    ensures
        match result {
            Ok(_) => running,
            Err(error) => !running && error@ == "VM is not running: "@ + name@,
        },
{
    if running {
        Ok(())
    } else {
        Err(Error::new(owned("VM is not running: ").concat(name)))
    }
}

/// What is done with a message of an attached client.
#[derive(Debug)]
pub enum Relay {
    /// Hand the text on.
    Write(String),
    Ignore,
    /// There will be no more.
    End,
}

/// What is done with a message of an attached client.
pub fn relay_login_input(message: &Nvtree) -> (relay: Relay)
    ensures
        match relay {
            Relay::Write(data) => request::text_at(wire::content(*message), "event"@) == Some(
                "stdin"@,
            ) && request::text_at(wire::content(*message), "data"@) == Some(data@),
            Relay::End => request::text_at(wire::content(*message), "event"@) == Some(
                "stdin_eof"@,
            ),
            Relay::Ignore => request::text_at(wire::content(*message), "event"@) != Some(
                "stdin_eof"@,
            ) && (request::text_at(wire::content(*message), "event"@) == Some("stdin"@)
                ==> request::text_at(wire::content(*message), "data"@) is None),
        },
{
    proof {
        reveal_strlit("stdin");
        reveal_strlit("stdin_eof");
        assert("stdin"@.len() == 5 && "stdin_eof"@.len() == 9);
    }
    if is_text(message, "event", "stdin") {
        match optional_string(message, "data") {
            Some(data) => Relay::Write(data),
            None => Relay::Ignore,
        }
    } else if is_text(message, "event", "stdin_eof") {
        Relay::End
    } else {
        Relay::Ignore
    }
}

// ---------------------------------------------------------------------------
// Answers
// ---------------------------------------------------------------------------

/// How a client is told of an event.
pub open spec fn event_tree(event: cmd::Event) -> Tree {
    match event.stream {
        CommandStream::Message => protocol::message_spec(text::lossy_spec(event.data)),
        CommandStream::Command => protocol::event_spec(
            event.program + " "@ + text::join_spec(event.args, " "@),
            None,
            None,
            false,
        ),
        CommandStream::Stdout => protocol::event_spec(""@, Some(event.data), None, false),
        CommandStream::Stderr => protocol::event_spec(""@, None, Some(event.data), false),
    }
}

/// How a client is told of an event.
pub fn event_response(event: &CommandEvent) -> (tree: Nvtree)
    ensures
        wire::content(tree) == event_tree(event@),
{
    match event.stream {
        CommandStream::Message => protocol::message_event(lossy(event.data.as_slice()).as_str()),
        CommandStream::Command => protocol::command_event(
            owned(event.program.as_str()).concat(" ").concat(
                join(&event.args, " ").as_str(),
            ).as_str(),
            None,
            None,
        ),
        CommandStream::Stdout => protocol::command_event("", Some(event.data.as_slice()), None),
        CommandStream::Stderr => protocol::command_event("", None, Some(event.data.as_slice())),
    }
}

/// How a request is answered that was carried out, or not, by the daemon itself.
pub open spec fn answer_spec(result: Result<(), Seq<char>>) -> Tree {
    match result {
        Ok(_) => protocol::success_spec(0, Seq::empty(), Seq::empty()),
        Err(reason) => protocol::error_spec(reason),
    }
}

/// How a request is answered that was carried out, or not, by the daemon itself.
pub fn answer(result: Result<(), Error>) -> (tree: Nvtree)
    ensures
        wire::content(tree) == answer_spec(error::outcome(result)),
{
    match result {
        Ok(_) => {
            let silence: Vec<u8> = Vec::new();
            let tree = protocol::success(0, silence.as_slice(), silence.as_slice());
            proof {
                assert(silence@ =~= Seq::empty());
            }
            tree
        },
        Err(error) => protocol::error(error.message.as_str()),
    }
}

/// How an attached client is told that its session is over: with the exit code, or one if a
/// signal ended it.
pub fn session_answer(code: Option<i32>) -> (tree: Nvtree)
    ensures
        wire::content(tree) == protocol::success_spec(
            match code {
                Some(code) => code as int,
                None => 1,
            },
            Seq::empty(),
            Seq::empty(),
        ),
{
    let silence: Vec<u8> = Vec::new();
    proof {
        assert(silence@ =~= Seq::empty());
    }
    child_answer(code, silence.as_slice(), silence.as_slice())
}

/// How a request is answered that the client program carried out.
pub fn child_answer(code: Option<i32>, stdout: &[u8], stderr: &[u8]) -> (tree: Nvtree)
    ensures
        wire::content(tree) == protocol::success_spec(
            match code {
                Some(code) => code as int,
                None => 1,
            },
            stdout@,
            stderr@,
        ),
{
    let status: i32 = match code {
        Some(code) => code,
        None => 1,
    };
    protocol::success(status, stdout, stderr)
}

/// The arguments with which a request is carried out: its own, and behind them where the
/// configuration lies.
pub open spec fn child_args_spec(request: Tree, config_path: Option<Seq<char>>) -> Result<
    Seq<Seq<char>>,
    Seq<char>,
> {
    match (request::request_to_args_spec(request), config_path) {
        (Ok(own), Some(path)) => Ok(own.push("--config"@).push(path)),
        (own, _) => own,
    }
}

/// The arguments with which the client program carries out a request: its own, and those
/// that name the configuration.
pub fn client_args(request: &Nvtree, config_path: Option<&str>) -> (result: Result<
    Vec<String>,
    Error,
>)
    ensures
        match (
            child_args_spec(wire::content(*request), text::str_view(config_path)),
            result,
        ) {
            (Ok(own), Ok(args)) => text::views(args@) == own,
            (Err(reason), Err(error)) => error@ == reason,
            _ => false,
        },
{
    let mut args = match request_to_args(request) {
        Ok(args) => args,
        Err(error) => {
            return Err(error);
        },
    };
    let ghost own = text::views(args@);
    match config_path {
        Some(path) => {
            args.push(owned("--config"));
            args.push(owned(path));
            proof {
                assert(text::views(args@) =~= own.push("--config"@).push(path@));
            }
        },
        None => {},
    }
    Ok(args)
}

/// The numbers by which the operating system tells that the other side is gone.
pub struct DisconnectCodes {
    pub broken_pipe: i32,
    pub reset: i32,
    pub not_connected: i32,
}

/// Whether one of the numbers tells that the other side is gone.
pub open spec fn tells_of_disconnect(numbers: Seq<i32>, codes: DisconnectCodes) -> bool {
    exists|i: int|
        0 <= i < numbers.len() && (#[trigger] numbers[i] == codes.broken_pipe || numbers[i]
            == codes.reset || numbers[i] == codes.not_connected)
}

/// Whether a failed request comes from a client that went away, by the numbers of the
/// errors of the operating system that it goes back to.
pub fn is_client_disconnect(numbers: &Vec<i32>, codes: &DisconnectCodes) -> (result: bool)
    ensures
        result == tells_of_disconnect(numbers@, *codes),
{
    let mut index: usize = 0;
    while index < numbers.len()
        invariant
            index <= numbers@.len(),
            !tells_of_disconnect(numbers@.take(index as int), *codes),
        decreases numbers@.len() - index,
    {
        let number: i32 = numbers[index];
        if number == codes.broken_pipe || number == codes.reset || number == codes.not_connected {
            assert(numbers@[index as int] == number);
            return true;
        }
        proof {
            let first = numbers@.take(index + 1);
            assert forall|i: int| 0 <= i < first.len() implies !(#[trigger] first[i]
                == codes.broken_pipe || first[i] == codes.reset || first[i]
                == codes.not_connected) by {
                if i < index {
                    assert(first[i] == numbers@.take(index as int)[i]);
                }
            }
        }
        index += 1;
    }
    proof {
        assert(numbers@.take(index as int) =~= numbers@);
    }
    false
}

/// The arguments with which the daemon starts itself in the background.
pub fn daemon_args(config_path: Option<&str>) -> (args: Vec<String>)
    ensures
        text::views(args@) == match config_path {
            Some(path) => seq!["--no-daemon"@, "--config"@, path@],
            None => seq!["--no-daemon"@],
        },
{
    let mut args: Vec<String> = Vec::new();
    args.push(owned("--no-daemon"));
    match config_path {
        Some(path) => {
            args.push(owned("--config"));
            args.push(owned(path));
        },
        None => {},
    }
    proof {
        match config_path {
            Some(path) => {
                assert(text::views(args@) =~= seq!["--no-daemon"@, "--config"@, path@]);
            },
            None => {
                assert(text::views(args@) =~= seq!["--no-daemon"@]);
            },
        }
    }
    args
}

// ---------------------------------------------------------------------------
// Lists
// ---------------------------------------------------------------------------

/// What is listed.
#[derive(Debug, Clone, Copy, PartialEq, Eq, Structural)]
pub enum Listing {
    Datasets,
    Volumes,
    Jails,
    Vms,
}

/// What a name of resources means, or why it means nothing.
pub open spec fn listing_spec(resource: Seq<char>) -> Result<Listing, Seq<char>> {
    if resource == "all"@ {
        Err("list all must be expanded by the client"@)
    } else if resource == "datasets"@ {
        Ok(Listing::Datasets)
    } else if resource == "volumes"@ {
        Ok(Listing::Volumes)
    } else if resource == "jails"@ {
        Ok(Listing::Jails)
    } else if resource == "vms"@ {
        Ok(Listing::Vms)
    } else {
        Err("unsupported list resource: "@ + resource)
    }
}

/// What a request wants listed.
pub fn execute_list(request: &Nvtree) -> (result: Result<Listing, Error>)
    ensures
        error::outcome(result) == match request::need_text(wire::content(*request), "resource"@) {
            Err(reason) => Err(reason),
            Ok(resource) => listing_spec(resource),
        },
{
    let resource = match string_field(request, "resource") {
        Ok(resource) => resource,
        Err(error) => {
            return Err(error);
        },
    };
    let resource = resource.as_str();
    if same(resource, "all") {
        Err(Error::new(owned("list all must be expanded by the client")))
    } else if same(resource, "datasets") {
        Ok(Listing::Datasets)
    } else if same(resource, "volumes") {
        Ok(Listing::Volumes)
    } else if same(resource, "jails") {
        Ok(Listing::Jails)
    } else if same(resource, "vms") {
        Ok(Listing::Vms)
    } else {
        Err(Error::new(owned("unsupported list resource: ").concat(resource)))
    }
}

/// The command that lists datasets, or only volumes.
pub open spec fn zfs_list_spec(volumes: bool) -> CommandLine {
    let all = plan::line("zfs"@).arg("list"@).arg("-H"@).arg("-o"@).arg("name"@);
    if volumes {
        all.arg("-t"@).arg("volume"@)
    } else {
        all
    }
}

/// The command that lists datasets, or only volumes.
pub fn zfs_list(volumes: bool) -> (result: Command)
    ensures
        result@ == zfs_list_spec(volumes),
{
    let all = command("zfs").arg("list").arg("-H").arg("-o").arg("name");
    if volumes {
        all.arg("-t").arg("volume")
    } else {
        all
    }
}

/// The names in what `zfs` prints: its lines, trimmed, but for the blank ones.
pub open spec fn listed_names(lines: Seq<Seq<char>>) -> Seq<Seq<char>>
    decreases lines.len(),
{
    if lines.len() == 0 {
        Seq::empty()
    } else {
        let name = text::trim_spec(lines.last());
        if name.len() > 0 {
            listed_names(lines.drop_last()).push(name)
        } else {
            listed_names(lines.drop_last())
        }
    }
}

/// The names in what `zfs` prints.
pub fn zfs_names(printed: &str) -> (names: Vec<String>)
    ensures
        text::views(names@) == listed_names(text::lines_spec(printed@)),
{
    let all = lines(printed);
    let ghost model = text::lines_spec(printed@);
    let mut names: Vec<String> = Vec::new();
    let mut index: usize = 0;
    proof {
        assert(text::views(names@) =~= listed_names(model.take(0)));
    }
    while index < all.len()
        invariant
            index <= all@.len(),
            text::views(all@) == model,
            text::views(names@) == listed_names(model.take(index as int)),
        decreases all@.len() - index,
    {
        proof {
            assert(model.take(index + 1).drop_last() =~= model.take(index as int));
            assert(model.take(index + 1).last() == all@[index as int]@);
        }
        let name = trim(all[index].as_str());
        if name.as_str().unicode_len() > 0 {
            let ghost before = names@;
            names.push(name);
            proof {
                assert(text::views(names@) =~= text::views(before).push(name@));
            }
        }
        index += 1;
    }
    proof {
        assert(model.take(index as int) =~= model);
    }
    names
}

/// What is listed of a dataset.
pub open spec fn name_row(name: Seq<char>) -> Tree {
    protocol::single("name"@, Value::Text(name))
}

/// The rows for datasets, or why there are none.
pub open spec fn zfs_rows_spec(succeeded: bool, stdout: Seq<u8>, stderr: Seq<u8>) -> Result<
    Seq<Tree>,
    Seq<char>,
> {
    if succeeded {
        Ok(
            listed_names(text::lines_spec(text::lossy_spec(stdout))).map_values(
                |name: Seq<char>| name_row(name),
            ),
        )
    } else {
        Err("zfs failed: "@ + text::trim_spec(text::lossy_spec(stderr)))
    }
}

/// What came of asking for rows, as plain values.
pub open spec fn rows_result(result: Result<Vec<Nvtree>, Error>) -> Result<Seq<Tree>, Seq<char>> {
    match result {
        Ok(rows) => Ok(wire::contents(rows@)),
        Err(error) => Err(error@),
    }
}

/// The rows for datasets, from what `zfs` prints.
pub fn zfs_rows(succeeded: bool, stdout: &[u8], stderr: &[u8]) -> (result: Result<
    Vec<Nvtree>,
    Error,
>)
    ensures
        rows_result(result) == zfs_rows_spec(succeeded, stdout@, stderr@),
{
    if !succeeded {
        return Err(
            Error::new(owned("zfs failed: ").concat(trim(lossy(stderr).as_str()).as_str())),
        );
    }
    let names = zfs_names(lossy(stdout).as_str());
    let mut rows: Vec<Nvtree> = Vec::new();
    let mut index: usize = 0;
    while index < names.len()
        invariant
            index <= names@.len(),
            rows@.len() == index,
            forall|i: int|
                0 <= i < index ==> wire::content(#[trigger] rows@[i]) == name_row(names@[i]@),
        decreases names@.len() - index,
    {
        let mut row = nvtree::nvtree_create(0);
        let _ = nvtree::nvtree_add(&mut row, nvtree::nvtree_string("name", names[index].as_str()));
        rows.push(row);
        index += 1;
    }
    proof {
        assert(wire::contents(rows@) =~= text::views(names@).map_values(
            |name: Seq<char>| name_row(name),
        ));
    }
    Ok(rows)
}

/// What is listed of a jail.
pub open spec fn jail_row(info: JailInfo) -> Tree {
    let named = name_row(info.name@);
    let hosted = wire::put(named, "hostname"@, Value::Text(info.hostname@));
    let addressed = wire::put(hosted, "ips"@, Value::Text(info.ips@));
    wire::put(addressed, "status"@, Value::Text(info.status@))
}

/// The rows for jails.
pub fn jail_rows(jails: &Vec<JailInfo>) -> (rows: Vec<Nvtree>)
    ensures
        wire::contents(rows@) == jails@.map_values(|info: JailInfo| jail_row(info)),
{
    let mut rows: Vec<Nvtree> = Vec::new();
    let mut index: usize = 0;
    while index < jails.len()
        invariant
            index <= jails@.len(),
            rows@.len() == index,
            forall|i: int|
                0 <= i < index ==> wire::content(#[trigger] rows@[i]) == jail_row(jails@[i]),
        decreases jails@.len() - index,
    {
        let info = &jails[index];
        let mut row = nvtree::nvtree_create(0);
        let _ = nvtree::nvtree_add(&mut row, nvtree::nvtree_string("name", info.name.as_str()));
        let _ = nvtree::nvtree_add(
            &mut row,
            nvtree::nvtree_string("hostname", info.hostname.as_str()),
        );
        let _ = nvtree::nvtree_add(&mut row, nvtree::nvtree_string("ips", info.ips.as_str()));
        let _ = nvtree::nvtree_add(&mut row, nvtree::nvtree_string("status", info.status.as_str()));
        rows.push(row);
        index += 1;
    }
    proof {
        assert(wire::contents(rows@) =~= jails@.map_values(|info: JailInfo| jail_row(info)));
    }
    rows
}

/// How it is put that a virtual machine runs, or does not.
pub open spec fn status_spec(running: bool) -> Seq<char> {
    if running {
        "running"@
    } else {
        "stopped"@
    }
}

/// How it is put that a virtual machine runs, or does not.
pub fn status_text(running: bool) -> (status: &'static str)
    ensures
        status@ == status_spec(running),
{
    if running {
        "running"
    } else {
        "stopped"
    }
}

/// What is listed of a virtual machine.
pub open spec fn vm_row(vm: (String, bool)) -> Tree {
    wire::put(name_row(vm.0@), "status"@, Value::Text(status_spec(vm.1)))
}

/// The rows for virtual machines.
pub fn vm_rows(vms: &Vec<(String, bool)>) -> (rows: Vec<Nvtree>)
    ensures
        wire::contents(rows@) == vms@.map_values(|vm: (String, bool)| vm_row(vm)),
{
    let mut rows: Vec<Nvtree> = Vec::new();
    let mut index: usize = 0;
    while index < vms.len()
        invariant
            index <= vms@.len(),
            rows@.len() == index,
            forall|i: int|
                0 <= i < index ==> wire::content(#[trigger] rows@[i]) == vm_row(vms@[i]),
        decreases vms@.len() - index,
    {
        let vm = &vms[index];
        let mut row = nvtree::nvtree_create(0);
        let _ = nvtree::nvtree_add(&mut row, nvtree::nvtree_string("name", vm.0.as_str()));
        let _ = nvtree::nvtree_add(&mut row, nvtree::nvtree_string("status", status_text(vm.1)));
        rows.push(row);
        index += 1;
    }
    proof {
        assert(wire::contents(rows@) =~= vms@.map_values(|vm: (String, bool)| vm_row(vm)));
    }
    rows
}

/// The name of what is listed.
pub open spec fn listing_name(listing: Listing) -> Seq<char> {
    match listing {
        Listing::Datasets => "datasets"@,
        Listing::Volumes => "volumes"@,
        Listing::Jails => "jails"@,
        Listing::Vms => "vms"@,
    }
}

/// How a request for a list is answered.
pub fn list_answer(listing: Listing, rows: Vec<Nvtree>) -> (tree: Nvtree)
    ensures
        wire::content(tree) == protocol::rows_spec(
            listing_name(listing),
            wire::contents(rows@),
        ),
{
    match listing {
        Listing::Datasets => protocol::datasets_success(rows),
        Listing::Volumes => protocol::volumes_success(rows),
        Listing::Jails => protocol::jails_success(rows),
        Listing::Vms => protocol::vms_success(rows),
    }
}

// ---------------------------------------------------------------------------
// Laws
// ---------------------------------------------------------------------------

proof fn lemma_needed_paths()
    ensures
        needed_paths().len() == 7,
        needed_paths()[0] == "/var"@,
        needed_paths()[1] == "/var/priosun"@,
        needed_paths()[2] == "/var/priosun/base"@,
        needed_paths()[3] == "/var/priosun/jail"@,
        needed_paths()[4] == "/var/priosun/vm"@,
        needed_paths()[5] == "/var/priosun/seed"@,
        needed_paths()[6] == "/var/priosun/images"@,
{
}

proof fn lemma_datasets(config: Config, checks: Seq<Result<bool, Seq<char>>>, count: int, i: int)
    requires
        checks.len() == 7,
        0 <= i < count <= 7,
        forall|j: int| 0 <= j < 7 ==> (#[trigger] checks[j]) is Ok,
    ensures
        checks[i] == Ok::<bool, Seq<char>>(false) ==> datasets_plan(config, checks, count).performs(
            Act::Run(dataset_command(config, i)),
        ),
        count > 1 ==> datasets_plan(config, checks, count).calls(
            "zfs"@,
            seq!["set"@, "compression=lz4"@, needed_dataset(config, 1)],
        ),
        forall|action: Act| #[trigger]
            datasets_plan(config, checks, count).performs(action) ==> action is Run,
    decreases count,
{
    broadcast use plan::group_plan_contents;

    let index = count - 1;
    assert(checks[index] is Ok);
    if index > 0 {
        let k = if i < index {
            i
        } else {
            0
        };
        lemma_datasets(config, checks, index, k);
    } else {
        assert(datasets_plan(config, checks, 0) == plan::no_steps());
    }
}

/// Everything that the daemon keeps has its dataset: each one that is missing is created, the
/// first as nothing but a parent and the second where everything is kept, which is compressed.
/// What a dataset lies in comes before it.
#[verifier::spinoff_prover]
#[verifier::rlimit(40)]
pub proof fn law_needed_datasets_are_created(
    config: Config,
    checks: Seq<Result<bool, Seq<char>>>,
    i: int,
)
    requires
        checks.len() == 7,
        0 <= i < 7,
        forall|j: int| 0 <= j < 7 ==> (#[trigger] checks[j]) is Ok,
    ensures
        ({
            let plan = datasets_plan(config, checks, 7);
            let pool = config.zfs_pool@;
            let missing = checks[i] == Ok::<bool, Seq<char>>(false);
            &&& missing && i == 0 ==> plan.calls(
                "zfs"@,
                seq!["create"@, "-o"@, "mountpoint=none"@, pool + "/var"@],
            )
            &&& missing && i == 1 ==> plan.calls(
                "zfs"@,
                seq!["create"@, "-o"@, "mountpoint=/var/priosun"@, pool + "/var/priosun"@],
            )
            &&& missing && i == 2 ==> plan.calls(
                "zfs"@,
                seq!["create"@, pool + "/var/priosun/base"@],
            )
            &&& missing && i == 3 ==> plan.calls(
                "zfs"@,
                seq!["create"@, pool + "/var/priosun/jail"@],
            )
            &&& missing && i == 4 ==> plan.calls(
                "zfs"@,
                seq!["create"@, pool + "/var/priosun/vm"@],
            )
            &&& missing && i == 5 ==> plan.calls(
                "zfs"@,
                seq!["create"@, pool + "/var/priosun/seed"@],
            )
            &&& missing && i == 6 ==> plan.calls(
                "zfs"@,
                seq!["create"@, pool + "/var/priosun/images"@],
            )
            &&& plan.calls("zfs"@, seq!["set"@, "compression=lz4"@, pool + "/var/priosun"@])
            &&& forall|action: Act| #[trigger] plan.performs(action) ==> !(action is Fail)
        }),
{
    lemma_needed_paths();
    lemma_datasets(config, checks, 7, i);
    let plan = datasets_plan(config, checks, 7);
    if checks[i] == Ok::<bool, Seq<char>>(false) {
        let k = choose|k: int|
            0 <= k < plan.steps.len() && (#[trigger] plan.steps[k]).action == Act::Run(
                dataset_command(config, i),
            );
        assert(plan.steps[k].action->Run_0.program == "zfs"@);
    }
}

/// A service counts as provisioned once everything was applied, on the dataset of its own
/// container; where there is no such container, nothing is recorded. Without a directory or a
/// provisioner nothing is done at all.
pub proof fn law_provisioning_is_recorded(
    directory: Seq<char>,
    container: Seq<char>,
    name: Seq<char>,
    provisioners: Seq<Seq<char>>,
    config: Config,
    files: Snapshot,
)
    requires
        jail::is_component(name),
    ensures
        ({
            let result = provision_spec(directory, container, name, provisioners, config, files);
            let plan = result->Ok_0;
            let applied = service::provision_plan(directory, provisioners).steps;
            let last = plan.steps.last();
            &&& result is Ok <==> snapshot::is_dir_at(files, directory) && provisioners.len() > 0
            &&& result is Ok ==> plan.steps.drop_last() == applied
            &&& result is Ok && container == "jail"@ ==> plan::is_call(
                last.action,
                "zfs"@,
                seq![
                    "set"@,
                    "priosun:provisioned=true"@,
                    config.zfs_pool@ + ("/var/priosun/jail/"@ + name),
                ],
            )
            &&& result is Ok && container == "vm"@ ==> plan::is_call(
                last.action,
                "zfs"@,
                seq![
                    "set"@,
                    "priosun:provisioned=true"@,
                    config.zfs_pool@ + ("/var/priosun/vm/"@ + name),
                ],
            )
            &&& result is Ok && container != "jail"@ && container != "vm"@ ==> last.action is Fail
        }),
{
    lemma_command_names();
    jail::law_jails_have_their_places(name, config);
    bhyve::law_vms_have_their_places(name, config);
    reveal_strlit("priosun:");
    reveal_strlit("provisioned");
    reveal_strlit("=");
    reveal_strlit("true");
    reveal_strlit("priosun:provisioned=true");
    assert("priosun:"@ + "provisioned"@ + "="@ + "true"@ =~= "priosun:provisioned=true"@);
    let applied = service::provision_plan(directory, provisioners).steps;
    let result = provision_spec(directory, container, name, provisioners, config, files);
    if result is Ok {
        assert(result->Ok_0.steps.drop_last() =~= applied);
    }
}

/// The source of a service under development is seen in its jail as the system source.
pub proof fn law_source_is_shown_in_the_jail(name: Seq<char>, config: Config)
    requires
        jail::is_component(name),
    ensures
        source_path(name) == "/var/priosun/jail/"@ + name + "/usr/src"@,
{
    jail::law_jails_have_their_places(name, config);
    reveal_strlit("usr/src");
    reveal_strlit("/usr/src");
    let root = "/var/priosun/jail/"@ + name;
    assert(root.last() == name.last());
    assert(name.contains(name.last()));
    assert(root.push('/') + "usr/src"@ =~= root + "/usr/src"@);
}

/// A request goes where its command says; to start something and attach to it goes its own
/// way, but only where both are asked for.
pub proof fn law_requests_go_their_way(request: Tree, command: Seq<char>)
    requires
        request::text_at(request, "command"@) == Some(command),
    ensures
        ({
            let route = route_spec(request);
            let attach = request::flag_at(request, "attach"@) == Some(true);
            let start = request::flag_at(request, "start"@) == Some(true);
            &&& command == "provision"@ <==> route == Route::Provision
            &&& command == "network-init"@ <==> route == Route::NetworkInit
            &&& command == "attach"@ <==> route == Route::Attach
            &&& command == "list"@ <==> route == Route::List
            &&& route == Route::StartAttach <==> attach && (command == "start"@ || (command
                == "create"@ && start))
        }),
{
    lemma_command_names();
    reveal_strlit("provision");
    reveal_strlit("network-init");
    reveal_strlit("attach");
    reveal_strlit("list");
    reveal_strlit("start");
    reveal_strlit("create");
    assert("provision"@.len() == 9 && "network-init"@.len() == 12 && "attach"@.len() == 6);
    assert("list"@.len() == 4 && "start"@.len() == 5 && "create"@.len() == 6);
}

proof fn lemma_listing_names()
    ensures
        "datasets"@ != "volumes"@ && "datasets"@ != "jails"@ && "datasets"@ != "vms"@,
        "volumes"@ != "jails"@ && "volumes"@ != "vms"@ && "jails"@ != "vms"@,
        "all"@ != "datasets"@ && "all"@ != "volumes"@ && "all"@ != "jails"@ && "all"@ != "vms"@,
{
    reveal_strlit("datasets");
    reveal_strlit("volumes");
    reveal_strlit("jails");
    reveal_strlit("vms");
    reveal_strlit("all");
    assert("datasets"@.len() == 8 && "volumes"@.len() == 7 && "jails"@.len() == 5);
    assert("vms"@.len() == 3 && "all"@.len() == 3 && "vms"@[0] == 'v' && "all"@[0] == 'a');
}

/// What is listed is what was asked for: each kind of resource is asked for by the name under
/// which it is answered, and nothing else can be asked for.
pub proof fn law_listings_have_their_names(listing: Listing, resource: Seq<char>)
    ensures
        listing_spec(listing_name(listing)) == Ok::<Listing, Seq<char>>(listing),
        listing_spec(resource) matches Ok(found) ==> listing_name(found) == resource,
        listing_spec("datasets"@) == Ok::<Listing, Seq<char>>(Listing::Datasets),
        listing_spec("volumes"@) == Ok::<Listing, Seq<char>>(Listing::Volumes),
        listing_spec("jails"@) == Ok::<Listing, Seq<char>>(Listing::Jails),
        listing_spec("vms"@) == Ok::<Listing, Seq<char>>(Listing::Vms),
        listing_spec("all"@) is Err,
{
    lemma_listing_names();
}

/// Datasets are listed by name, and volumes likewise but none besides.
pub proof fn law_datasets_are_asked_for()
    ensures
        plan::is_call(
            Act::Run(zfs_list_spec(false)),
            "zfs"@,
            seq!["list"@, "-H"@, "-o"@, "name"@],
        ),
        plan::is_call(
            Act::Run(zfs_list_spec(true)),
            "zfs"@,
            seq!["list"@, "-H"@, "-o"@, "name"@, "-t"@, "volume"@],
        ),
{
}

proof fn lemma_listed_names(lines: Seq<Seq<char>>)
    ensures
        forall|name: Seq<char>| #[trigger]
            listed_names(lines).contains(name) <==> name.len() > 0 && exists|i: int|
                0 <= i < lines.len() && text::trim_spec(#[trigger] lines[i]) == name,
    decreases lines.len(),
{
    if lines.len() > 0 {
        let front = lines.drop_last();
        lemma_listed_names(front);
        let found = listed_names(front);
        assert forall|name: Seq<char>| #[trigger]
            listed_names(lines).contains(name) <==> name.len() > 0 && exists|i: int|
                0 <= i < lines.len() && text::trim_spec(#[trigger] lines[i]) == name by {
            if listed_names(lines).contains(name) {
                let k = listed_names(lines).index_of(name);
                if k < found.len() {
                    assert(found[k] == name);
                    assert(found.contains(name));
                    let i = choose|i: int|
                        0 <= i < front.len() && text::trim_spec(#[trigger] front[i]) == name;
                    assert(lines[i] == front[i]);
                } else {
                    assert(text::trim_spec(lines[lines.len() - 1]) == name);
                }
            }
            if name.len() > 0 && exists|i: int|
                0 <= i < lines.len() && text::trim_spec(#[trigger] lines[i]) == name {
                let i = choose|i: int|
                    0 <= i < lines.len() && text::trim_spec(#[trigger] lines[i]) == name;
                if i < front.len() {
                    assert(front[i] == lines[i]);
                    assert(found.contains(name));
                    let k = found.index_of(name);
                    assert(listed_names(lines)[k] == name);
                } else {
                    assert(listed_names(lines)[found.len() as int] == name);
                }
            }
        }
    }
}

/// Every line that is printed of the datasets is listed, without white space around it, and no
/// blank one is; each of them is a row with its name. Where listing fails there is no row.
pub proof fn law_printed_names_are_listed(
    succeeded: bool,
    stdout: Seq<u8>,
    stderr: Seq<u8>,
    name: Seq<char>,
)
    ensures
        ({
            let result = zfs_rows_spec(succeeded, stdout, stderr);
            let lines = text::lines_spec(text::lossy_spec(stdout));
            let names = listed_names(lines);
            &&& result is Ok <==> succeeded
            &&& names.contains(name) <==> name.len() > 0 && exists|i: int|
                0 <= i < lines.len() && text::trim_spec(#[trigger] lines[i]) == name
            &&& result is Ok ==> result->Ok_0.len() == names.len() && forall|i: int|
                0 <= i < names.len() ==> request::text_at(#[trigger] result->Ok_0[i], "name"@)
                    == Some(names[i])
        }),
{
    lemma_listed_names(text::lines_spec(text::lossy_spec(stdout)));
}

/// A jail and a virtual machine are told with what was found out of them, each thing in its own
/// field; whether something runs has two words that differ.
pub proof fn law_rows_hold_what_was_found(info: JailInfo, vm: (String, bool))
    ensures
        request::text_at(jail_row(info), "name"@) == Some(info.name@),
        request::text_at(jail_row(info), "hostname"@) == Some(info.hostname@),
        request::text_at(jail_row(info), "ips"@) == Some(info.ips@),
        request::text_at(jail_row(info), "status"@) == Some(info.status@),
        request::text_at(vm_row(vm), "name"@) == Some(vm.0@),
        vm.1 ==> request::text_at(vm_row(vm), "status"@) == Some("running"@),
        !vm.1 ==> request::text_at(vm_row(vm), "status"@) == Some("stopped"@),
        "running"@ != "stopped"@,
{
    reveal_strlit("name");
    reveal_strlit("hostname");
    reveal_strlit("ips");
    reveal_strlit("status");
    reveal_strlit("running");
    reveal_strlit("stopped");
    assert("name"@.len() == 4 && "hostname"@.len() == 8 && "ips"@.len() == 3);
    assert("status"@.len() == 6 && "running"@[0] == 'r' && "stopped"@[0] == 's');
}

/// Each resource that is to be started is started as what it is, in the order of the list.
pub proof fn law_listed_resources_are_started(list: Seq<(ResourceKind, Seq<char>)>, i: int)
    requires
        0 <= i < list.len(),
    ensures
        start_jobs(list).len() == list.len(),
        list[i].0 == ResourceKind::Jail ==> start_jobs(list)[i] == JobModel::StartJail(list[i].1),
        list[i].0 == ResourceKind::Vm ==> start_jobs(list)[i] == (JobModel::StartVm {
            name: list[i].1,
            seed: false,
        }),
{
}

/// What happens while the daemon works is what the client prints: a message as a line, a
/// command as a line with its arguments behind it, and output where it was written to.
pub proof fn law_events_reach_the_client(event: cmd::Event, detached: bool)
    ensures
        ({
            let reply = protocol::reply_spec(Ok(event_tree(event)), detached);
            let data = text::lossy_spec(event.data);
            let line = "$ "@ + (event.program + " "@ + text::join_spec(event.args, " "@));
            let shown = match event.stream {
                CommandStream::Message => protocol::Printed::Line(data),
                CommandStream::Command => protocol::Printed::Line(line),
                CommandStream::Stdout => protocol::Printed::Stdout(data),
                CommandStream::Stderr => protocol::Printed::Stderr(data),
            };
            reply matches protocol::ReplyModel::Show { output, allow_detach } && !allow_detach
                && output =~= seq![shown]
        }),
{
    let line = event.program + " "@ + text::join_spec(event.args, " "@);
    let data = text::lossy_spec(event.data);
    reveal_strlit("");
    reveal_strlit(" ");
    protocol::law_events_are_printed(line, None, None, false, data, detached);
    protocol::law_events_are_printed(""@, Some(event.data), None, false, data, detached);
    protocol::law_events_are_printed(""@, None, Some(event.data), false, data, detached);
}

/// A client is gone exactly if one of the errors on the way is one of the three that tell so.
pub proof fn law_disconnects_are_known(numbers: Seq<i32>, codes: DisconnectCodes, i: int)
    requires
        0 <= i < numbers.len(),
    ensures
        numbers[i] == codes.broken_pipe || numbers[i] == codes.reset || numbers[i]
            == codes.not_connected ==> tells_of_disconnect(numbers, codes),
        (forall|j: int|
            0 <= j < numbers.len() ==> #[trigger] numbers[j] != codes.broken_pipe && numbers[j]
                != codes.reset && numbers[j] != codes.not_connected) ==> !tells_of_disconnect(
            numbers,
            codes,
        ),
{
}

/// The source of a service is shown where its jail looks for it, from the directory that was
/// named and no other, and the unmounting undoes exactly that mount. A directory that is not
/// there is named in the refusal.
pub proof fn law_source_is_mounted_and_unmounted(
    name: Seq<char>,
    directory: Seq<char>,
    files: Snapshot,
)
    ensures
        snapshot::is_dir_at(files, directory) <==> source_mount_spec(name, directory, files) is Ok,
        source_mount_spec(name, directory, files) matches Ok(plan) ==> {
            &&& plan.performs(Act::CreateDir(source_path(name)))
            &&& plan.steps.last().action matches Act::Run(command) && {
                &&& command.program == "mount"@
                &&& command.args =~= seq!["-t"@, "nullfs"@, directory, source_path(name)]
            }
            &&& forall|i: int| 0 <= i < plan.steps.len() ==> !(#[trigger] plan.steps[i]).optional
        },
        source_mount_spec(name, directory, files) matches Err(reason) ==> text::ends_with_spec(
            reason,
            directory,
        ),
        source_unmount_spec(name).steps.len() == 1,
        source_unmount_spec(name).steps[0].optional,
        source_unmount_spec(name).steps[0].action matches Act::Run(command) && {
            &&& command.program == "umount"@
            &&& command.args =~= seq![source_path(name)]
        },
{
    if snapshot::is_dir_at(files, directory) {
        let plan = source_mount_spec(name, directory, files)->Ok_0;
        assert(plan.steps[0].action == Act::CreateDir(source_path(name)));
    } else {
        let reason = source_mount_spec(name, directory, files)->Err_0;
        assert(reason.skip(reason.len() - directory.len()) =~= directory);
    }
}

/// A service in a jail has the dataset of that jail, and one in a virtual machine that of
/// the machine; any other container is named in the refusal.
pub proof fn law_service_has_the_dataset_of_its_container(
    container: Seq<char>,
    name: Seq<char>,
    config: Config,
)
    ensures
        service_dataset_spec("jail"@, name, config) == Ok::<Seq<char>, Seq<char>>(
            jail::jail_dataset(config, name),
        ),
        service_dataset_spec("vm"@, name, config) == Ok::<Seq<char>, Seq<char>>(
            bhyve::vm_dataset_spec(config, name),
        ),
        container != "jail"@ && container != "vm"@ ==> (service_dataset_spec(
            container,
            name,
            config,
        ) matches Err(reason) && text::ends_with_spec(reason, container)),
{
    assert("jail"@.len() == 4 && "vm"@.len() == 2) by {
        reveal_strlit("jail");
        reveal_strlit("vm");
    }
    let reason = "unsupported container: "@ + container;
    assert(reason.skip(reason.len() - container.len()) =~= container);
}

/// What is done is answered with the status 0, and what is not with its reason, so that the
/// two are never taken for one another.
pub proof fn law_answers_tell_the_outcome(reason: Seq<char>)
    ensures
        request::text_at(answer_spec(Err(reason)), "error"@) == Some(reason),
        wire::get(answer_spec(Err(reason)), "response"@) is None,
        request::text_at(answer_spec(Ok(())), "error"@) is None,
        wire::get(answer_spec(Ok(())), "response"@) matches Some(Value::Nested(payload))
            && request::number_at(payload, "status"@) == Some(0u64),
{
    protocol::law_response_holds_the_outcome(0, Seq::empty(), Seq::empty());
    reveal_strlit("error");
    reveal_strlit("response");
    assert("error"@.len() == 5 && "response"@.len() == 8);
}

/// A request is carried out with its own arguments, and with the configuration that the
/// daemon has.
pub proof fn law_requests_keep_the_configuration(request: Tree, path: Seq<char>)
    ensures
        child_args_spec(request, None) == request::request_to_args_spec(request),
        child_args_spec(request, Some(path)) is Ok <==> request::request_to_args_spec(request) is Ok,
        child_args_spec(request, Some(path)) matches Ok(args) ==> {
            let own = request::request_to_args_spec(request)->Ok_0;
            &&& args.take(own.len() as int) == own
            &&& args.len() == own.len() + 2
            &&& request::has_option(args, "--config"@, path)
            &&& args.last() == path
        },
{
    if let Ok(own) = request::request_to_args_spec(request) {
        let args = own.push("--config"@).push(path);
        assert(args.take(own.len() as int) =~= own);
        assert(args[own.len() as int] == "--config"@ && args[(own.len() + 1) as int] == path);
    }
}

/// A service of which it cannot be read whether it was provisioned is not taken for one that
/// was: the last thing of its start is a failure, which names what was read.
pub proof fn law_unreadable_provisioning_is_told(
    start: Seq<JobModel>,
    request: Tree,
    name: Seq<char>,
    value: Seq<char>,
)
    requires
        value != "true"@,
        value != "false"@,
    ensures
        ({
            let jobs = provision_jobs(start, request, name, Some(value));
            &&& jobs.len() == start.len() + 1
            &&& jobs.drop_last() == start
            &&& jobs.last() matches JobModel::Fail(reason) && text::contains_spec(reason, value)
        }),
{
    broadcast use text::group_texts_within;

    let jobs = provision_jobs(start, request, name, Some(value));
    assert(jobs.drop_last() =~= start);
}

/// A dataset that cannot be looked up stops the daemon, with the reason.
pub proof fn law_unknown_datasets_are_told(
    config: Config,
    checks: Seq<Result<bool, Seq<char>>>,
    count: int,
    i: int,
)
    requires
        0 <= i < count <= checks.len(),
        checks[i] is Err,
    ensures
        exists|k: int|
            0 <= k < datasets_plan(config, checks, count).steps.len() && ends_for(
                (#[trigger] datasets_plan(config, checks, count).steps[k]),
                checks[i]->Err_0,
            ),
    decreases count,
{
    let plan = datasets_plan(config, checks, count);
    let earlier = datasets_plan(config, checks, count - 1);
    if i < count - 1 {
        law_unknown_datasets_are_told(config, checks, count - 1, i);
        let k = choose|k: int|
            0 <= k < earlier.steps.len() && ends_for(
                (#[trigger] earlier.steps[k]),
                checks[i]->Err_0,
            );
        assert(plan.steps[k] == earlier.steps[k]);
    } else {
        let reason = checks[i]->Err_0;
        let step = plan.steps[earlier.steps.len() as int];
        let told = step.action->Fail_0;
        assert(told.skip(told.len() - reason.len()) =~= reason);
        assert(ends_for(step, reason));
    }
}

/// Whether a step ends a plan for a reason.
pub open spec fn ends_for(step: plan::StepModel, reason: Seq<char>) -> bool {
    !step.optional && step.action is Fail && text::ends_with_spec(step.action->Fail_0, reason)
}

} // verus!
