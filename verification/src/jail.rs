//! Jails: how they are created, started, stopped and destroyed.

use vstd::prelude::*;

use crate::bhyve;
use crate::config;
use crate::config::{Config, BASE_DATASET_PATH, JAIL_BASE, LOG_BASE};
use crate::dependency;
use crate::dependency::{ResourceKind, Stored};
use crate::error;
use crate::error::Error;
use crate::launch;
use crate::launch::Launch;
use crate::metadata;
use crate::plan;
use crate::plan::{command, Act, Action, Actions, Command, CommandLine, Plan, PlanModel, Recovery};
use crate::snapshot;
use crate::snapshot::Snapshot;
use crate::sort;
use crate::sort::{sort_by_name, Named};
use crate::text;
use crate::text::{blank, bool_text, contains_char, decimal, join, join_path, owned, parse_number, same, starts_with};

verus! {

// ---------------------------------------------------------------------------
// Names and places
// ---------------------------------------------------------------------------

/// The root directory of a jail.
pub open spec fn jail_path(name: Seq<char>) -> Seq<char> {
    text::join_path_spec(JAIL_BASE@, name)
}

/// The root directory of a base jail.
pub open spec fn base_path(name: Seq<char>) -> Seq<char> {
    text::join_path_spec(BASE_DATASET_PATH@, name)
}

/// The root directory of a jail.
pub fn root_path(name: &str) -> (path: String)
    ensures
        path@ == jail_path(name@),
{
    join_path(JAIL_BASE, name)
}

/// The root directory of a base jail.
pub fn base_root_path(name: &str) -> (path: String)
    ensures
        path@ == base_path(name@),
{
    join_path(BASE_DATASET_PATH, name)
}

/// The dataset of a jail.
pub open spec fn jail_dataset(config: Config, name: Seq<char>) -> Seq<char> {
    config::dataset_spec(config.zfs_pool@, jail_path(name))
}

/// The dataset of a jail.
pub fn dataset(name: &str, config: &Config) -> (result: String)
    ensures
        result@ == jail_dataset(*config, name@),
{
    config::dataset(config, root_path(name).as_str())
}

/// Whether a jail is managed under this name: its root is a directory.
pub fn path_exists(name: &str, files: &Snapshot) -> (result: bool)
    ensures
        result == snapshot::is_dir_at(*files, jail_path(name@)),
{
    files.is_dir(root_path(name).as_str())
}

/// Fails if the root directory of a new jail is already there.
pub fn check(_name: &str, chroot: &str, files: &Snapshot) -> (result: Result<(), Error>)
    ensures
        match result {
            Ok(_) => !snapshot::exists_at(*files, chroot@),
            Err(error) => snapshot::exists_at(*files, chroot@) && error@ == chroot@
                + " already exists!"@,
        },
{
    if files.present(chroot) {
        return Err(Error::new(owned(chroot).concat(" already exists!")));
    }
    Ok(())
}

/// Whether a name is a single component of a path.
pub open spec fn is_component(name: Seq<char>) -> bool {
    name.len() > 0 && name != "."@ && name != ".."@ && !name.contains('/')
}

/// Whether a name is a single component of a path.
pub fn is_single_component(name: &str) -> (result: bool)
    ensures
        result == is_component(name@),
{
    !(name.is_empty() || same(name, ".") || same(name, "..") || contains_char(name, '/'))
}

/// Fails if a name is not a single component of a path.
pub fn validate_name(name: &str) -> (result: Result<(), Error>)
    ensures
        match result {
            Ok(_) => is_component(name@),
            Err(error) => !is_component(name@) && error@ == "invalid jail name: "@ + name@,
        },
{
    if is_single_component(name) {
        Ok(())
    } else {
        Err(Error::new(owned("invalid jail name: ").concat(name)))
    }
}

/// The host name of a jail on a host.
pub open spec fn qualified_spec(name: Seq<char>, host: Seq<char>) -> Seq<char> {
    name + "."@ + host
}

/// The host name of a jail on a host.
pub fn qualified_hostname(name: &str, host: &str) -> (result: String)
    ensures
        result@ == qualified_spec(name@, host@),
{
    owned(name).concat(".").concat(host)
}

// ---------------------------------------------------------------------------
// Versions
// ---------------------------------------------------------------------------

/// A FreeBSD release: its major and minor number, and the number that the kernel
/// reports for it.
pub type Release = (u32, u32, i32);

/// The release that a version names.
pub open spec fn version_spec(version: Seq<char>) -> Result<Release, Seq<char>> {
    match text::split_once_spec(version, '.') {
        None => Err(
            "invalid FreeBSD version "@ + text::quoted_spec(version)
                + "; expected MAJOR.MINOR"@,
        ),
        Some((major_text, minor_text)) => match text::number_spec(major_text, u32::MAX as nat) {
            Err(_) => Err("invalid FreeBSD major version: "@ + major_text),
            Ok(major) => match text::number_spec(minor_text, u32::MAX as nat) {
                Err(_) => Err("invalid FreeBSD minor version: "@ + minor_text),
                Ok(minor) => if minor > 99 {
                    Err("invalid FreeBSD minor version: "@ + text::decimal_spec(minor))
                } else if major * 100_000 + minor * 1_000 > i32::MAX {
                    Err("FreeBSD version is too large: "@ + version)
                } else {
                    Ok(
                        (
                            major as u32,
                            minor as u32,
                            (major * 100_000 + minor * 1_000) as i32,
                        ),
                    )
                },
            },
        },
    }
}

/// Reads a version of the form MAJOR.MINOR.
pub fn parse_version(version: &str) -> (result: Result<Release, Error>)
    ensures
        error::outcome(result) == version_spec(version@),
{
    let (major_text, minor_text) = match text::split_once(version, '.') {
        Some(parts) => parts,
        None => {
            return Err(
                Error::new(
                    owned("invalid FreeBSD version ").concat(text::quoted(version).as_str()).concat(
                        "; expected MAJOR.MINOR",
                    ),
                ),
            );
        },
    };
    let major: u64 = match parse_number(major_text.as_str(), 4294967295) {
        Ok(major) => major,
        Err(_) => {
            return Err(
                Error::new(owned("invalid FreeBSD major version: ").concat(major_text.as_str())),
            );
        },
    };
    let minor: u64 = match parse_number(minor_text.as_str(), 4294967295) {
        Ok(minor) => minor,
        Err(_) => {
            return Err(
                Error::new(owned("invalid FreeBSD minor version: ").concat(minor_text.as_str())),
            );
        },
    };
    if minor > 99 {
        return Err(
            Error::new(
                owned("invalid FreeBSD minor version: ").concat(decimal(minor).as_str()),
            ),
        );
    }
    let date: u64 = major * 100_000 + minor * 1_000;
    if date > 2147483647 {
        return Err(Error::new(owned("FreeBSD version is too large: ").concat(version)));
    }
    Ok((major as u32, minor as u32, date as i32))
}

/// Of two releases that can be read, the later has the larger number.
pub proof fn law_release_numbers_are_ordered(first: Seq<char>, second: Seq<char>)
    requires
        version_spec(first) is Ok,
        version_spec(second) is Ok,
    ensures
        ({
            let (major, minor, date) = version_spec(first)->Ok_0;
            let (other_major, other_minor, other_date) = version_spec(second)->Ok_0;
            &&& (date < other_date) == (major < other_major || (major == other_major && minor
                < other_minor))
            &&& (date == other_date) == (major == other_major && minor == other_minor)
        }),
{
}

/// A release that is written as MAJOR.MINOR is read as that release, whose number has the
/// major number in front of five digits and the minor number in front of the last three.
pub proof fn law_release_reads_back(major: nat, minor: nat)
    requires
        minor <= 99,
        major * 100_000 + minor * 1_000 <= 2147483647,
    ensures
        version_spec(text::decimal_spec(major) + "."@ + text::decimal_spec(minor)) == Ok::<
            Release,
            Seq<char>,
        >((major as u32, minor as u32, (major * 100_000 + minor * 1_000) as i32)),
{
    reveal_strlit(".");
    assert("."@ =~= seq!['.']);
    text::law_decimal_reads_back(major, u32::MAX as nat);
    text::law_decimal_reads_back(minor, u32::MAX as nat);
    assert forall|i: int| 0 <= i < text::decimal_spec(major).len() implies text::decimal_spec(
        major,
    )[i] != '.' by {
        assert(text::is_digit(text::decimal_spec(major)[i]));
    }
    text::lemma_split_once_joined(text::decimal_spec(major), '.', text::decimal_spec(minor));
}

// ---------------------------------------------------------------------------
// Creating a jail
// ---------------------------------------------------------------------------

/// What a new jail is to be.
#[derive(Debug)]
pub struct CreateOptions {
    pub name: String,
    /// The package set to install.
    pub set: Option<String>,
    /// The release to install.
    pub version: Option<String>,
    /// Whether this is a base jail, that others are cloned from.
    pub base: bool,
    /// The base jail to clone.
    pub from_base: Option<String>,
    /// The key that the provision user logs in with.
    pub ssh_key: Option<String>,
}

/// The root directory of a new jail.
pub open spec fn new_root(options: CreateOptions) -> Seq<char> {
    if options.base {
        base_path(options.name@)
    } else {
        jail_path(options.name@)
    }
}

/// The root directory of a new jail.
pub fn create_root(options: &CreateOptions) -> (path: String)
    ensures
        path@ == new_root(*options),
{
    if options.base {
        base_root_path(options.name.as_str())
    } else {
        root_path(options.name.as_str())
    }
}

/// Why a jail cannot be created on a host, if it cannot.
pub open spec fn create_obstacle(
    options: CreateOptions,
    host: Result<Seq<char>, Seq<char>>,
    files: Snapshot,
) -> Option<Seq<char>> {
    let name = options.name@;
    if let Err(reason) = host {
        Some(reason)
    } else if snapshot::exists_at(files, new_root(options)) {
        Some(new_root(options) + " already exists!"@)
    } else if !options.base && snapshot::exists_at(files, base_path(name)) {
        Some("a base jail with this name already exists: "@ + name)
    } else if bhyve::is_managed(name, files) {
        Some("a VM or VM directory with this name already exists: "@ + name)
    } else {
        match options.from_base {
            None => None,
            Some(source) => if !is_component(source@) {
                Some("invalid jail name: "@ + source@)
            } else if !snapshot::exists_at(files, base_path(source@)) {
                Some("base jail does not exist: "@ + source@)
            } else {
                None
            },
        }
    }
}

fn find_obstacle(
    options: &CreateOptions,
    host: &Result<String, Error>,
    files: &Snapshot,
) -> (result: Option<String>)
    ensures
        match result {
            Some(reason) => create_obstacle(*options, error::text_outcome(*host), *files) == Some(reason@),
            None => create_obstacle(*options, error::text_outcome(*host), *files) is None,
        },
{
    let name = options.name.as_str();
    if let Err(error) = host {
        return Some(error.message.clone());
    }
    let root = create_root(options);
    if let Err(error) = check(name, root.as_str(), files) {
        return Some(error.message);
    }
    if !options.base && files.present(base_root_path(name).as_str()) {
        return Some(owned("a base jail with this name already exists: ").concat(name));
    }
    if bhyve::path_exists(name, files) {
        return Some(owned("a VM or VM directory with this name already exists: ").concat(name));
    }
    match &options.from_base {
        None => None,
        Some(source) => {
            if let Err(error) = validate_name(source.as_str()) {
                return Some(error.message);
            }
            if !files.present(base_root_path(source.as_str()).as_str()) {
                return Some(owned("base jail does not exist: ").concat(source.as_str()));
            }
            None
        },
    }
}

/// The paths that decide whether a jail can be created.
pub open spec fn probed_paths(options: CreateOptions) -> Seq<Seq<char>> {
    let own = seq![
        new_root(options),
        base_path(options.name@),
        bhyve::vm_path(options.name@),
    ];
    match options.from_base {
        Some(source) => own.push(base_path(source@)),
        None => own,
    }
}

/// The paths that decide whether a jail can be created.
pub fn create_probes(options: &CreateOptions) -> (paths: Vec<String>)
    ensures
        text::views(paths@) == probed_paths(*options),
{
    let mut paths: Vec<String> = Vec::new();
    paths.push(create_root(options));
    paths.push(base_root_path(options.name.as_str()));
    paths.push(bhyve::vm_root_path(options.name.as_str()));
    match &options.from_base {
        Some(source) => paths.push(base_root_path(source.as_str())),
        None => {},
    }
    proof {
        assert(text::views(paths@) =~= probed_paths(*options));
    }
    paths
}

/// The package set that is installed.
pub open spec fn selected_set(options: CreateOptions) -> Seq<char> {
    match options.set {
        Some(set) => set@,
        None => "FreeBSD-set-base-jail"@,
    }
}

fn package_set(options: &CreateOptions) -> (set: String)
    ensures
        set@ == selected_set(*options),
{
    match &options.set {
        Some(set) => owned(set.as_str()),
        None => owned("FreeBSD-set-base-jail"),
    }
}

/// The release that a new jail gets, where one is named.
pub open spec fn release_of(options: CreateOptions) -> Option<Result<Release, Seq<char>>> {
    match options.version {
        Some(version) => Some(version_spec(version@)),
        None => None,
    }
}

/// The package repositories of a new jail.
pub open spec fn repositories_text(release: Option<Release>) -> Seq<char> {
    let repository = match release {
        Some((_, minor, _)) => "base_release_"@ + text::decimal_spec(minor as nat),
        None => "base_release_${VERSION_MINOR}"@,
    };
    "FreeBSD-ports: { url: \"pkg+https://pkg.FreeBSD.org/${ABI}/latest\" }\nFreeBSD-base: {\n  url: \"pkg+https://pkg.FreeBSD.org/${ABI}/"@
        + repository + "\",\n  enabled: yes\n}\n\n"@
}

fn repositories(release: Option<Release>) -> (result: String)
    ensures
        result@ == repositories_text(release),
{
    let repository = match release {
        Some((_, minor, _)) => owned("base_release_").concat(decimal(minor as u64).as_str()),
        None => owned("base_release_${VERSION_MINOR}"),
    };
    owned(
        "FreeBSD-ports: { url: \"pkg+https://pkg.FreeBSD.org/${ABI}/latest\" }\nFreeBSD-base: {\n  url: \"pkg+https://pkg.FreeBSD.org/${ABI}/",
    ).concat(repository.as_str()).concat("\",\n  enabled: yes\n}\n\n")
}

/// The dataset of a new jail: cloned from a base jail, or made afresh.
pub open spec fn dataset_plan(start: PlanModel, options: CreateOptions, config: Config) -> PlanModel {
    match options.from_base {
        Some(source) => start.tell("Cloning the base jail ZFS dataset"@).run(
            plan::line("zfs"@).arg("clone"@).arg(
                config::dataset_spec(config.zfs_pool@, base_path(source@)) + "@base"@,
            ).arg(jail_dataset(config, options.name@)),
        ),
        None => start.tell("Creating the jail ZFS dataset"@).run(
            plan::line("zfs"@).arg("create"@).arg("-p"@).arg(
                config::dataset_spec(config.zfs_pool@, new_root(options)),
            ),
        ),
    }
}

/// The properties that a new jail is recorded with. A base jail has none.
pub open spec fn record_plan(start: PlanModel, options: CreateOptions, config: Config) -> PlanModel {
    if options.base {
        start
    } else {
        let dataset = jail_dataset(config, options.name@);
        start.run(metadata::set_spec(dataset, "enabled"@, "true"@)).run(
            metadata::set_spec(dataset, "dependencies"@, ""@),
        ).run(metadata::set_spec(dataset, "provisioned"@, "false"@))
    }
}

/// The root of a new jail, up to the point where packages can be installed into it.
pub open spec fn root_plan(start: PlanModel, root: Seq<char>, release: Option<Release>, set: Seq<char>) -> PlanModel {
    let repositories = text::join_path_spec(root, "usr/local/etc/pkg/repos"@);
    let devices = text::join_path_spec(root, "dev"@);
    start.tell("Configuring package repositories"@).must(Act::CreateDir(repositories)).must(
        Act::Write {
            path: text::join_path_spec(repositories, "FreeBSD.conf"@),
            text: repositories_text(release),
        },
    ).tell("Installing trusted package keys"@).must(
        Act::CopyTree {
            from: "/usr/share/keys"@,
            to: text::join_path_spec(root, "usr/share/keys"@),
        },
    ).tell("Mounting devfs for jail initialization"@).must(Act::CreateDir(devices)).run(
        mount_spec("devfs"@, "devfs"@, devices),
    ).tell("Installing "@ + set + " and dhcpcd"@)
}

/// The command that mounts a file system.
pub open spec fn mount_spec(kind: Seq<char>, source: Seq<char>, target: Seq<char>) -> CommandLine {
    plan::line("mount"@).arg("-t"@).arg(kind).arg(source).arg(target)
}

/// The command that mounts a file system.
pub fn mount(kind: &str, source: &str, target: &str) -> (result: Command)
    ensures
        result@ == mount_spec(kind@, source@, target@),
{
    command("mount").arg("-t").arg(kind).arg(source).arg(target)
}

/// The command that unmounts a file system.
pub open spec fn umount_spec(target: Seq<char>) -> CommandLine {
    plan::line("umount"@).arg(target)
}

/// The command that unmounts a file system.
pub fn umount(target: &str) -> (result: Command)
    ensures
        result@ == umount_spec(target@),
{
    command("umount").arg(target)
}

/// The first part of creating a jail: checks, the dataset, and a root that packages can
/// be installed into.
pub open spec fn create_spec(
    options: CreateOptions,
    config: Config,
    host: Result<Seq<char>, Seq<char>>,
    files: Snapshot,
) -> Result<PlanModel, Seq<char>> {
    match release_of(options) {
        Some(Err(error)) => Err(error),
        release => {
            let release = match release {
                Some(Ok(release)) => Some(release),
                _ => None,
            };
            let start = plan::no_steps().tell("Creating jail "@ + options.name@);
            match create_obstacle(options, host, files) {
                Some(reason) => Ok(start.fail(reason)),
                None => {
                    let made = dataset_plan(start, options, config).must(
                        Act::CreateDir(new_root(options)),
                    );
                    let recorded = record_plan(made, options, config);
                    Ok(root_plan(recorded, new_root(options), release, selected_set(options)))
                },
            }
        },
    }
}

/// What a plan is, or why there is none.
pub open spec fn plan_result(result: Result<Plan, Error>) -> Result<PlanModel, Seq<char>> {
    match result {
        Ok(plan) => Ok(plan@),
        Err(error) => Err(error@),
    }
}

fn read_release(options: &CreateOptions) -> (result: Result<Option<Release>, Error>)
    ensures
        match result {
            Ok(release) => match release_of(*options) {
                None => release is None,
                Some(read) => release matches Some(value) && read == Ok::<Release, Seq<char>>(
                    value,
                ),
            },
            Err(error) => release_of(*options) == Some(Err::<Release, Seq<char>>(error@)),
        },
{
    match &options.version {
        None => Ok(None),
        Some(version) => match parse_version(version.as_str()) {
            Ok(release) => Ok(Some(release)),
            Err(error) => Err(error),
        },
    }
}

/// Plans the first part of creating a jail. What would stand in the way, the plan says
/// when it is carried out; a version that cannot be read is refused at once.
pub fn create(
    options: &CreateOptions,
    config: &Config,
    host: &Result<String, Error>,
    files: &Snapshot,
) -> (result: Result<Plan, Error>)
    ensures
        plan_result(result) == create_spec(*options, *config, error::text_outcome(*host), *files),
{
    let release = match read_release(options) {
        Ok(release) => release,
        Err(error) => {
            return Err(error);
        },
    };
    let name = options.name.as_str();
    let start = Plan::new().tell(owned("Creating jail ").concat(name));
    if let Some(reason) = find_obstacle(options, host, files) {
        return Ok(start.fail(reason));
    }
    let root = create_root(options);
    let path = root.as_str();
    let own = dataset(name, config);
    let made = match &options.from_base {
        Some(source) => {
            let snapshot = config::dataset(
                config,
                base_root_path(source.as_str()).as_str(),
            ).concat("@base");
            start.tell(owned("Cloning the base jail ZFS dataset")).run(
                command("zfs").arg("clone").arg(snapshot.as_str()).arg(own.as_str()),
            )
        },
        None => start.tell(owned("Creating the jail ZFS dataset")).run(
            command("zfs").arg("create").arg("-p").arg(config::dataset(config, path).as_str()),
        ),
    };
    let made = made.must(Action::CreateDir(owned(path)));
    let recorded = if options.base {
        made
    } else {
        made.run(metadata::set(own.as_str(), "enabled", "true")).run(
            metadata::set(own.as_str(), "dependencies", ""),
        ).run(metadata::set(own.as_str(), "provisioned", "false"))
    };
    let pkg_repos = join_path(path, "usr/local/etc/pkg/repos");
    let devices = join_path(path, "dev");
    let set = package_set(options);
    Ok(
        recorded.tell(owned("Configuring package repositories")).must(
            Action::CreateDir(owned(pkg_repos.as_str())),
        ).must(
            Action::Write {
                path: join_path(pkg_repos.as_str(), "FreeBSD.conf"),
                text: repositories(release),
            },
        ).tell(owned("Installing trusted package keys")).must(
            Action::CopyTree {
                from: owned("/usr/share/keys"),
                to: join_path(path, "usr/share/keys"),
            },
        ).tell(owned("Mounting devfs for jail initialization")).must(
            Action::CreateDir(owned(devices.as_str())),
        ).run(mount("devfs", "devfs", devices.as_str())).tell(
            owned("Installing ").concat(set.as_str()).concat(" and dhcpcd"),
        ),
    )
}

/// The command that installs the packages of a new jail.
pub open spec fn install_spec(
    root: Seq<char>,
    release: Option<(Release, Seq<char>)>,
    set: Seq<char>,
) -> CommandLine {
    let start = plan::line("pkg"@).arg("-r"@).arg(root);
    let chosen = match release {
        Some(((major, _, date), arch)) => start.arg("-o"@).arg(
            "ABI=FreeBSD:"@ + text::decimal_spec(major as nat) + ":"@ + arch,
        ).arg("-o"@).arg("OSVERSION="@ + text::signed_spec(date as int)),
        None => start,
    };
    chosen.arg("install"@).arg("-y"@).arg(set).arg("dhcpcd"@)
}

/// The second part of creating a jail: its packages and, but for a base jail, the user
/// that provisions it.
pub open spec fn packages_spec(options: CreateOptions, arch: Seq<char>) -> Result<
    PlanModel,
    Seq<char>,
> {
    match release_of(options) {
        Some(Err(error)) => Err(error),
        release => {
            let chosen = match release {
                Some(Ok(release)) => Some((release, text::trim_spec(arch))),
                _ => None,
            };
            let root = new_root(options);
            let installed = plan::no_steps().run(install_spec(root, chosen, selected_set(options)));
            if options.base {
                Ok(installed)
            } else {
                Ok(
                    installed.tell("Creating the provision user"@).must(
                        Act::RunInput {
                            command: plan::line("pw"@).arg("-R"@).arg(root).arg("useradd"@).arg(
                                "provision"@,
                            ).arg("-m"@).arg("-s"@).arg("/bin/sh"@).arg("-G"@).arg("wheel"@).arg(
                                "-h"@,
                            ).arg("0"@),
                            input: "provision\n"@,
                        },
                    ).tell("Setting a random root password"@),
                )
            }
        },
    }
}

/// Plans the second part of creating a jail. The architecture is what `uname -p`
/// printed; it counts only where a version is named.
pub fn create_packages(options: &CreateOptions, arch: &str) -> (result: Result<Plan, Error>)
    ensures
        plan_result(result) == packages_spec(*options, arch@),
{
    let release = match read_release(options) {
        Ok(release) => release,
        Err(error) => {
            return Err(error);
        },
    };
    let root = create_root(options);
    let path = root.as_str();
    let start = command("pkg").arg("-r").arg(path);
    let chosen = match release {
        Some((major, _, date)) => {
            let abi = owned("ABI=FreeBSD:").concat(decimal(major as u64).as_str()).concat(":").concat(
                text::trim(arch).as_str(),
            );
            let version = owned("OSVERSION=").concat(text::signed(date).as_str());
            start.arg("-o").arg(abi.as_str()).arg("-o").arg(version.as_str())
        },
        None => start,
    };
    let installed = Plan::new().run(
        chosen.arg("install").arg("-y").arg(package_set(options).as_str()).arg("dhcpcd"),
    );
    if options.base {
        return Ok(installed);
    }
    let user = command("pw").arg("-R").arg(path).arg("useradd").arg("provision").arg("-m").arg(
        "-s",
    ).arg("/bin/sh").arg("-G").arg("wheel").arg("-h").arg("0");
    Ok(
        installed.tell(owned("Creating the provision user")).must(
            Action::RunInput { command: user, input: owned("provision\n") },
        ).tell(owned("Setting a random root password")),
    )
}

/// Whether a key is one line that is not blank.
pub open spec fn is_key(key: Seq<char>) -> bool {
    !key.contains('\n') && !key.contains('\r') && text::trim_spec(key).len() > 0
}

/// Whether a key is one line that is not blank.
pub fn valid_key(key: &str) -> (result: bool)
    ensures
        result == is_key(key@),
{
    !contains_char(key, '\n') && !contains_char(key, '\r') && !blank(key)
}

/// The login key of the provision user.
pub open spec fn key_plan(start: PlanModel, root: Seq<char>, key: Seq<char>) -> PlanModel {
    if !is_key(key) {
        start.fail("SSH public key must be a single non-empty line"@)
    } else {
        let directory = text::join_path_spec(root, "home/provision/.ssh"@);
        start.must(Act::CreateDir(directory)).must(
            Act::Write {
                path: text::join_path_spec(directory, "authorized_keys"@),
                text: key + "\n"@,
            },
        ).run(
            plan::line("chown"@).arg("-R"@).arg("provision:provision"@).arg(directory),
        ).run(plan::line("chmod"@).arg("700"@).arg(directory))
    }
}

fn install_ssh_key(start: Plan, chroot: &str, key: &str) -> (plan: Plan)
    ensures
        plan@ == key_plan(start@, chroot@, key@),
{
    if !valid_key(key) {
        return start.fail(owned("SSH public key must be a single non-empty line"));
    }
    let directory = join_path(chroot, "home/provision/.ssh");
    let path = directory.as_str();
    start.must(Action::CreateDir(owned(path))).must(
        Action::Write {
            path: join_path(path, "authorized_keys"),
            text: owned(key).concat("\n"),
        },
    ).run(command("chown").arg("-R").arg("provision:provision").arg(path)).run(
        command("chmod").arg("700").arg(path),
    )
}

/// The command that sets a variable of a jail's boot configuration.
pub open spec fn sysrc_spec(root: Seq<char>, assignment: Seq<char>) -> CommandLine {
    plan::line("sysrc"@).arg("-R"@).arg(root).arg(assignment)
}

fn sysrc(root: &str, assignment: &str) -> (result: Command)
    ensures
        result@ == sysrc_spec(root@, assignment@),
{
    command("sysrc").arg("-R").arg(root).arg(assignment)
}

/// The kind of address that a name server is given by.
#[derive(Debug, Clone, Copy, PartialEq, Eq, Structural)]
pub enum Family {
    V4,
    V6,
    /// What is no address, such as a name.
    Other,
}

/// A name server that is to be used in place of the bridge.
#[derive(Debug)]
pub struct Nameserver {
    pub address: String,
    pub family: Family,
}

/// Whether a name server counts under a configuration.
pub open spec fn is_usable(config: Config, server: Nameserver) -> bool {
    match server.family {
        Family::V4 => config.use_ipv4,
        Family::V6 => config.use_ipv6,
        Family::Other => true,
    }
}

/// The lines for the name servers that count.
pub open spec fn nameserver_lines(config: Config, servers: Seq<Nameserver>) -> Seq<char>
    decreases servers.len(),
{
    if servers.len() == 0 {
        ""@
    } else {
        let before = nameserver_lines(config, servers.drop_last());
        if is_usable(config, servers.last()) {
            before + ("nameserver "@ + servers.last().address@ + "\n"@)
        } else {
            before
        }
    }
}

/// The resolver configuration of a new jail: the name servers that were asked for, or
/// else the bridge, by each address family that is in use.
pub open spec fn resolver_text(config: Config, servers: Seq<Nameserver>) -> Seq<char> {
    if servers.len() > 0 {
        nameserver_lines(config, servers)
    } else {
        let first = if config.use_ipv4 {
            ""@ + ("nameserver "@ + config.bridge_ip@ + "\n"@)
        } else {
            ""@
        };
        if config.use_ipv6 {
            first + ("nameserver "@ + config.ipv6_prefix@ + config.bridge_ip6@ + "\n"@)
        } else {
            first
        }
    }
}

/// The resolver configuration of a new jail.
pub fn resolver(config: &Config, servers: &Vec<Nameserver>) -> (result: String)
    ensures
        result@ == resolver_text(*config, servers@),
{
    let mut result = owned("");
    if servers.len() > 0 {
        let mut index: usize = 0;
        while index < servers.len()
            invariant
                index <= servers@.len(),
                result@ == nameserver_lines(*config, servers@.take(index as int)),
            decreases servers@.len() - index,
        {
            proof {
                assert(servers@.take(index + 1).drop_last() =~= servers@.take(index as int));
            }
            let usable = match servers[index].family {
                Family::V4 => config.use_ipv4,
                Family::V6 => config.use_ipv6,
                Family::Other => true,
            };
            if usable {
                let line = owned("nameserver ").concat(servers[index].address.as_str()).concat(
                    "\n",
                );
                result.append(line.as_str());
            }
            index += 1;
        }
        proof {
            assert(servers@.take(index as int) =~= servers@);
        }
        return result;
    }
    if config.use_ipv4 {
        let line = owned("nameserver ").concat(config.bridge_ip.as_str()).concat("\n");
        result.append(line.as_str());
    }
    if config.use_ipv6 {
        let line = owned("nameserver ").concat(config.ipv6_prefix.as_str()).concat(
            config.bridge_ip6.as_str(),
        ).concat("\n");
        result.append(line.as_str());
    }
    result
}

/// The network configuration of a new jail.
pub open spec fn dhcp_plan(start: PlanModel, root: Seq<char>, config: Config) -> PlanModel {
    if config.dhcp@ == "dhcpcd"@ {
        let client = text::join_path_spec(root, "usr/local/etc/dhcpcd.conf"@);
        start.must(
            Act::Append {
                path: text::join_path_spec(root, "etc/rc.conf"@),
                text: "dhclient_program=\"/usr/local/sbin/dhcpcd\"\n"@,
                create: false,
            },
        ).must(Act::CreateDir(text::join_path_spec(root, "usr/local/etc"@))).must(
            Act::Replace { path: client, wanted: "#hostname"@, by: "hostname"@ },
        ).must(
            Act::Append { path: client, text: "ipv6ra_noautoconf\n"@, create: true },
        ).run(sysrc_spec(root, "ifconfig_eth0=SYNCDHCP"@))
    } else {
        start.run(sysrc_spec(root, "ifconfig_eth0=SYNCDHCP"@)).run(
            sysrc_spec(
                root,
                "ifconfig_eth0_ipv6=inet6 -ifdisabled accept_rtadv auto_linklocal"@,
            ),
        )
    }
}

fn configure_dhcp(start: Plan, root: &str, config: &Config) -> (plan: Plan)
    ensures
        plan@ == dhcp_plan(start@, root@, *config),
{
    if same(config.dhcp.as_str(), "dhcpcd") {
        let client = join_path(root, "usr/local/etc/dhcpcd.conf");
        start.must(
            Action::Append {
                path: join_path(root, "etc/rc.conf"),
                text: owned("dhclient_program=\"/usr/local/sbin/dhcpcd\"\n"),
                create: false,
            },
        ).must(Action::CreateDir(join_path(root, "usr/local/etc"))).must(
            Action::Replace {
                path: owned(client.as_str()),
                wanted: owned("#hostname"),
                by: owned("hostname"),
            },
        ).must(
            Action::Append { path: client, text: owned("ipv6ra_noautoconf\n"), create: true },
        ).run(sysrc(root, "ifconfig_eth0=SYNCDHCP"))
    } else {
        start.run(sysrc(root, "ifconfig_eth0=SYNCDHCP")).run(
            sysrc(root, "ifconfig_eth0_ipv6=inet6 -ifdisabled accept_rtadv auto_linklocal"),
        )
    }
}

/// The last part of creating a jail: its passwords, its services, its network, and the
/// snapshot that makes a base jail.
pub open spec fn finish_spec(
    options: CreateOptions,
    config: Config,
    host: Seq<char>,
    password: Seq<char>,
    servers: Seq<Nameserver>,
) -> PlanModel {
    let root = new_root(options);
    let start = if options.base {
        plan::no_steps()
    } else {
        let secured = plan::no_steps().must(
            Act::RunInput {
                command: plan::line("pw"@).arg("-R"@).arg(root).arg("usermod"@).arg("root"@).arg(
                    "-h"@,
                ).arg("0"@),
                input: password + "\n"@,
            },
        );
        match options.ssh_key {
            Some(key) => key_plan(secured, root, key@),
            None => secured,
        }
    };
    let resolved = start.tell("Configuring DNS"@).must(
        Act::Copy {
            from: "/etc/resolv.conf"@,
            to: text::join_path_spec(root, "etc/resolv.conf"@),
        },
    );
    let proxied = if config.pkg_proxy@ != "no"@ {
        resolved.must(
            Act::Append {
                path: text::join_path_spec(root, "usr/local/etc/pkg.conf"@),
                text: "pkg_env : { http_proxy: \"http://"@ + config.pkg_proxy@ + "/\" }\n"@,
                create: true,
            },
        )
    } else {
        resolved
    };
    let named = proxied.tell("Configuring hostname and jail services"@).run(
        sysrc_spec(root, "hostname="@ + qualified_spec(options.name@, host)),
    ).run(sysrc_spec(root, "sshd_enable=YES"@)).run(
        sysrc_spec(root, "clear_tmp_enable=YES"@),
    ).tell("Configuring MAC rules"@).must(
        Act::Append {
            path: text::join_path_spec(root, "etc/sysctl.conf"@),
            text: "security.mac.do.rules=gid=0:any\n"@,
            create: true,
        },
    ).must(
        Act::Write {
            path: text::join_path_spec(root, "etc/resolv.conf"@),
            text: resolver_text(config, servers),
        },
    ).tell("Configuring jail networking"@);
    let done = dhcp_plan(named, root, config).tell("Configuring PF"@).must(
        Act::Append {
            path: text::join_path_spec(root, "etc/rc.conf"@),
            text: "pf_enable=\"YES\"\npflog_enable=\"YES\"\n"@,
            create: false,
        },
    ).must(
        Act::CopyTemplate {
            name: "pf-jail.conf"@,
            to: text::join_path_spec(root, "etc/pf.conf"@),
        },
    ).must(
        Act::Write { path: text::join_path_spec(root, "etc/pf.services"@), text: ""@ },
    ).tell("Unmounting devfs and finishing jail initialization"@).run(
        umount_spec(text::join_path_spec(root, "dev"@)),
    );
    if options.base {
        done.tell("Creating the base jail snapshot"@).run(
            plan::line("zfs"@).arg("snapshot"@).arg(
                config::dataset_spec(config.zfs_pool@, root) + "@base"@,
            ),
        )
    } else {
        done
    }
}

/// Plans the last part of creating a jail.
pub fn create_finish(
    options: &CreateOptions,
    config: &Config,
    host: &str,
    password: &str,
    servers: &Vec<Nameserver>,
) -> (plan: Plan)
    ensures
        plan@ == finish_spec(*options, *config, host@, password@, servers@),
{
    let chroot = create_root(options);
    let root = chroot.as_str();
    let start = if options.base {
        Plan::new()
    } else {
        let secured = Plan::new().must(
            Action::RunInput {
                command: command("pw").arg("-R").arg(root).arg("usermod").arg("root").arg("-h").arg(
                    "0",
                ),
                input: owned(password).concat("\n"),
            },
        );
        match &options.ssh_key {
            Some(key) => install_ssh_key(secured, root, key.as_str()),
            None => secured,
        }
    };
    let resolved = start.tell(owned("Configuring DNS")).must(
        Action::Copy { from: owned("/etc/resolv.conf"), to: join_path(root, "etc/resolv.conf") },
    );
    let proxied = if !same(config.pkg_proxy.as_str(), "no") {
        resolved.must(
            Action::Append {
                path: join_path(root, "usr/local/etc/pkg.conf"),
                text: owned("pkg_env : { http_proxy: \"http://").concat(
                    config.pkg_proxy.as_str(),
                ).concat("/\" }\n"),
                create: true,
            },
        )
    } else {
        resolved
    };
    let hostname = owned("hostname=").concat(
        qualified_hostname(options.name.as_str(), host).as_str(),
    );
    let named = proxied.tell(owned("Configuring hostname and jail services")).run(
        sysrc(root, hostname.as_str()),
    ).run(sysrc(root, "sshd_enable=YES")).run(sysrc(root, "clear_tmp_enable=YES")).tell(
        owned("Configuring MAC rules"),
    ).must(
        Action::Append {
            path: join_path(root, "etc/sysctl.conf"),
            text: owned("security.mac.do.rules=gid=0:any\n"),
            create: true,
        },
    ).must(
        Action::Write {
            path: join_path(root, "etc/resolv.conf"),
            text: resolver(config, servers),
        },
    ).tell(owned("Configuring jail networking"));
    let done = configure_dhcp(named, root, config).tell(owned("Configuring PF")).must(
        Action::Append {
            path: join_path(root, "etc/rc.conf"),
            text: owned("pf_enable=\"YES\"\npflog_enable=\"YES\"\n"),
            create: false,
        },
    ).must(
        Action::CopyTemplate { name: owned("pf-jail.conf"), to: join_path(root, "etc/pf.conf") },
    ).must(
        Action::Write { path: join_path(root, "etc/pf.services"), text: owned("") },
    ).tell(owned("Unmounting devfs and finishing jail initialization")).run(
        umount(join_path(root, "dev").as_str()),
    );
    if options.base {
        done.tell(owned("Creating the base jail snapshot")).run(
            command("zfs").arg("snapshot").arg(
                config::dataset(config, root).concat("@base").as_str(),
            ),
        )
    } else {
        done
    }
}

/// A stage of creating a jail.
#[derive(Debug, Clone, Copy, PartialEq, Eq, Structural)]
pub enum CreateStage {
    /// What `create` plans.
    Root,
    /// The architecture of the host is asked for with `arch_command`.
    Architecture,
    /// What `create_packages` plans.
    Packages,
    /// A password is made up.
    Password,
    /// What `create_finish` plans.
    Finish,
}

/// The stages of creating a jail: the architecture counts only where a version is named, and
/// a base jail gets no password.
pub open spec fn create_stages_spec(options: CreateOptions) -> Seq<CreateStage> {
    let begun = if options.version is Some {
        seq![CreateStage::Root, CreateStage::Architecture]
    } else {
        seq![CreateStage::Root]
    };
    begun + if options.base {
        seq![CreateStage::Packages, CreateStage::Finish]
    } else {
        seq![CreateStage::Packages, CreateStage::Password, CreateStage::Finish]
    }
}

/// The stages of creating a jail, in their order. A stage that fails is the last.
pub fn create_stages(options: &CreateOptions) -> (stages: Vec<CreateStage>)
    ensures
        stages@ == create_stages_spec(*options),
{
    let mut stages: Vec<CreateStage> = Vec::new();
    stages.push(CreateStage::Root);
    if options.version.is_some() {
        stages.push(CreateStage::Architecture);
    }
    stages.push(CreateStage::Packages);
    if !options.base {
        stages.push(CreateStage::Password);
    }
    stages.push(CreateStage::Finish);
    proof {
        assert(stages@ =~= create_stages_spec(*options));
    }
    stages
}

/// The command that prints the architecture of the host.
pub fn arch_command() -> (result: Command)
    ensures
        result@ == plan::line("uname"@).arg("-p"@),
{
    command("uname").arg("-p")
}

/// The places of a jail and of a base jail: directories of the name below different ones.
pub proof fn law_jails_have_their_places(name: Seq<char>, config: Config)
    requires
        is_component(name),
    ensures
        jail_path(name) == "/var/priosun/jail/"@ + name,
        base_path(name) == "/var/priosun/base/"@ + name,
        jail_path(name) != base_path(name),
{
    reveal_strlit("/var/priosun/jail");
    reveal_strlit("/var/priosun/base");
    reveal_strlit("/var/priosun/jail/");
    reveal_strlit("/var/priosun/base/");
    assert("/var/priosun/jail"@.push('/') =~= "/var/priosun/jail/"@);
    assert("/var/priosun/base"@.push('/') =~= "/var/priosun/base/"@);
    assert(jail_path(name)[13] == 'j' && base_path(name)[13] == 'b');
}

/// Wherever a release MAJOR.MINOR is named, for a jail and a base jail alike, its packages are
/// those of that very release: before anything is installed, `pkg` is given the ABI of its major number
/// on the architecture of the host, and the number of the release. What is installed is the
/// set that was asked for, or the usual one, and the DHCP client.
pub proof fn law_named_release_is_installed(
    options: CreateOptions,
    arch: Seq<char>,
    first: Seq<char>,
    second: Seq<char>,
    major: nat,
    minor: nat,
)
    requires
        options.version matches Some(version) && version@ == first + "."@ + second,
        !first.contains('.'),
        text::number_spec(first, u32::MAX as nat) == Ok::<nat, text::NumberError>(major),
        text::number_spec(second, u32::MAX as nat) == Ok::<nat, text::NumberError>(minor),
        minor <= 99,
        major * 100_000 + minor * 1_000 <= 2147483647,
    ensures
        ({
            let plan = packages_spec(options, arch)->Ok_0;
            &&& packages_spec(options, arch) is Ok
            &&& plan.steps.len() > 0 && !plan.steps[0].optional
            &&& plan::is_call(
                plan.steps[0].action,
                "pkg"@,
                seq![
                    "-r"@,
                    new_root(options),
                    "-o"@,
                    "ABI=FreeBSD:"@ + text::decimal_spec(major) + ":"@ + text::trim_spec(arch),
                    "-o"@,
                    "OSVERSION="@ + text::decimal_spec(major * 100_000 + minor * 1_000),
                    "install"@,
                    "-y"@,
                    match options.set {
                        Some(set) => set@,
                        None => "FreeBSD-set-base-jail"@,
                    },
                    "dhcpcd"@,
                ],
            )
        }),
{
    reveal_strlit(".");
    assert("."@ =~= seq!['.']);
    text::lemma_split_once_joined(first, '.', second);
    let plan = packages_spec(options, arch)->Ok_0;
    assert(plan.steps[0].action->Run_0.args.len() == 10);
}

/// A version that cannot be read installs nothing, and where none is named the packages are
/// those of the release of the host: `pkg` is told neither an ABI nor a release.
pub proof fn law_host_release_is_installed(options: CreateOptions, arch: Seq<char>)
    ensures
        options.version matches Some(version) && version_spec(version@) is Err ==> packages_spec(
            options,
            arch,
        ) is Err,
        options.version is None ==> {
            let plan = packages_spec(options, arch)->Ok_0;
            &&& packages_spec(options, arch) is Ok
            &&& plan.steps.len() > 0 && !plan.steps[0].optional
            &&& plan::is_call(
                plan.steps[0].action,
                "pkg"@,
                seq![
                    "-r"@,
                    new_root(options),
                    "install"@,
                    "-y"@,
                    match options.set {
                        Some(set) => set@,
                        None => "FreeBSD-set-base-jail"@,
                    },
                    "dhcpcd"@,
                ],
            )
        },
{
    if options.version is None {
        let plan = packages_spec(options, arch)->Ok_0;
        assert(plan.steps[0].action->Run_0.args.len() == 6);
    }
}

/// A base jail gets the packages that a jail of the same release and set gets: the commands
/// differ in nothing but the root that is installed into. Only the jail gets a provision user
/// besides, who may become root and has a password to begin with.
pub proof fn law_base_jails_get_the_same_packages(
    plain: CreateOptions,
    base: CreateOptions,
    arch: Seq<char>,
)
    requires
        !plain.base,
        base.base,
        plain.name@ == base.name@,
        text::optional_view(plain.set) == text::optional_view(base.set),
        text::optional_view(plain.version) == text::optional_view(base.version),
        packages_spec(plain, arch) is Ok,
    ensures
        packages_spec(base, arch) is Ok,
        ({
            let own = packages_spec(plain, arch)->Ok_0;
            let other = packages_spec(base, arch)->Ok_0;
            let first = own.steps[0].action->Run_0;
            let second = other.steps[0].action->Run_0;
            &&& own.steps.len() > 1 && other.steps.len() == 1
            &&& own.steps[0].action is Run && other.steps[0].action is Run
            &&& first.program == second.program
            &&& first.args.len() == second.args.len()
            &&& first.args[1] == jail_path(plain.name@)
            &&& second.args[1] == base_path(plain.name@)
            &&& forall|i: int|
                0 <= i < first.args.len() && i != 1 ==> #[trigger] first.args[i] == second.args[i]
            &&& own.feeds(
                "pw"@,
                seq![
                    "-R"@,
                    jail_path(plain.name@),
                    "useradd"@,
                    "provision"@,
                    "-m"@,
                    "-s"@,
                    "/bin/sh"@,
                    "-G"@,
                    "wheel"@,
                    "-h"@,
                    "0"@,
                ],
                "provision\n"@,
            )
        }),
{
    let own = packages_spec(plain, arch)->Ok_0;
    let command = own.steps[2].action->RunInput_command;
    assert(command.args.len() == 11);
}

/// A new jail gets its own dataset in the pool, or a clone of the base jail that it names, and
/// a directory; it is recorded as started with the daemon, as depending on nothing and as not
/// provisioned, which a base jail is not. Packages can be installed into it then: the
/// repositories are those of the release, and the keys that they are trusted by are those of
/// the host.
#[verifier::spinoff_prover]
#[verifier::rlimit(40)]
pub proof fn law_new_jail_is_recorded(
    options: CreateOptions,
    config: Config,
    host: Result<Seq<char>, Seq<char>>,
    files: Snapshot,
    plan: PlanModel,
)
    requires
        create_spec(options, config, host, files) == Ok::<PlanModel, Seq<char>>(plan),
        create_obstacle(options, host, files) is None,
        is_component(options.name@),
    ensures
        ({
            let root = new_root(options);
            let dataset = config.zfs_pool@ + ("/var/priosun/jail/"@ + options.name@);
            &&& options.base ==> root == "/var/priosun/base/"@ + options.name@
            &&& !options.base ==> root == "/var/priosun/jail/"@ + options.name@
            &&& options.from_base is None ==> plan.calls(
                "zfs"@,
                seq!["create"@, "-p"@, config.zfs_pool@ + root],
            )
            &&& options.from_base matches Some(source) ==> plan.calls(
                "zfs"@,
                seq![
                    "clone"@,
                    config.zfs_pool@ + ("/var/priosun/base/"@ + source@) + "@base"@,
                    dataset,
                ],
            )
            &&& plan.performs(Act::CreateDir(root))
            &&& !options.base <==> plan.calls("zfs"@, seq!["set"@, "priosun:enabled=true"@, dataset])
            &&& !options.base <==> plan.calls("zfs"@, seq!["set"@, "priosun:dependencies="@, dataset])
            &&& !options.base <==> plan.calls(
                "zfs"@,
                seq!["set"@, "priosun:provisioned=false"@, dataset],
            )
            &&& plan.performs(
                Act::CopyTree { from: "/usr/share/keys"@, to: root + "/usr/share/keys"@ },
            )
            &&& plan.writes(
                root + "/usr/local/etc/pkg/repos/FreeBSD.conf"@,
                match release_of(options) {
                    Some(Ok((_, minor, _))) => "url: \"pkg+https://pkg.FreeBSD.org/${ABI}/base_release_"@
                        + text::decimal_spec(minor as nat) + "\",\n  enabled: yes\n"@,
                    _ => "url: \"pkg+https://pkg.FreeBSD.org/${ABI}/base_release_${VERSION_MINOR}\",\n  enabled: yes\n"@,
                },
            )
            &&& plan.calls("mount"@, seq!["-t"@, "devfs"@, "devfs"@, root + "/dev"@])
        }),
{
    broadcast use plan::group_plan_contents;

    law_jails_have_their_places(options.name@, config);
    lemma_property_texts();
    let root = new_root(options);
    lemma_root_files(options.name@, root, config);
    if let Some(source) = options.from_base {
        law_jails_have_their_places(source@, config);
    }
    let release = match release_of(options) {
        Some(Ok(release)) => Some(release),
        _ => None,
    };
    lemma_repositories(release);
    reveal_strlit("create");
    reveal_strlit("clone");
    reveal_strlit("set");
    reveal_strlit("zfs");
    reveal_strlit("mount");
    assert("create"@.len() == 6 && "clone"@.len() == 5 && "set"@.len() == 3);
    assert("zfs"@.len() == 3 && "mount"@.len() == 5);
}

proof fn lemma_property_texts()
    ensures
        metadata::property_spec("enabled"@) + "="@ + "true"@ == "priosun:enabled=true"@,
        metadata::property_spec("dependencies"@) + "="@ + ""@ == "priosun:dependencies="@,
        metadata::property_spec("provisioned"@) + "="@ + "false"@ == "priosun:provisioned=false"@,
        metadata::property_spec("enabled"@) + "="@ + "false"@ == "priosun:enabled=false"@,
{
    reveal_strlit("priosun:");
    reveal_strlit("=");
    reveal_strlit("");
    reveal_strlit("true");
    reveal_strlit("false");
    reveal_strlit("enabled");
    reveal_strlit("dependencies");
    reveal_strlit("provisioned");
    reveal_strlit("priosun:enabled=true");
    reveal_strlit("priosun:enabled=false");
    reveal_strlit("priosun:dependencies=");
    reveal_strlit("priosun:provisioned=false");
    assert("priosun:"@ + "enabled"@ + "="@ + "true"@ =~= "priosun:enabled=true"@);
    assert("priosun:"@ + "enabled"@ + "="@ + "false"@ =~= "priosun:enabled=false"@);
    assert("priosun:"@ + "dependencies"@ + "="@ + ""@ =~= "priosun:dependencies="@);
    assert("priosun:"@ + "provisioned"@ + "="@ + "false"@ =~= "priosun:provisioned=false"@);
}

proof fn lemma_below(root: Seq<char>, rest: Seq<char>, joined: Seq<char>)
    requires
        root.len() > 0,
        root.last() != '/',
        rest.len() > 0,
        rest[0] != '/',
        joined =~= seq!['/'] + rest,
    ensures
        text::join_path_spec(root, rest) == root + joined,
{
    assert(root.push('/') + rest =~= root + joined);
}

proof fn lemma_root_files(name: Seq<char>, root: Seq<char>, config: Config)
    requires
        is_component(name),
        root == jail_path(name) || root == base_path(name),
    ensures
        root.len() > 0 && root.last() != '/',
        text::join_path_spec(root, "dev"@) == root + "/dev"@,
        text::join_path_spec(root, "usr/share/keys"@) == root + "/usr/share/keys"@,
        text::join_path_spec(text::join_path_spec(root, "usr/local/etc/pkg/repos"@), "FreeBSD.conf"@)
            == root + "/usr/local/etc/pkg/repos/FreeBSD.conf"@,
{
    law_jails_have_their_places(name, config);
    assert(root.last() == name.last());
    assert(name.contains(name.last()));
    reveal_strlit("dev");
    reveal_strlit("/dev");
    reveal_strlit("usr/share/keys");
    reveal_strlit("/usr/share/keys");
    reveal_strlit("usr/local/etc/pkg/repos");
    reveal_strlit("/usr/local/etc/pkg/repos");
    reveal_strlit("FreeBSD.conf");
    reveal_strlit("/FreeBSD.conf");
    reveal_strlit("/usr/local/etc/pkg/repos/FreeBSD.conf");
    lemma_below(root, "dev"@, "/dev"@);
    lemma_below(root, "usr/share/keys"@, "/usr/share/keys"@);
    lemma_below(root, "usr/local/etc/pkg/repos"@, "/usr/local/etc/pkg/repos"@);
    let repositories = root + "/usr/local/etc/pkg/repos"@;
    assert(repositories.last() == 's');
    lemma_below(repositories, "FreeBSD.conf"@, "/FreeBSD.conf"@);
    assert(repositories + "/FreeBSD.conf"@ =~= root + "/usr/local/etc/pkg/repos/FreeBSD.conf"@);
}

proof fn lemma_repositories(release: Option<Release>)
    ensures
        text::contains_spec(
            repositories_text(release),
            match release {
                Some((_, minor, _)) => "url: \"pkg+https://pkg.FreeBSD.org/${ABI}/base_release_"@
                    + text::decimal_spec(minor as nat) + "\",\n  enabled: yes\n"@,
                _ => "url: \"pkg+https://pkg.FreeBSD.org/${ABI}/base_release_${VERSION_MINOR}\",\n  enabled: yes\n"@,
            },
        ),
{
    reveal_strlit(
        "FreeBSD-ports: { url: \"pkg+https://pkg.FreeBSD.org/${ABI}/latest\" }\nFreeBSD-base: {\n  url: \"pkg+https://pkg.FreeBSD.org/${ABI}/",
    );
    reveal_strlit("\",\n  enabled: yes\n}\n\n");
    reveal_strlit("\",\n  enabled: yes\n");
    reveal_strlit("base_release_");
    reveal_strlit("base_release_${VERSION_MINOR}");
    reveal_strlit("url: \"pkg+https://pkg.FreeBSD.org/${ABI}/");
    reveal_strlit("url: \"pkg+https://pkg.FreeBSD.org/${ABI}/base_release_");
    reveal_strlit(
        "url: \"pkg+https://pkg.FreeBSD.org/${ABI}/base_release_${VERSION_MINOR}\",\n  enabled: yes\n",
    );
    let front = "FreeBSD-ports: { url: \"pkg+https://pkg.FreeBSD.org/${ABI}/latest\" }\nFreeBSD-base: {\n  url: \"pkg+https://pkg.FreeBSD.org/${ABI}/"@;
    let start = "url: \"pkg+https://pkg.FreeBSD.org/${ABI}/"@;
    let end = "\",\n  enabled: yes\n}\n\n"@;
    let repository = match release {
        Some((_, minor, _)) => "base_release_"@ + text::decimal_spec(minor as nat),
        None => "base_release_${VERSION_MINOR}"@,
    };
    assert(front.skip(front.len() - start.len()) =~= start);
    assert(end.take(18) =~= "\",\n  enabled: yes\n"@);
    text::lemma_contains_across(front, repository, end, start, "\",\n  enabled: yes\n"@);
    match release {
        Some((_, minor, _)) => {
            assert(start + repository + "\",\n  enabled: yes\n"@
                =~= "url: \"pkg+https://pkg.FreeBSD.org/${ABI}/base_release_"@
                + text::decimal_spec(minor as nat) + "\",\n  enabled: yes\n"@);
        },
        None => {
            assert(start + repository + "\",\n  enabled: yes\n"@
                =~= "url: \"pkg+https://pkg.FreeBSD.org/${ABI}/base_release_${VERSION_MINOR}\",\n  enabled: yes\n"@);
        },
    }
}

/// A jail can be created exactly if the name of the host is known, its root is not there, no
/// base jail and no virtual machine has its name, and the base jail that it names is there.
pub proof fn law_good_jails_are_created(
    options: CreateOptions,
    host: Result<Seq<char>, Seq<char>>,
    files: Snapshot,
)
    ensures
        create_obstacle(options, host, files) is None <==> {
            &&& host is Ok
            &&& !snapshot::exists_at(files, new_root(options))
            &&& options.base || !snapshot::exists_at(files, base_path(options.name@))
            &&& !bhyve::is_managed(options.name@, files)
            &&& options.from_base matches Some(source) ==> is_component(source@)
                && snapshot::exists_at(files, base_path(source@))
        },
{
}

/// Every name server that is asked for and is of an address family in use has its line in the
/// resolver configuration of a new jail; where none is asked for, the bridge has one in each
/// family in use.
pub proof fn law_new_jail_asks_its_servers(config: Config, servers: Seq<Nameserver>, i: int)
    ensures
        servers.len() > 0 && 0 <= i < servers.len() && is_usable(config, servers[i])
            ==> text::contains_spec(
            resolver_text(config, servers),
            "nameserver "@ + servers[i].address@ + "\n"@,
        ),
        servers.len() == 0 && config.use_ipv4 ==> text::contains_spec(
            resolver_text(config, servers),
            "nameserver "@ + config.bridge_ip@ + "\n"@,
        ),
        servers.len() == 0 && config.use_ipv6 ==> text::contains_spec(
            resolver_text(config, servers),
            "nameserver "@ + config.ipv6_prefix@ + config.bridge_ip6@ + "\n"@,
        ),
        servers.len() == 0 && !config.use_ipv4 && !config.use_ipv6 ==> resolver_text(
            config,
            servers,
        ).len() == 0,
{
    broadcast use text::group_texts_within;

    reveal_strlit("");
    if 0 <= i < servers.len() && is_usable(config, servers[i]) {
        lemma_nameserver_lines(config, servers, i);
    }
}

proof fn lemma_nameserver_lines(config: Config, servers: Seq<Nameserver>, i: int)
    requires
        0 <= i < servers.len(),
        is_usable(config, servers[i]),
    ensures
        text::contains_spec(
            nameserver_lines(config, servers),
            "nameserver "@ + servers[i].address@ + "\n"@,
        ),
    decreases servers.len(),
{
    broadcast use text::group_texts_within;

    if i < servers.len() - 1 {
        assert(servers.drop_last()[i] == servers[i]);
        lemma_nameserver_lines(config, servers.drop_last(), i);
    }
}

/// A new jail has the root password that was made up for it, and the key that was given for the
/// provision user, who owns it; a base jail has no password, and ends with the snapshot that
/// others are cloned from.
#[verifier::spinoff_prover]
#[verifier::rlimit(40)]
pub proof fn law_new_jail_can_be_entered(
    options: CreateOptions,
    config: Config,
    host: Seq<char>,
    password: Seq<char>,
    servers: Seq<Nameserver>,
)
    requires
        options.ssh_key matches Some(key) ==> is_key(key@),
    ensures
        ({
            let root = new_root(options);
            let plan = finish_spec(options, config, host, password, servers);
            let ssh = text::join_path_spec(root, "home/provision/.ssh"@);
            &&& !options.base ==> plan::is_feed(
                plan.steps[0].action,
                "pw"@,
                seq!["-R"@, root, "usermod"@, "root"@, "-h"@, "0"@],
                password + "\n"@,
            )
            &&& !options.base && options.ssh_key is Some ==> {
                &&& plan.steps[1].action == Act::CreateDir(ssh)
                &&& plan.steps[2].action == (Act::Write {
                    path: text::join_path_spec(ssh, "authorized_keys"@),
                    text: options.ssh_key->Some_0@ + "\n"@,
                })
                &&& plan::is_call(
                    plan.steps[3].action,
                    "chown"@,
                    seq!["-R"@, "provision:provision"@, ssh],
                )
                &&& plan::is_call(plan.steps[4].action, "chmod"@, seq!["700"@, ssh])
            }
            &&& options.base ==> plan::is_call(
                plan.steps.last().action,
                "zfs"@,
                seq!["snapshot"@, config.zfs_pool@ + root + "@base"@],
            )
            &&& forall|i: int|
                0 <= i < plan.steps.len() ==> !(#[trigger] plan.steps[i]).optional
                    && !(plan.steps[i].action is Fail) && (options.base ==> !(
                plan.steps[i].action is RunInput))
        }),
{
}

/// A key that is no single line keeps a jail from being finished.
pub proof fn law_bad_key_is_refused(
    options: CreateOptions,
    config: Config,
    host: Seq<char>,
    password: Seq<char>,
    servers: Seq<Nameserver>,
)
    ensures
        finish_spec(options, config, host, password, servers).performs(
            Act::Fail("SSH public key must be a single non-empty line"@),
        ) <==> !options.base && options.ssh_key is Some && !is_key(options.ssh_key->Some_0@),
{
    broadcast use plan::group_plan_contents;

}

/// A new jail is finished under its own name on the host, with its services enabled and an
/// interface that asks for its address.
#[verifier::spinoff_prover]
#[verifier::rlimit(40)]
pub proof fn law_new_jail_has_its_name(
    options: CreateOptions,
    config: Config,
    host: Seq<char>,
    password: Seq<char>,
    servers: Seq<Nameserver>,
)
    ensures
        ({
            let root = new_root(options);
            let plan = finish_spec(options, config, host, password, servers);
            &&& plan.calls(
                "sysrc"@,
                seq!["-R"@, root, "hostname="@ + (options.name@ + "."@ + host)],
            )
            &&& plan.calls("sysrc"@, seq!["-R"@, root, "sshd_enable=YES"@])
            &&& plan.calls("sysrc"@, seq!["-R"@, root, "clear_tmp_enable=YES"@])
            &&& plan.calls("sysrc"@, seq!["-R"@, root, "ifconfig_eth0=SYNCDHCP"@])
            &&& config.dhcp@ != "dhcpcd"@ ==> plan.calls(
                "sysrc"@,
                seq![
                    "-R"@,
                    root,
                    "ifconfig_eth0_ipv6=inet6 -ifdisabled accept_rtadv auto_linklocal"@,
                ],
            )
        }),
{
    broadcast use plan::lemma_step_calls;

    let root = new_root(options);
    lemma_sysrc(root, "hostname="@ + (options.name@ + "."@ + host));
    lemma_sysrc(root, "sshd_enable=YES"@);
    lemma_sysrc(root, "clear_tmp_enable=YES"@);
    lemma_sysrc(root, "ifconfig_eth0=SYNCDHCP"@);
    lemma_sysrc(root, "ifconfig_eth0_ipv6=inet6 -ifdisabled accept_rtadv auto_linklocal"@);
}

proof fn lemma_sysrc(root: Seq<char>, assignment: Seq<char>)
    ensures
        plan::is_call(
            Act::Run(sysrc_spec(root, assignment)),
            "sysrc"@,
            seq!["-R"@, root, assignment],
        ),
{
}

/// A new jail has the name servers of its resolver configuration, the rules by which the
/// provision user becomes root, the packet filter, the proxy for packages where one is
/// configured, and the DHCP client that is configured.
#[verifier::spinoff_prover]
#[verifier::rlimit(40)]
pub proof fn law_new_jail_has_its_settings(
    options: CreateOptions,
    config: Config,
    host: Seq<char>,
    password: Seq<char>,
    servers: Seq<Nameserver>,
)
    ensures
        ({
            let root = new_root(options);
            let plan = finish_spec(options, config, host, password, servers);
            &&& plan.performs(
                Act::Write {
                    path: text::join_path_spec(root, "etc/resolv.conf"@),
                    text: resolver_text(config, servers),
                },
            )
            &&& plan.performs(
                Act::Append {
                    path: text::join_path_spec(root, "etc/sysctl.conf"@),
                    text: "security.mac.do.rules=gid=0:any\n"@,
                    create: true,
                },
            )
            &&& plan.performs(
                Act::CopyTemplate {
                    name: "pf-jail.conf"@,
                    to: text::join_path_spec(root, "etc/pf.conf"@),
                },
            )
            &&& plan.performs(
                Act::Write { path: text::join_path_spec(root, "etc/pf.services"@), text: ""@ },
            )
            &&& plan.performs(
                Act::Append {
                    path: text::join_path_spec(root, "etc/rc.conf"@),
                    text: "pf_enable=\"YES\"\npflog_enable=\"YES\"\n"@,
                    create: false,
                },
            )
            &&& config.dhcp@ == "dhcpcd"@ ==> plan.performs(
                Act::Append {
                    path: text::join_path_spec(root, "etc/rc.conf"@),
                    text: "dhclient_program=\"/usr/local/sbin/dhcpcd\"\n"@,
                    create: false,
                },
            ) && plan.performs(
                Act::Replace {
                    path: text::join_path_spec(root, "usr/local/etc/dhcpcd.conf"@),
                    wanted: "#hostname"@,
                    by: "hostname"@,
                },
            )
            &&& config.pkg_proxy@ != "no"@ <==> plan.performs(
                Act::Append {
                    path: text::join_path_spec(root, "usr/local/etc/pkg.conf"@),
                    text: "pkg_env : { http_proxy: \"http://"@ + config.pkg_proxy@ + "/\" }\n"@,
                    create: true,
                },
            )
        }),
{
    broadcast use {plan::lemma_step_performs, plan::lemma_nothing_performed};

    lemma_finish_texts(config.pkg_proxy@);
}

proof fn lemma_finish_texts(proxy: Seq<char>)
    ensures
        "pkg_env : { http_proxy: \"http://"@ + proxy + "/\" }\n"@ != "pf_enable=\"YES\"\npflog_enable=\"YES\"\n"@,
        "pkg_env : { http_proxy: \"http://"@ + proxy + "/\" }\n"@ != "ipv6ra_noautoconf\n"@,
        "pkg_env : { http_proxy: \"http://"@ + proxy + "/\" }\n"@
            != "dhclient_program=\"/usr/local/sbin/dhcpcd\"\n"@,
        "pkg_env : { http_proxy: \"http://"@ + proxy + "/\" }\n"@
            != "security.mac.do.rules=gid=0:any\n"@,
{
    reveal_strlit("pkg_env : { http_proxy: \"http://");
    reveal_strlit("pf_enable=\"YES\"\npflog_enable=\"YES\"\n");
    reveal_strlit("ipv6ra_noautoconf\n");
    reveal_strlit("dhclient_program=\"/usr/local/sbin/dhcpcd\"\n");
    reveal_strlit("security.mac.do.rules=gid=0:any\n");
    let text = "pkg_env : { http_proxy: \"http://"@ + proxy + "/\" }\n"@;
    assert(text[1] == 'k' && "pf_enable=\"YES\"\npflog_enable=\"YES\"\n"@[1] == 'f');
    assert("ipv6ra_noautoconf\n"@[1] == 'p');
    assert("dhclient_program=\"/usr/local/sbin/dhcpcd\"\n"@[1] == 'h');
    assert("security.mac.do.rules=gid=0:any\n"@[1] == 'e');
}

/// What the first stage of creating a jail mounts, the last one unmounts, where nothing
/// stands in the way of the jail.
pub proof fn law_creation_unmounts_the_devices(
    options: CreateOptions,
    config: Config,
    host: Result<Seq<char>, Seq<char>>,
    files: Snapshot,
    plan: PlanModel,
    qualified: Seq<char>,
    password: Seq<char>,
    servers: Seq<Nameserver>,
)
    requires
        create_spec(options, config, host, files) == Ok::<PlanModel, Seq<char>>(plan),
        create_obstacle(options, host, files) is None,
    ensures
        ({
            let devices = text::join_path_spec(new_root(options), "dev"@);
            let stages = create_stages_spec(options);
            &&& stages.first() == CreateStage::Root && stages.last() == CreateStage::Finish
            &&& plan.performs(Act::Run(mount_spec("devfs"@, "devfs"@, devices)))
            &&& finish_spec(options, config, qualified, password, servers).performs(
                Act::Run(umount_spec(devices)),
            )
        }),
{
    let devices = text::join_path_spec(new_root(options), "dev"@);
    let count = plan.steps.len();
    assert(plan.steps[count - 2].action == Act::Run(mount_spec("devfs"@, "devfs"@, devices)));
    let last = finish_spec(options, config, qualified, password, servers);
    let end = last.steps.len();
    if options.base {
        assert(last.steps[end - 3].action == Act::Run(umount_spec(devices)));
    } else {
        assert(last.steps[end - 1].action == Act::Run(umount_spec(devices)));
    }
}

/// A jail that names a base jail is cloned from the very snapshot with which the creation of
/// that base jail ends.
pub proof fn law_clone_comes_from_the_base_jail(
    base: CreateOptions,
    clone: CreateOptions,
    config: Config,
    host: Seq<char>,
    password: Seq<char>,
    servers: Seq<Nameserver>,
    start: PlanModel,
)
    requires
        base.base,
        clone.from_base matches Some(source) && source@ == base.name@,
    ensures
        ({
            let snapshot = config::dataset_spec(config.zfs_pool@, base_path(base.name@))
                + "@base"@;
            &&& finish_spec(base, config, host, password, servers).steps.last().action == Act::Run(
                plan::line("zfs"@).arg("snapshot"@).arg(snapshot),
            )
            &&& dataset_plan(start, clone, config).steps.last().action == Act::Run(
                plan::line("zfs"@).arg("clone"@).arg(snapshot).arg(
                    jail_dataset(config, clone.name@),
                ),
            )
        }),
{
}

// ---------------------------------------------------------------------------
// Properties
// ---------------------------------------------------------------------------

/// What comes of setting dependencies: the command that stores them, unless the graph
/// would not be valid with them.
pub open spec fn stores_dependencies(
    result: Result<Plan, Error>,
    dataset: Seq<char>,
    name: Seq<char>,
    dependencies: Seq<Seq<char>>,
    stored: Seq<Stored>,
) -> bool {
    let graph = dependency::stored_graph(stored).insert(name, dependencies);
    match result {
        Ok(plan) => dependency::is_valid(graph) && plan@ == plan::no_steps().run(
            dependency::store_spec(dataset, dependencies),
        ),
        Err(error) => dependency::is_verdict(graph, Err(error)),
    }
}

/// Plans to record what a jail depends on, if that leaves no dependency missing and no
/// cycle.
pub fn set_dependencies(
    name: &str,
    dependencies: Vec<String>,
    config: &Config,
    stored: &Vec<Stored>,
) -> (result: Result<Plan, Error>)
    ensures
        stores_dependencies(
            result,
            jail_dataset(*config, name@),
            name@,
            text::views(dependencies@),
            stored@,
        ),
{
    match dependency::validate(name, &dependencies, stored) {
        Err(error) => Err(error),
        Ok(_) => Ok(
            Plan::new().run(
                metadata::set(
                    dataset(name, config).as_str(),
                    "dependencies",
                    join(&dependencies, ",").as_str(),
                ),
            ),
        ),
    }
}

/// What a jail or a virtual machine was accepted to depend on leaves the whole stored graph
/// valid, once it is recorded and read back: every name in the list neither holds a comma
/// nor has white space around it.
pub proof fn law_accepted_dependencies_leave_a_valid_graph(
    plan: Plan,
    dataset: Seq<char>,
    name: Seq<char>,
    dependencies: Seq<Seq<char>>,
    before: Seq<Stored>,
    after: Seq<Stored>,
)
    requires
        stores_dependencies(Ok(plan), dataset, name, dependencies, before),
        dependency::stored_graph(before).dom().contains(name),
        dependency::owns(before, name, dataset),
        dependency::are_plain(dependencies),
        dependency::are_stored_after(plan@.steps, before, after),
    ensures
        dependency::is_valid(dependency::stored_graph(after)),
{
    dependency::lemma_accepted_list(name, dataset, dependencies, before, after);
}

/// The plan that records whether a resource is started with the daemon.
pub open spec fn enable_plan(dataset: Seq<char>, enabled: bool) -> PlanModel {
    plan::no_steps().run(metadata::set_spec(dataset, "enabled"@, text::bool_spec(enabled)))
}

/// Plans to record whether a jail is started with the daemon.
pub fn set_enabled(name: &str, enabled: bool, config: &Config) -> (plan: Plan)
    ensures
        plan@ == enable_plan(jail_dataset(*config, name@), enabled),
{
    Plan::new().run(
        metadata::set(dataset(name, config).as_str(), "enabled", bool_text(enabled).as_str()),
    )
}

// ---------------------------------------------------------------------------
// Starting a jail
// ---------------------------------------------------------------------------

/// Begins to start a jail after everything that it depends on.
pub fn start(name: &str) -> (launch: Launch)
    ensures
        launch@ == launch::begin(ResourceKind::Jail, name@, false),
{
    Launch::new(ResourceKind::Jail, name, false)
}

/// The text without the digits at its end.
pub open spec fn without_number(s: Seq<char>) -> Seq<char>
    decreases s.len(),
{
    if s.len() > 0 && text::is_digit(s.last()) {
        without_number(s.drop_last())
    } else {
        s
    }
}

/// The interface group of a jail: its name without a number at the end, of at most
/// fifteen characters.
pub open spec fn group_spec(name: Seq<char>) -> Seq<char> {
    let stem = without_number(name);
    if stem.len() > 15 {
        stem.take(15)
    } else {
        stem
    }
}

/// The interface group of a jail.
pub fn interface_group(name: &str) -> (group: String)
    ensures
        group@ == group_spec(name@),
{
    let chars = text::characters(name);
    let mut end: usize = chars.len();
    proof {
        assert(name@.take(end as int) =~= name@);
    }
    while end > 0 && text::digit(chars[end - 1])
        invariant
            chars@ == name@,
            end <= chars@.len(),
            without_number(name@) == without_number(name@.take(end as int)),
        decreases end,
    {
        proof {
            assert(name@.take(end as int).drop_last() =~= name@.take(end - 1));
        }
        end -= 1;
    }
    let ghost stem = name@.take(end as int);
    assert(without_number(name@) == stem);
    if end > 15 {
        let group = text::slice_text(&chars, 0, 15);
        proof {
            assert(group@ =~= stem.take(15));
        }
        group
    } else {
        let group = text::slice_text(&chars, 0, end);
        proof {
            assert(group@ =~= stem);
        }
        group
    }
}

/// Whether an interface is the host's end of a pair.
pub open spec fn is_host_end(interface: Seq<char>) -> bool {
    text::starts_with_spec(interface, "epair"@) && interface.last() == 'a'
}

/// The jail's end of a pair of interfaces.
pub open spec fn jail_end(interface: Seq<char>) -> Seq<char> {
    interface.drop_last() + "b"@
}

/// Begins to start a jail that is not running: the user is told, and an interface is to
/// be created. Without a host name nothing is begun.
pub fn start_network(name: &str, host: &Result<String, Error>) -> (result: Result<Plan, Error>)
    ensures
        plan_result(result) == match error::text_outcome(*host) {
            Ok(_) => Ok::<PlanModel, Seq<char>>(
                plan::no_steps().tell("Creating a network interface for jail "@ + name@),
            ),
            Err(reason) => Err(reason),
        },
{
    match host {
        Err(error) => Err(Error::new(owned(error.message.as_str()))),
        Ok(_) => Ok(
            Plan::new().tell(owned("Creating a network interface for jail ").concat(name)),
        ),
    }
}

/// A stage of starting a jail.
#[derive(Debug, Clone, Copy, PartialEq, Eq, Structural)]
pub enum StartStage {
    /// What `start_network` plans.
    Network,
    /// A pair of interfaces is created.
    Interface,
    /// What `start_inner` plans.
    Jail,
}

/// The stages of starting a jail, in their order. A stage that fails is the last.
pub fn start_stages() -> (stages: Vec<StartStage>)
    ensures
        stages@ == seq![StartStage::Network, StartStage::Interface, StartStage::Jail],
{
    let mut stages: Vec<StartStage> = Vec::new();
    stages.push(StartStage::Network);
    stages.push(StartStage::Interface);
    stages.push(StartStage::Jail);
    stages
}

/// What takes an interface out of use: out of its bridge first, and then away.
pub open spec fn cleanup_acts(interface: Seq<char>, bridge: Seq<char>) -> Seq<Act> {
    plan::one(Act::Message("Removing "@ + interface + " from bridge "@ + bridge)).push(
        Act::BridgeDelete { bridge, member: interface },
    ).push(Act::Message("Destroying network interface "@ + interface)).push(
        Act::InterfaceDestroy(interface),
    )
}

fn cleanup_epair(interface: &str, bridge: &str) -> (actions: Actions)
    ensures
        actions@ == cleanup_acts(interface@, bridge@),
{
    Actions::new(
        Action::Message(
            owned("Removing ").concat(interface).concat(" from bridge ").concat(bridge),
        ),
    ).and(Action::BridgeDelete { bridge: owned(bridge), member: owned(interface) }).and(
        Action::Message(owned("Destroying network interface ").concat(interface)),
    ).and(Action::InterfaceDestroy(owned(interface)))
}

/// What is undone when a jail fails to start, once its interface exists: `bridged` says
/// whether the interface is in the bridge, `mounted` whether its devices are mounted.
pub open spec fn undo_start(
    start: Seq<Seq<Act>>,
    interface: Seq<char>,
    bridge: Seq<char>,
    devices: Seq<char>,
    bridged: bool,
    mounted: bool,
) -> Seq<Seq<Act>> {
    let first = if mounted {
        start.push(plan::one(Act::Run(umount_spec(devices))))
    } else {
        start
    };
    let second = if bridged {
        first.push(plan::one(Act::BridgeDelete { bridge, member: interface }))
    } else {
        first
    };
    second.push(plan::one(Act::InterfaceDestroy(interface)))
}

fn undo(
    start: Recovery,
    interface: &str,
    bridge: &str,
    devices: &str,
    bridged: bool,
    mounted: bool,
) -> (recovery: Recovery)
    ensures
        recovery@ == undo_start(start@, interface@, bridge@, devices@, bridged, mounted),
{
    let first = if mounted {
        start.also(Action::Run(umount(devices)))
    } else {
        start
    };
    let second = if bridged {
        first.also(Action::BridgeDelete { bridge: owned(bridge), member: owned(interface) })
    } else {
        first
    };
    second.also(Action::InterfaceDestroy(owned(interface)))
}

/// What is undone when a running jail cannot be set up.
pub open spec fn undo_running(
    name: Seq<char>,
    interface: Seq<char>,
    bridge: Seq<char>,
    devices: Seq<char>,
) -> Seq<Seq<Act>> {
    plan::no_recovery().push(cleanup_acts(interface, bridge)).push(
        plan::one(Act::JailStop(name)),
    ).push(plan::one(Act::Run(umount_spec(devices))))
}

fn undo_all(name: &str, interface: &str, bridge: &str, devices: &str) -> (recovery: Recovery)
    ensures
        recovery@ == undo_running(name@, interface@, bridge@, devices@),
{
    Recovery::new().group(cleanup_epair(interface, bridge)).also(
        Action::JailStop(owned(name)),
    ).also(Action::Run(umount(devices)))
}

/// How a jail is started once the host's end of its interface exists.
pub open spec fn start_spec(
    name: Seq<char>,
    host: Seq<char>,
    interface: Seq<char>,
    config: Config,
) -> Result<PlanModel, Seq<char>> {
    if !is_host_end(interface) {
        Err("epair creation returned an invalid interface: "@ + interface)
    } else {
        let bridge = config.bridge@;
        let root = jail_path(name);
        let devices = text::join_path_spec(root, "dev"@);
        let inner = jail_end(interface);
        let group = group_spec(name);
        let created = undo_start(
            plan::no_recovery(),
            interface,
            bridge,
            devices,
            false,
            false,
        );
        let grouped = if group.len() == 0 {
            plan::no_steps()
        } else {
            plan::no_steps().must_or(Act::GroupAdd { interface, group }, created)
        };
        let mounted = grouped.must_or(Act::InterfaceUp(interface), created).tell(
            "Adding "@ + interface + " to bridge "@ + bridge,
        ).must_or(Act::BridgeAdd { bridge, member: interface }, created).tell(
            "Mounting devfs at "@ + devices,
        ).must_or(
            Act::Run(mount_spec("devfs"@, "devfs"@, devices)),
            undo_start(plan::no_recovery(), interface, bridge, devices, true, false),
        );
        let started = mounted.tell("Starting jail "@ + name + " with "@ + inner).must_for_or(
            Act::JailStart { name, root, hostname: qualified_spec(name, host), interface },
            "failed to start jail "@ + name,
            undo_start(plan::no_recovery(), interface, bridge, devices, true, true),
        ).must_or(
            Act::JailInterface { name, interface: inner },
            undo_start(
                plan::no_recovery().push(plan::one(Act::JailStop(name))),
                interface,
                bridge,
                devices,
                true,
                true,
            ),
        );
        Ok(
            started.tell("Renaming "@ + inner + " to eth0 inside jail "@ + name).must_or(
                Act::JailRename { name, from: inner, to: "eth0"@ },
                undo_running(name, interface, bridge, devices),
            ).tell("Starting services inside jail "@ + name).must_or(
                Act::RunLog {
                    command: plan::line("jexec"@).arg(name).arg("/bin/sh"@).arg("/etc/rc"@),
                    path: text::join_path_spec(LOG_BASE@, name + ".log"@),
                },
                undo_running(name, interface, bridge, devices),
            ),
        )
    }
}

/// Plans to start a jail once the host's end of its interface exists. A step that fails
/// is undone with all that went before it.
pub fn start_inner(name: &str, host: &str, interface: &str, config: &Config) -> (result: Result<
    Plan,
    Error,
>)
    ensures
        plan_result(result) == start_spec(name@, host@, interface@, *config),
{
    let chars = text::characters(interface);
    proof {
        reveal_strlit("epair");
    }
    if !starts_with(interface, "epair") || chars[chars.len() - 1] != 'a' {
        return Err(
            Error::new(
                owned("epair creation returned an invalid interface: ").concat(interface),
            ),
        );
    }
    let bridge = config.bridge.as_str();
    let root = root_path(name);
    let dev_dir = join_path(root.as_str(), "dev");
    let devices = dev_dir.as_str();
    let epair_b = text::slice_text(&chars, 0, chars.len() - 1).concat("b");
    proof {
        assert(interface@.subrange(0, interface@.len() - 1) =~= interface@.drop_last());
    }
    let inner = epair_b.as_str();
    let group = interface_group(name);
    let grouped = if group.as_str().is_empty() {
        Plan::new()
    } else {
        Plan::new().must_or(
            Action::GroupAdd { interface: owned(interface), group },
            undo(Recovery::new(), interface, bridge, devices, false, false),
        )
    };
    let mounted = grouped.must_or(
        Action::InterfaceUp(owned(interface)),
        undo(Recovery::new(), interface, bridge, devices, false, false),
    ).tell(owned("Adding ").concat(interface).concat(" to bridge ").concat(bridge)).must_or(
        Action::BridgeAdd { bridge: owned(bridge), member: owned(interface) },
        undo(Recovery::new(), interface, bridge, devices, false, false),
    ).tell(owned("Mounting devfs at ").concat(devices)).must_or(
        Action::Run(mount("devfs", "devfs", devices)),
        undo(Recovery::new(), interface, bridge, devices, true, false),
    );
    let started = mounted.tell(
        owned("Starting jail ").concat(name).concat(" with ").concat(inner),
    ).must_for_or(
        Action::JailStart {
            name: owned(name),
            root,
            hostname: qualified_hostname(name, host),
            interface: owned(interface),
        },
        owned("failed to start jail ").concat(name),
        undo(Recovery::new(), interface, bridge, devices, true, true),
    ).must_or(
        Action::JailInterface { name: owned(name), interface: owned(inner) },
        undo(
            Recovery::new().also(Action::JailStop(owned(name))),
            interface,
            bridge,
            devices,
            true,
            true,
        ),
    );
    let log = join_path(LOG_BASE, owned(name).concat(".log").as_str());
    Ok(
        started.tell(
            owned("Renaming ").concat(inner).concat(" to eth0 inside jail ").concat(name),
        ).must_or(
            Action::JailRename { name: owned(name), from: owned(inner), to: owned("eth0") },
            undo_all(name, interface, bridge, devices),
        ).tell(owned("Starting services inside jail ").concat(name)).must_or(
            Action::RunLog {
                command: command("jexec").arg(name).arg("/bin/sh").arg("/etc/rc"),
                path: log,
            },
            undo_all(name, interface, bridge, devices),
        ),
    )
}

/// Whether an action is among the groups of a recovery.
pub open spec fn recovers(recovery: Seq<Seq<Act>>, action: Act) -> bool {
    exists|i: int, j: int|
        0 <= i < recovery.len() && 0 <= j < recovery[i].len() && #[trigger] recovery[i][j] == action
}

proof fn lemma_undo_recovers(
    start: Seq<Seq<Act>>,
    interface: Seq<char>,
    bridge: Seq<char>,
    devices: Seq<char>,
    bridged: bool,
    mounted: bool,
)
    ensures
        ({
            let recovery = undo_start(start, interface, bridge, devices, bridged, mounted);
            &&& recovers(recovery, Act::InterfaceDestroy(interface))
            &&& bridged ==> recovers(recovery, Act::BridgeDelete { bridge, member: interface })
            &&& mounted ==> recovers(recovery, Act::Run(umount_spec(devices)))
        }),
{
    let recovery = undo_start(start, interface, bridge, devices, bridged, mounted);
    let last = recovery.len() - 1;
    assert(recovery[last][0] == Act::InterfaceDestroy(interface));
    if bridged {
        assert(recovery[last - 1][0] == (Act::BridgeDelete { bridge, member: interface }));
    }
    if mounted {
        let at = if bridged {
            last - 2
        } else {
            last - 1
        };
        assert(recovery[at][0] == Act::Run(umount_spec(devices)));
    }
}

/// A jail that fails to start leaves no interface behind: whichever step fails, its
/// recovery takes the interface away.
#[verifier::rlimit(40)]
pub proof fn law_failed_start_removes_the_interface(
    name: Seq<char>,
    host: Seq<char>,
    interface: Seq<char>,
    config: Config,
    index: int,
)
    requires
        start_spec(name, host, interface, config) is Ok,
        0 <= index < start_spec(name, host, interface, config)->Ok_0.steps.len(),
    ensures
        ({
            let step = start_spec(name, host, interface, config)->Ok_0.steps[index];
            step.action is Message || recovers(step.recovery, Act::InterfaceDestroy(interface))
        }),
{
    let bridge = config.bridge@;
    let devices = text::join_path_spec(jail_path(name), "dev"@);
    let none = plan::no_recovery();
    lemma_undo_recovers(none, interface, bridge, devices, false, false);
    lemma_undo_recovers(none, interface, bridge, devices, true, false);
    lemma_undo_recovers(none, interface, bridge, devices, true, true);
    lemma_undo_recovers(
        none.push(plan::one(Act::JailStop(name))),
        interface,
        bridge,
        devices,
        true,
        true,
    );
    let running = undo_running(name, interface, bridge, devices);
    assert(running[0][3] == Act::InterfaceDestroy(interface));
    assert(recovers(running, Act::InterfaceDestroy(interface)));
}

// ---------------------------------------------------------------------------
// Stopping a jail
// ---------------------------------------------------------------------------

/// The interface that is recorded with a running jail.
#[derive(Debug)]
pub enum Recorded {
    /// The host's end of its pair.
    Interface(String),
    /// Something else, as it reads.
    Unexpected(String),
    /// It could not be read.
    Unreadable(String),
}

/// What is known of a jail on the host.
#[derive(Debug)]
pub enum State {
    Running(Recorded),
    Stopped,
    /// It could not be found out.
    Unknown(String),
}

/// How a jail is stopped.
pub open spec fn stop_spec(name: Seq<char>, config: Config, files: Snapshot, state: State) -> Result<
    PlanModel,
    Seq<char>,
> {
    if !snapshot::is_dir_at(files, jail_path(name)) {
        Err("no managed jail exists with this name: "@ + name)
    } else {
        match state {
            State::Stopped => Ok(plan::no_steps()),
            State::Unknown(reason) => Err(
                error::with_cause("failed to find jail "@ + name, reason@),
            ),
            State::Running(Recorded::Unexpected(value)) => Err(
                "jail "@ + name + " has an unexpected host.domainname value: "@ + value@,
            ),
            State::Running(Recorded::Unreadable(reason)) => Err(
                error::with_cause("failed to read host.domainname for jail "@ + name, reason@),
            ),
            State::Running(Recorded::Interface(interface)) => {
                let bridge = config.bridge@;
                let devices = text::join_path_spec(jail_path(name), "dev"@);
                Ok(
                    plan::no_steps().tell(
                        "Removing "@ + interface@ + " from bridge "@ + bridge,
                    ).must(Act::BridgeDelete { bridge, member: interface@ }).tell(
                        "Destroying network interface "@ + interface@,
                    ).must(Act::InterfaceDestroy(interface@)).must_for(
                        Act::JailStop(name),
                        "failed to stop jail "@ + name,
                    ).tell("Unmounting devfs at "@ + devices).must(Act::Unmount(devices)),
                )
            },
        }
    }
}

/// Plans to stop a jail. One that is not running is left as it is.
pub fn stop(name: &str, config: &Config, files: &Snapshot, state: &State) -> (result: Result<
    Plan,
    Error,
>)
    ensures
        plan_result(result) == stop_spec(name@, *config, *files, *state),
{
    if !path_exists(name, files) {
        return Err(Error::new(owned("no managed jail exists with this name: ").concat(name)));
    }
    match state {
        State::Stopped => Ok(Plan::new()),
        State::Unknown(reason) => Err(
            error::caused(owned("failed to find jail ").concat(name), reason.as_str()),
        ),
        State::Running(Recorded::Unexpected(value)) => Err(
            Error::new(
                owned("jail ").concat(name).concat(
                    " has an unexpected host.domainname value: ",
                ).concat(value.as_str()),
            ),
        ),
        State::Running(Recorded::Unreadable(reason)) => Err(
            error::caused(
                owned("failed to read host.domainname for jail ").concat(name),
                reason.as_str(),
            ),
        ),
        State::Running(Recorded::Interface(epair)) => {
            let interface = epair.as_str();
            let bridge = config.bridge.as_str();
            let dev_dir = join_path(root_path(name).as_str(), "dev");
            let devices = dev_dir.as_str();
            Ok(
                Plan::new().tell(
                    owned("Removing ").concat(interface).concat(" from bridge ").concat(bridge),
                ).must(
                    Action::BridgeDelete { bridge: owned(bridge), member: owned(interface) },
                ).tell(owned("Destroying network interface ").concat(interface)).must(
                    Action::InterfaceDestroy(owned(interface)),
                ).must_for(
                    Action::JailStop(owned(name)),
                    owned("failed to stop jail ").concat(name),
                ).tell(owned("Unmounting devfs at ").concat(devices)).must(
                    Action::Unmount(owned(devices)),
                ),
            )
        },
    }
}

/// What the start of a jail sets up, its stop takes away: the stop finds the interface that
/// the start recorded, takes it out of the bridge and destroys it, and ends the jail and the
/// mount that the start made.
pub proof fn law_stop_undoes_start(
    name: Seq<char>,
    host: Seq<char>,
    interface: Seq<char>,
    config: Config,
    files: Snapshot,
    recorded: String,
)
    requires
        start_spec(name, host, interface, config) is Ok,
        snapshot::is_dir_at(files, jail_path(name)),
        recorded@ == interface,
    ensures
        ({
            let devices = text::join_path_spec(jail_path(name), "dev"@);
            let start = start_spec(name, host, interface, config)->Ok_0;
            let state = State::Running(Recorded::Interface(recorded));
            let stopped = stop_spec(name, config, files, state);
            &&& stopped is Ok
            &&& start.performs(
                Act::JailStart {
                    name,
                    root: jail_path(name),
                    hostname: qualified_spec(name, host),
                    interface,
                },
            ) && stopped->Ok_0.performs(Act::JailStop(name))
            &&& start.performs(Act::BridgeAdd { bridge: config.bridge@, member: interface })
                && stopped->Ok_0.performs(
                Act::BridgeDelete { bridge: config.bridge@, member: interface },
            )
            &&& start.performs(Act::Run(mount_spec("devfs"@, "devfs"@, devices)))
                && stopped->Ok_0.performs(Act::Unmount(devices))
            &&& stopped->Ok_0.performs(Act::InterfaceDestroy(interface))
        }),
{
    let bridge = config.bridge@;
    let devices = text::join_path_spec(jail_path(name), "dev"@);
    let start = start_spec(name, host, interface, config)->Ok_0;
    let from: int = if group_spec(name).len() == 0 {
        0
    } else {
        1
    };
    assert(start.steps[from + 2].action == (Act::BridgeAdd { bridge, member: interface }));
    assert(start.steps[from + 4].action == Act::Run(mount_spec("devfs"@, "devfs"@, devices)));
    assert(start.steps[from + 6].action == (Act::JailStart {
        name,
        root: jail_path(name),
        hostname: qualified_spec(name, host),
        interface,
    }));
    let state = State::Running(Recorded::Interface(recorded));
    let stopped = stop_spec(name, config, files, state)->Ok_0;
    assert(stopped.steps[1].action == (Act::BridgeDelete { bridge, member: interface }));
    assert(stopped.steps[3].action == Act::InterfaceDestroy(interface));
    assert(stopped.steps[4].action == Act::JailStop(name));
    assert(stopped.steps[6].action == Act::Unmount(devices));
}

/// How often a busy file system is tried to be unmounted.
pub const UNMOUNT_ATTEMPTS: u32 = 50;

/// What follows from an attempt to unmount.
#[derive(Debug)]
pub enum Attempt {
    /// It is unmounted.
    Done,
    /// It is to be tried again after a pause.
    Again,
    /// It is given up.
    Failed(Error),
}

/// Decides what follows from an attempt to unmount, the first of which has the number
/// zero: the last one that is allowed is not followed by another.
pub fn unmount_devfs(path: &str, attempt: u32, succeeded: bool, printed: &str) -> (next: Attempt)
    ensures
        match next {
            Attempt::Done => succeeded,
            Attempt::Again => !succeeded && attempt + 1 < UNMOUNT_ATTEMPTS,
            Attempt::Failed(error) => !succeeded && attempt + 1 >= UNMOUNT_ATTEMPTS && error@
                == "umount "@ + path@ + " failed: "@ + text::trim_spec(printed@),
        },
{
    if succeeded {
        Attempt::Done
    } else if attempt < UNMOUNT_ATTEMPTS - 1 {
        Attempt::Again
    } else {
        Attempt::Failed(
            Error::new(
                owned("umount ").concat(path).concat(" failed: ").concat(
                    text::trim(printed).as_str(),
                ),
            ),
        )
    }
}

// ---------------------------------------------------------------------------
// Destroying a jail
// ---------------------------------------------------------------------------

/// The command that destroys a dataset with all below it.
pub open spec fn destroy_dataset_spec(dataset: Seq<char>) -> CommandLine {
    plan::line("zfs"@).arg("destroy"@).arg("-r"@).arg("-f"@).arg(dataset)
}

/// The command that destroys a dataset with all below it.
pub fn destroy_dataset(dataset: &str) -> (result: Command)
    ensures
        result@ == destroy_dataset_spec(dataset@),
{
    command("zfs").arg("destroy").arg("-r").arg("-f").arg(dataset)
}

/// How a jail is destroyed: it is stopped, no resource depends on it any more, and its
/// dataset goes, with the directory that it was mounted on.
pub open spec fn destroy_spec(
    name: Seq<char>,
    config: Config,
    files: Snapshot,
    state: State,
    stored: Seq<Stored>,
) -> Result<PlanModel, Seq<char>> {
    match stop_spec(name, config, files, state) {
        Err(error) => Err(error),
        Ok(stopped) => {
            let cleared = stopped.then_all(dependency::removal_plan(name, stored));
            if snapshot::exists_at(files, jail_path(name)) {
                Ok(
                    cleared.run(destroy_dataset_spec(jail_dataset(config, name))).must(
                        Act::DropDir(jail_path(name)),
                    ),
                )
            } else {
                Ok(cleared)
            }
        },
    }
}

/// Plans to destroy a jail.
pub fn destroy(
    name: &str,
    config: &Config,
    files: &Snapshot,
    state: &State,
    stored: &Vec<Stored>,
) -> (result: Result<Plan, Error>)
    ensures
        plan_result(result) == destroy_spec(name@, *config, *files, *state, stored@),
{
    match stop(name, config, files, state) {
        Err(error) => Err(error),
        Ok(stopped) => {
            let cleared = stopped.then_all(dependency::remove_references(name, stored));
            let root = root_path(name);
            if files.present(root.as_str()) {
                Ok(
                    cleared.run(destroy_dataset(dataset(name, config).as_str())).must(
                        Action::DropDir(root),
                    ),
                )
            } else {
                Ok(cleared)
            }
        },
    }
}

/// A valid stored graph stays valid when a jail is destroyed, and nothing that is left
/// depends on the jail. Its dataset goes with all below it, and no other does.
pub proof fn law_destroyed_jail_leaves_a_valid_graph(
    name: Seq<char>,
    config: Config,
    files: Snapshot,
    state: State,
    plan: PlanModel,
    before: Seq<Stored>,
    after: Seq<Stored>,
)
    requires
        destroy_spec(name, config, files, state, before) == Ok::<PlanModel, Seq<char>>(plan),
        dependency::is_valid(dependency::stored_graph(before)),
        dependency::owns(before, name, jail_dataset(config, name)),
        dependency::have_own_datasets(before),
        forall|i: int|
            0 <= i < before.len() ==> dependency::names_are_trimmed(#[trigger] before[i]),
        dependency::are_left_after(plan.steps, jail_dataset(config, name), before, after),
    ensures
        dependency::is_valid(dependency::stored_graph(after)),
        forall|i: int|
            0 <= i < after.len() ==> !dependency::stored_list((#[trigger] after[i]).value).contains(
                name,
            ),
        plan.performs(Act::Run(destroy_dataset_spec(jail_dataset(config, name)))),
        forall|action: Act| #[trigger]
            plan.performs(action) && dependency::is_destruction(action) ==> action == Act::Run(
                destroy_dataset_spec(jail_dataset(config, name)),
            ),
{
    let dataset = jail_dataset(config, name);
    let stopped = stop_spec(name, config, files, state)->Ok_0;
    let removal = dependency::removal_plan(name, before);
    let destruction = plan::must(Act::Run(destroy_dataset_spec(dataset)));
    let end = seq![destruction, plan::must(Act::DropDir(jail_path(name)))];
    assert(snapshot::exists_at(files, jail_path(name)));
    assert(plan.steps =~= stopped.steps + removal.steps + end);
    dependency::lemma_removal_sets(name, before);
    assert(!dependency::is_setting(end[0].action) && !dependency::is_setting(end[1].action));
    assert forall|i: int| 0 <= i < stopped.steps.len() implies !((
    #[trigger] stopped.steps[i]).action is Run) by {
    }
    assert forall|other: Seq<char>, value: Option<Seq<char>>| #[trigger]
        dependency::value_after(plan.steps, other, value) == dependency::value_after(
            removal.steps,
            other,
            value,
        ) by {
        dependency::lemma_other_steps(stopped.steps, removal.steps, end, other, value);
    }
    dependency::lemma_removed_resource(name, dataset, plan.steps, before, after);
    let place = stopped.steps.len() + removal.steps.len();
    assert(plan.steps[place as int] == end[0]);
    assert forall|action: Act| #[trigger]
        plan.performs(action) && dependency::is_destruction(action) implies action
        == destruction.action by {
        let i = choose|i: int|
            0 <= i < plan.steps.len() && (#[trigger] plan.steps[i]).action == action;
        if i < stopped.steps.len() {
            assert(plan.steps[i] == stopped.steps[i]);
        } else if i < place {
            assert(plan.steps[i] == removal.steps[i - stopped.steps.len()]);
        } else {
            assert(plan.steps[i] == end[i - place]);
        }
    }
}

/// How a base jail is destroyed.
pub open spec fn destroy_base_spec(name: Seq<char>, config: Config, files: Snapshot) -> Result<
    PlanModel,
    Seq<char>,
> {
    if !snapshot::exists_at(files, base_path(name)) {
        Err("base jail does not exist: "@ + name)
    } else {
        Ok(
            plan::no_steps().run(
                destroy_dataset_spec(config::dataset_spec(config.zfs_pool@, base_path(name))),
            ).must(Act::DropTree(base_path(name))),
        )
    }
}

/// Plans to destroy a base jail.
pub fn destroy_base(name: &str, config: &Config, files: &Snapshot) -> (result: Result<Plan, Error>)
    ensures
        plan_result(result) == destroy_base_spec(name@, *config, *files),
{
    let root = base_root_path(name);
    if !files.present(root.as_str()) {
        return Err(Error::new(owned("base jail does not exist: ").concat(name)));
    }
    Ok(
        Plan::new().run(destroy_dataset(config::dataset(config, root.as_str()).as_str())).must(
            Action::DropTree(root),
        ),
    )
}

// ---------------------------------------------------------------------------
// Listing jails
// ---------------------------------------------------------------------------

/// What is listed of a jail.
#[derive(Debug, Clone)]
pub struct JailInfo {
    pub name: String,
    pub hostname: String,
    pub ips: String,
    pub status: String,
}

/// What was found out of a jail for the list.
#[derive(Debug)]
pub enum Probe {
    Running { hostname: String, ips: Vec<String> },
    Stopped,
    /// It could not be found.
    Unknown(String),
    /// It runs, and what it is like could not be read.
    Unreadable(String),
}

/// Whether an entry of the list tells what was found out of a jail.
pub open spec fn describes(info: JailInfo, name: Seq<char>, probe: Probe) -> bool {
    &&& info.name@ == name
    &&& match probe {
        Probe::Running { hostname, ips } => info.hostname@ == hostname@ && info.ips@
            == text::join_spec(text::views(ips@), ","@) && info.status@ == "running"@,
        Probe::Stopped => info.hostname@ == ""@ && info.ips@ == ""@ && info.status@ == "stopped"@,
        _ => false,
    }
}

/// Why there is no entry for a jail, if there is none.
pub open spec fn probe_failure(name: Seq<char>, probe: Probe) -> Option<Seq<char>> {
    match probe {
        Probe::Unknown(reason) => Some(
            error::with_cause("failed to find jail "@ + name, reason@),
        ),
        Probe::Unreadable(reason) => Some(reason@),
        _ => None,
    }
}

/// The entry of the list for a jail.
pub fn describe(name: &str, probe: &Probe) -> (result: Result<JailInfo, Error>)
    ensures
        match result {
            Ok(info) => describes(info, name@, *probe),
            Err(error) => probe_failure(name@, *probe) == Some(error@),
        },
{
    match probe {
        Probe::Running { hostname, ips } => Ok(
            JailInfo {
                name: owned(name),
                hostname: owned(hostname.as_str()),
                ips: join(ips, ","),
                status: owned("running"),
            },
        ),
        Probe::Stopped => Ok(
            JailInfo {
                name: owned(name),
                hostname: owned(""),
                ips: owned(""),
                status: owned("stopped"),
            },
        ),
        Probe::Unknown(reason) => Err(
            error::caused(owned("failed to find jail ").concat(name), reason.as_str()),
        ),
        Probe::Unreadable(reason) => Err(Error::new(owned(reason.as_str()))),
    }
}

impl Named for JailInfo {
    open spec fn key(&self) -> Seq<char> {
        self.name@
    }

    fn name(&self) -> &str {
        self.name.as_str()
    }
}

/// An entry of the directory that holds the jails.
#[derive(Debug)]
pub struct JailEntry {
    pub name: String,
    /// Whether the entry is a directory.
    pub directory: bool,
    /// What was found out of the jail. It counts only for a directory.
    pub probe: Probe,
}

/// The entries that are jails: the directories, and no plain files.
pub open spec fn listed_jails(entries: Seq<JailEntry>) -> Seq<JailEntry>
    decreases entries.len(),
{
    if entries.len() == 0 {
        seq![]
    } else if entries.last().directory {
        listed_jails(entries.drop_last()).push(entries.last())
    } else {
        listed_jails(entries.drop_last())
    }
}

/// Whether the list tells, in order, what was found out of jails.
pub open spec fn all_described(infos: Seq<JailInfo>, jails: Seq<JailEntry>) -> bool {
    &&& infos.len() == jails.len()
    &&& forall|i: int|
        0 <= i < jails.len() ==> describes(#[trigger] infos[i], jails[i].name@, jails[i].probe)
}

/// Why a jail among the entries cannot be listed, if this is one that cannot.
pub open spec fn entry_failure(entry: JailEntry) -> Option<Seq<char>> {
    if entry.directory {
        probe_failure(entry.name@, entry.probe)
    } else {
        None
    }
}

/// The place of the first jail that cannot be listed, or the number of entries.
pub open spec fn first_failure(entries: Seq<JailEntry>) -> int
    decreases entries.len(),
{
    if entries.len() == 0 {
        0
    } else {
        let earlier = first_failure(entries.drop_last());
        if earlier < entries.len() - 1 || entry_failure(entries.last()) is Some {
            earlier
        } else {
            entries.len() as int
        }
    }
}

/// The list of the jails among the entries of a directory, ordered by name; the first of
/// them that cannot be described is told.
pub fn list(entries: &Vec<JailEntry>) -> (result: Result<Vec<JailInfo>, Error>)
    ensures
        match result {
            Ok(sorted) => first_failure(entries@) == entries@.len() && sort::is_sorted(sorted@)
                && exists|infos: Seq<JailInfo>| #[trigger]
                all_described(infos, listed_jails(entries@)) && sorted@.to_multiset()
                    == infos.to_multiset(),
            Err(error) => {
                let place = first_failure(entries@);
                0 <= place < entries@.len() && entry_failure(entries@[place]) == Some(error@)
            },
        },
{
    let mut infos: Vec<JailInfo> = Vec::new();
    let mut index: usize = 0;
    while index < entries.len()
        invariant
            index <= entries@.len(),
            all_described(infos@, listed_jails(entries@.take(index as int))),
            first_failure(entries@.take(index as int)) == index,
        decreases entries@.len() - index,
    {
        let ghost kept = listed_jails(entries@.take(index as int));
        proof {
            assert(entries@.take(index + 1).drop_last() =~= entries@.take(index as int));
            assert(entries@.take(index + 1).last() == entries@[index as int]);
        }
        if entries[index].directory {
            match describe(entries[index].name.as_str(), &entries[index].probe) {
                Ok(info) => {
                    let ghost before = infos@;
                    infos.push(info);
                    proof {
                        let longer = listed_jails(entries@.take(index + 1));
                        assert(longer == kept.push(entries@[index as int]));
                        assert forall|i: int| 0 <= i < longer.len() implies describes(
                            #[trigger] infos@[i],
                            longer[i].name@,
                            longer[i].probe,
                        ) by {
                            if i < before.len() {
                                assert(infos@[i] == before[i]);
                                assert(longer[i] == kept[i]);
                            }
                        }
                    }
                },
                Err(error) => {
                    proof {
                        lemma_first_failure(entries@, index + 1);
                    }
                    return Err(error);
                },
            }
        }
        index += 1;
    }
    proof {
        assert(entries@.take(index as int) =~= entries@);
    }
    let ghost described = infos@;
    let sorted = sort_by_name(infos);
    assert(all_described(described, listed_jails(entries@)));
    Ok(sorted)
}

/// A failure among the first entries is the first failure of all.
proof fn lemma_first_failure(entries: Seq<JailEntry>, length: int)
    requires
        0 <= length <= entries.len(),
        first_failure(entries.take(length)) < length,
    ensures
        first_failure(entries) == first_failure(entries.take(length)),
    decreases entries.len() - length,
{
    if length == entries.len() {
        assert(entries.take(length) =~= entries);
    } else {
        assert(entries.take(length + 1).drop_last() =~= entries.take(length));
        lemma_first_failure(entries, length + 1);
    }
}

/// The group of the interface of a jail is what its name begins with: at most fifteen
/// characters, and where it is not cut off, everything but the digits at the end of the name.
pub proof fn law_group_is_the_name_without_its_number(name: Seq<char>)
    ensures
        ({
            let group = group_spec(name);
            &&& group.len() <= 15
            &&& text::starts_with_spec(name, group)
            &&& group.len() < 15 ==> (group.len() == 0 || !text::is_digit(group.last())) && forall|
                i: int,
            |
                group.len() <= i < name.len() ==> text::is_digit(#[trigger] name[i])
        }),
{
    lemma_without_number(name);
    let stem = without_number(name);
    let group = group_spec(name);
    assert(name.take(group.len() as int) =~= group);
}

proof fn lemma_without_number(s: Seq<char>)
    ensures
        ({
            let stem = without_number(s);
            &&& stem.len() <= s.len()
            &&& stem == s.take(stem.len() as int)
            &&& stem.len() == 0 || !text::is_digit(stem.last())
            &&& forall|i: int| stem.len() <= i < s.len() ==> text::is_digit(#[trigger] s[i])
        }),
    decreases s.len(),
{
    if s.len() > 0 && text::is_digit(s.last()) {
        lemma_without_number(s.drop_last());
        let stem = without_number(s);
        assert(stem =~= s.take(stem.len() as int));
        assert forall|i: int| stem.len() <= i < s.len() implies text::is_digit(#[trigger] s[i]) by {
            if i < s.len() - 1 {
                assert(s.drop_last()[i] == s[i]);
            }
        }
    } else {
        assert(s.take(s.len() as int) =~= s);
    }
}

/// A jail runs on the inner end of the pair whose outer end is its interface on the host: the
/// outer end is in the bridge before the jail starts, the inner end is moved into the jail and
/// becomes `eth0` there, and only then its services are started. A name that is no outer end
/// is refused.
#[verifier::spinoff_prover]
#[verifier::rlimit(40)]
pub proof fn law_jail_is_started_on_its_pair(
    name: Seq<char>,
    host: Seq<char>,
    stem: Seq<char>,
    config: Config,
)
    requires
        is_component(name),
    ensures
        ({
            let outer = "epair"@ + stem + "a"@;
            let inner = "epair"@ + stem + "b"@;
            let result = start_spec(name, host, outer, config);
            let plan = result->Ok_0;
            let count = plan.steps.len() as int;
            &&& result is Ok
            &&& plan.performs(Act::InterfaceUp(outer))
            &&& plan.performs(Act::BridgeAdd { bridge: config.bridge@, member: outer })
            &&& group_spec(name).len() > 0 ==> plan.performs(
                Act::GroupAdd { interface: outer, group: group_spec(name) },
            )
            &&& plan.calls(
                "mount"@,
                seq!["-t"@, "devfs"@, "devfs"@, "/var/priosun/jail/"@ + name + "/dev"@],
            )
            &&& plan.steps[count - 6].action == (Act::JailStart {
                name,
                root: "/var/priosun/jail/"@ + name,
                hostname: name + "."@ + host,
                interface: outer,
            })
            &&& plan.steps[count - 5].action == (Act::JailInterface { name, interface: inner })
            &&& plan.steps[count - 3].action == (Act::JailRename {
                name,
                from: inner,
                to: "eth0"@,
            })
            &&& plan.steps[count - 1].action matches Act::RunLog { command, path } && path
                == "/var/log/priosun/"@ + name + ".log"@ && command.program == "jexec"@
                && command.args =~= seq![name, "/bin/sh"@, "/etc/rc"@]
            &&& forall|i: int| 0 <= i < count ==> !(#[trigger] plan.steps[i]).optional
        }),
{
    broadcast use plan::group_plan_contents;

    let outer = "epair"@ + stem + "a"@;
    reveal_strlit("epair");
    reveal_strlit("a");
    assert(outer.take(5) =~= "epair"@);
    assert(outer.last() == 'a');
    assert(outer.drop_last() =~= "epair"@ + stem);
    law_jails_have_their_places(name, config);
    lemma_root_files(name, jail_path(name), config);
    reveal_strlit("/var/log/priosun");
    reveal_strlit("/var/log/priosun/");
    assert("/var/log/priosun"@.push('/') + (name + ".log"@) =~= "/var/log/priosun/"@ + name
        + ".log"@);
    assert((name + ".log"@)[0] == name[0]);
    assert(name.contains(name[0]));
}

/// Only the outer end of a pair is taken for the interface of a jail.
pub proof fn law_other_interfaces_are_refused(
    name: Seq<char>,
    host: Seq<char>,
    interface: Seq<char>,
    config: Config,
)
    ensures
        start_spec(name, host, interface, config) is Ok <==> text::starts_with_spec(
            interface,
            "epair"@,
        ) && interface.last() == 'a',
{
}

/// A jail is stopped exactly if it is managed and what it runs on is known: its interface
/// leaves the bridge and is destroyed before the jail is stopped, and its devices are unmounted
/// after that. A jail that does not run is left alone.
pub proof fn law_stop_takes_a_jail_down(
    name: Seq<char>,
    config: Config,
    files: Snapshot,
    state: State,
)
    ensures
        ({
            let result = stop_spec(name, config, files, state);
            let plan = result->Ok_0;
            &&& result is Ok <==> snapshot::is_dir_at(files, jail_path(name)) && (state is Stopped
                || (state is Running && state->Running_0 is Interface))
            &&& result is Ok && state is Stopped ==> plan.steps.len() == 0
            &&& result is Ok && state is Running ==> {
                let interface = state->Running_0->Interface_0@;
                &&& plan.steps.len() == 7
                &&& plan.steps[1].action == (Act::BridgeDelete {
                    bridge: config.bridge@,
                    member: interface,
                })
                &&& plan.steps[3].action == Act::InterfaceDestroy(interface)
                &&& plan.steps[4].action == Act::JailStop(name)
                &&& plan.steps[6].action == Act::Unmount(
                    text::join_path_spec(jail_path(name), "dev"@),
                )
            }
        }),
{
}

/// A base jail is destroyed with its dataset and its directory, and nothing but those; one
/// that is not there is not destroyed. A jail of the same name is another thing.
pub proof fn law_destroyed_base_jail_is_gone(name: Seq<char>, config: Config, files: Snapshot)
    requires
        is_component(name),
    ensures
        ({
            let place = "/var/priosun/base/"@ + name;
            let result = destroy_base_spec(name, config, files);
            let plan = result->Ok_0;
            &&& result is Ok <==> snapshot::exists_at(files, place)
            &&& result is Ok ==> plan.steps.len() == 2 && plan::is_call(
                plan.steps[0].action,
                "zfs"@,
                seq!["destroy"@, "-r"@, "-f"@, config.zfs_pool@ + place],
            ) && plan.steps[1].action == Act::DropTree(place)
        }),
{
    law_jails_have_their_places(name, config);
}

/// Whether a resource is started with the daemon is recorded on its dataset.
pub proof fn law_enabling_is_recorded(dataset: Seq<char>)
    ensures
        enable_plan(dataset, true).steps.len() == 1 && plan::is_call(
            enable_plan(dataset, true).steps[0].action,
            "zfs"@,
            seq!["set"@, "priosun:enabled=true"@, dataset],
        ),
        enable_plan(dataset, false).steps.len() == 1 && plan::is_call(
            enable_plan(dataset, false).steps[0].action,
            "zfs"@,
            seq!["set"@, "priosun:enabled=false"@, dataset],
        ),
{
    lemma_property_texts();
}

/// Devices that are busy are tried fifty times to be unmounted.
pub proof fn law_busy_devices_are_tried_fifty_times()
    ensures
        UNMOUNT_ATTEMPTS == 50,
{
}

proof fn lemma_listed_jails(entries: Seq<JailEntry>)
    ensures
        forall|entry: JailEntry| #[trigger]
            listed_jails(entries).contains(entry) <==> exists|i: int|
                0 <= i < entries.len() && (#[trigger] entries[i]).directory && entries[i] == entry,
    decreases entries.len(),
{
    if entries.len() > 0 {
        let front = entries.drop_last();
        lemma_listed_jails(front);
        let kept = listed_jails(front);
        assert forall|entry: JailEntry| #[trigger]
            listed_jails(entries).contains(entry) <==> exists|i: int|
                0 <= i < entries.len() && (#[trigger] entries[i]).directory && entries[i]
                    == entry by {
            if listed_jails(entries).contains(entry) {
                let k = listed_jails(entries).index_of(entry);
                if k < kept.len() {
                    assert(kept[k] == entry);
                    assert(kept.contains(entry));
                    let i = choose|i: int|
                        0 <= i < front.len() && (#[trigger] front[i]).directory && front[i]
                            == entry;
                    assert(entries[i] == entry);
                } else {
                    assert(entries[entries.len() - 1] == entry);
                }
            }
            if exists|i: int|
                0 <= i < entries.len() && (#[trigger] entries[i]).directory && entries[i]
                    == entry {
                let i = choose|i: int|
                    0 <= i < entries.len() && (#[trigger] entries[i]).directory && entries[i]
                        == entry;
                if i < front.len() {
                    assert(front[i] == entry);
                    assert(kept.contains(entry));
                    let k = kept.index_of(entry);
                    assert(listed_jails(entries)[k] == entry);
                } else {
                    assert(listed_jails(entries)[kept.len() as int] == entry);
                }
            }
        }
    }
}

/// The list of the jails is ordered by name and tells of every directory what was found out
/// of it, and of nothing else: a jail that runs is listed as running, with its name and its
/// addresses, and one that does not as stopped, with neither.
pub proof fn law_jails_are_listed(
    entries: Seq<JailEntry>,
    infos: Seq<JailInfo>,
    list: Seq<JailInfo>,
)
    requires
        sort::is_sorted(list),
        all_described(infos, listed_jails(entries)),
        list.to_multiset() == infos.to_multiset(),
    ensures
        forall|i: int, j: int|
            0 <= i < j < list.len() ==> sort::not_after(
                (#[trigger] list[i]).name@,
                (#[trigger] list[j]).name@,
            ),
        forall|i: int|
            0 <= i < entries.len() && (#[trigger] entries[i]).directory ==> exists|j: int|
                0 <= j < list.len() && describes(
                    #[trigger] list[j],
                    entries[i].name@,
                    entries[i].probe,
                ),
        forall|j: int|
            0 <= j < list.len() ==> {
                &&& exists|i: int|
                    0 <= i < entries.len() && (#[trigger] entries[i]).directory && describes(
                        list[j],
                        entries[i].name@,
                        entries[i].probe,
                    )
                &&& (#[trigger] list[j]).status@ == "running"@ || (list[j].status@ == "stopped"@
                    && list[j].hostname@ == ""@ && list[j].ips@ == ""@)
            },
{
    let jails = listed_jails(entries);
    lemma_listed_jails(entries);
    assert forall|i: int, j: int| 0 <= i < j < list.len() implies sort::not_after(
        (#[trigger] list[i]).name@,
        (#[trigger] list[j]).name@,
    ) by {
        assert(list[i].key() == list[i].name@ && list[j].key() == list[j].name@);
    }
    assert forall|i: int| 0 <= i < entries.len() && (#[trigger] entries[i]).directory implies exists|
        j: int,
    |
        0 <= j < list.len() && describes(
            #[trigger] list[j],
            entries[i].name@,
            entries[i].probe,
        ) by {
        assert(jails.contains(entries[i]));
        let k = jails.index_of(entries[i]);
        assert(describes(infos[k], jails[k].name@, jails[k].probe));
        assert(infos.contains(infos[k]));
        sort::lemma_same_things(infos, list, infos[k]);
        let j = list.index_of(infos[k]);
        assert(list[j] == infos[k]);
    }
    assert forall|j: int| 0 <= j < list.len() implies {
        &&& exists|i: int|
            0 <= i < entries.len() && (#[trigger] entries[i]).directory && describes(
                list[j],
                entries[i].name@,
                entries[i].probe,
            )
        &&& (#[trigger] list[j]).status@ == "running"@ || (list[j].status@ == "stopped"@
            && list[j].hostname@ == ""@ && list[j].ips@ == ""@)
    } by {
        assert(list.contains(list[j]));
        sort::lemma_same_things(infos, list, list[j]);
        let k = infos.index_of(list[j]);
        assert(infos[k] == list[j]);
        assert(describes(infos[k], jails[k].name@, jails[k].probe));
        assert(jails.contains(jails[k]));
        let i = choose|i: int|
            0 <= i < entries.len() && (#[trigger] entries[i]).directory && entries[i] == jails[k];
        assert(entries[i] == jails[k]);
    }
}

/// Before a jail is created it is looked up whether its name is taken, by a base jail or by
/// a virtual machine too, and whether the base jail that it is made from is there.
pub proof fn law_taken_names_are_looked_up(options: CreateOptions)
    ensures
        options.base || probed_paths(options).contains(jail_path(options.name@)),
        probed_paths(options).contains(base_path(options.name@)),
        probed_paths(options).contains(bhyve::vm_path(options.name@)),
        options.from_base matches Some(source) ==> probed_paths(options).contains(
            base_path(source@),
        ),
{
    let paths = probed_paths(options);
    assert(paths[0] == new_root(options));
    assert(paths[1] == base_path(options.name@));
    assert(paths[2] == bhyve::vm_path(options.name@));
    if let Some(source) = options.from_base {
        assert(paths[3] == base_path(source@));
    }
}

/// The failure of a listing is the first one: none comes before it, and with none at all
/// every entry has been gone through.
pub proof fn law_first_failure_is_told(entries: Seq<JailEntry>)
    ensures
        0 <= first_failure(entries) <= entries.len(),
        forall|i: int|
            0 <= i < first_failure(entries) ==> entry_failure(#[trigger] entries[i]) is None,
        first_failure(entries) < entries.len() ==> entry_failure(entries[first_failure(entries)]) is Some,
    decreases entries.len(),
{
    if entries.len() > 0 {
        let front = entries.drop_last();
        law_first_failure_is_told(front);
        assert forall|i: int| 0 <= i < first_failure(entries) implies entry_failure(
            #[trigger] entries[i],
        ) is None by {
            if i < front.len() {
                assert(entries[i] == front[i]);
            }
        }
        if first_failure(front) < front.len() {
            assert(entries[first_failure(front)] == front[first_failure(front)]);
        }
    }
}

proof fn lemma_undo_start(
    start: Seq<Seq<Act>>,
    interface: Seq<char>,
    bridge: Seq<char>,
    devices: Seq<char>,
    bridged: bool,
    mounted: bool,
)
    ensures
        ({
            let undone = undo_start(start, interface, bridge, devices, bridged, mounted);
            &&& recovers(undone, Act::InterfaceDestroy(interface))
            &&& bridged ==> recovers(
                undone,
                Act::BridgeDelete { bridge, member: interface },
            )
            &&& mounted ==> recovers(undone, Act::Run(umount_spec(devices)))
            &&& start.len() > 0 && start[0].len() > 0 ==> recovers(undone, start[0][0])
        }),
{
    let undone = undo_start(start, interface, bridge, devices, bridged, mounted);
    let last = undone.len() - 1;
    assert(undone[last][0] == Act::InterfaceDestroy(interface));
    if bridged {
        assert(undone[last - 1][0] == (Act::BridgeDelete { bridge, member: interface }));
    }
    if mounted {
        assert(undone[start.len() as int][0] == Act::Run(umount_spec(devices)));
    }
    if start.len() > 0 {
        assert(undone[0] == start[0]);
        if start[0].len() > 0 {
            assert(undone[0][0] == start[0][0]);
        }
    }
}

proof fn lemma_undo_running(
    name: Seq<char>,
    interface: Seq<char>,
    bridge: Seq<char>,
    devices: Seq<char>,
)
    ensures
        ({
            let undone = undo_running(name, interface, bridge, devices);
            &&& recovers(undone, Act::InterfaceDestroy(interface))
            &&& recovers(undone, Act::BridgeDelete { bridge, member: interface })
            &&& recovers(undone, Act::Run(umount_spec(devices)))
            &&& recovers(undone, Act::JailStop(name))
        }),
{
    let undone = undo_running(name, interface, bridge, devices);
    assert(undone[0][1] == (Act::BridgeDelete { bridge, member: interface }));
    assert(undone[0][3] == Act::InterfaceDestroy(interface));
    assert(undone[1][0] == Act::JailStop(name));
    assert(undone[2][0] == Act::Run(umount_spec(devices)));
}

/// A start that fails leaves nothing behind: whichever step fails, the interface is destroyed,
/// and what was done before the step is undone, that is the membership in the bridge, the
/// mount of the devices and the jail itself.
#[verifier::spinoff_prover]
#[verifier::rlimit(40)]
pub proof fn law_failed_start_is_undone(
    name: Seq<char>,
    host: Seq<char>,
    interface: Seq<char>,
    config: Config,
    i: int,
)
    requires
        start_spec(name, host, interface, config) is Ok,
        0 <= i < start_spec(name, host, interface, config)->Ok_0.steps.len(),
        !(start_spec(name, host, interface, config)->Ok_0.steps[i].action is Message),
    ensures
        ({
            let steps = start_spec(name, host, interface, config)->Ok_0.steps;
            let undone = steps[i].recovery;
            let bridge = config.bridge@;
            let devices = text::join_path_spec(jail_path(name), "dev"@);
            let added = exists|k: int|
                0 <= k < i && (#[trigger] steps[k]).action == (Act::BridgeAdd {
                    bridge,
                    member: interface,
                });
            let mounted = exists|k: int|
                0 <= k < i && (#[trigger] steps[k]).action == Act::Run(
                    mount_spec("devfs"@, "devfs"@, devices),
                );
            let started = exists|k: int| 0 <= k < i && (#[trigger] steps[k]).action is JailStart;
            &&& recovers(undone, Act::InterfaceDestroy(interface))
            &&& added ==> recovers(
                undone,
                Act::BridgeDelete { bridge, member: interface },
            )
            &&& mounted ==> recovers(undone, Act::Run(umount_spec(devices)))
            &&& started ==> recovers(undone, Act::JailStop(name))
        }),
{
    let steps = start_spec(name, host, interface, config)->Ok_0.steps;
    let count = steps.len() as int;
    let bridge = config.bridge@;
    let devices = text::join_path_spec(jail_path(name), "dev"@);
    let none = plan::no_recovery();
    let stopping = none.push(plan::one(Act::JailStop(name)));
    lemma_undo_start(none, interface, bridge, devices, false, false);
    lemma_undo_start(none, interface, bridge, devices, true, false);
    lemma_undo_start(none, interface, bridge, devices, true, true);
    lemma_undo_start(stopping, interface, bridge, devices, true, true);
    assert(stopping[0][0] == Act::JailStop(name));
    lemma_undo_running(name, interface, bridge, devices);
    assert(steps[count - 10].action == (Act::BridgeAdd { bridge, member: interface }));
    assert(steps[count - 8].action == Act::Run(mount_spec("devfs"@, "devfs"@, devices)));
    assert(steps[count - 6].action is JailStart);
    assert(steps[count - 8].recovery == undo_start(none, interface, bridge, devices, true, false));
    assert(steps[count - 6].recovery == undo_start(none, interface, bridge, devices, true, true));
    assert(steps[count - 5].recovery == undo_start(
        stopping,
        interface,
        bridge,
        devices,
        true,
        true,
    ));
    assert(steps[count - 3].recovery == undo_running(name, interface, bridge, devices));
    assert(steps[count - 1].recovery == undo_running(name, interface, bridge, devices));
}

} // verus!
