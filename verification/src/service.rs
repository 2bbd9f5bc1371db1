//! Services: directories with a manifest, from which a jail or a virtual machine is run.

use vstd::prelude::*;

use crate::error;
use crate::error::{caused, Error};
use crate::jail;
use crate::plan;
use crate::plan::{command, Act, Action, CommandLine, Plan, PlanModel};
use crate::request;
use crate::snapshot;
use crate::snapshot::Snapshot;
use crate::text;
use crate::text::{alphanumeric, bool_text, characters, join_path, owned, same};
use crate::wire;
use crate::wire::Value;

verus! {

// ---------------------------------------------------------------------------
// Manifests
// ---------------------------------------------------------------------------

/// The manifest of a service.
#[derive(Debug)]
pub struct Manifest {
    pub name: String,
    pub container: String,
    pub develop: bool,
    pub provisioners: Vec<String>,
}

/// What was found of a manifest.
#[derive(Debug)]
pub enum ManifestFile {
    /// It could not be read, for this reason.
    Unreadable(String),
    /// It could not be understood, for this reason.
    Invalid(String),
    Loaded(Manifest),
}

/// The manifest, or why a command cannot do without.
pub open spec fn manifest_spec(command: Seq<char>, file: ManifestFile) -> Result<
    Manifest,
    Seq<char>,
> {
    match file {
        ManifestFile::Unreadable(reason) => Err(
            error::with_cause(
                command + " must be run from an initialized service directory"@,
                reason@,
            ),
        ),
        ManifestFile::Invalid(reason) => Err(
            error::with_cause("failed to parse service.toml"@, reason@),
        ),
        ManifestFile::Loaded(manifest) => Ok(manifest),
    }
}

fn load_manifest(command: &str, file: ManifestFile) -> (result: Result<Manifest, Error>)
    ensures
        error::outcome(result) == manifest_spec(command@, file),
{
    match file {
        ManifestFile::Unreadable(reason) => Err(
            caused(
                owned(command).concat(" must be run from an initialized service directory"),
                reason.as_str(),
            ),
        ),
        ManifestFile::Invalid(reason) => Err(
            caused(owned("failed to parse service.toml"), reason.as_str()),
        ),
        ManifestFile::Loaded(manifest) => Ok(manifest),
    }
}

// ---------------------------------------------------------------------------
// New services
// ---------------------------------------------------------------------------

/// Whether a character can stand in the name of a service.
pub open spec fn is_name_char(c: char) -> bool {
    text::is_alphanumeric(c) || c == '.' || c == '-' || c == '_'
}

/// Whether a text can be the name of a service.
pub open spec fn is_service_name(name: Seq<char>) -> bool {
    name.len() > 0 && forall|i: int| 0 <= i < name.len() ==> is_name_char(#[trigger] name[i])
}

/// Fails if a text cannot be the name of a service.
pub fn validate_name(name: &str) -> (result: Result<(), Error>)
    ensures
        match result {
            Ok(_) => is_service_name(name@),
            Err(error) => !is_service_name(name@) && error@
                == "service name must be a single directory name: "@ + name@,
        },
{
    let chars = characters(name);
    let mut good = chars.len() > 0;
    let mut index: usize = 0;
    while index < chars.len() && good
        invariant
            chars@ == name@,
            index <= chars@.len(),
            good ==> chars@.len() > 0 && forall|i: int|
                0 <= i < index ==> is_name_char(#[trigger] name@[i]),
            !good ==> !is_service_name(name@),
        decreases chars@.len() - index,
    {
        let c = chars[index];
        if !(alphanumeric(c) || c == '.' || c == '-' || c == '_') {
            proof {
                assert(!is_name_char(name@[index as int]));
            }
            good = false;
        }
        index += 1;
    }
    if good {
        Ok(())
    } else {
        Err(
            Error::new(owned("service name must be a single directory name: ").concat(name)),
        )
    }
}

/// What keeps a service from being created, if something does.
pub open spec fn init_obstacle(
    name: Seq<char>,
    container: Seq<char>,
    provisioner: Option<Seq<char>>,
    files: Snapshot,
) -> Option<Seq<char>> {
    if !is_service_name(name) {
        Some("service name must be a single directory name: "@ + name)
    } else if container != "jail"@ && container != "vm"@ {
        Some("unsupported container: "@ + container)
    } else if provisioner is Some && provisioner->Some_0 != "ansible"@ {
        Some("unsupported provisioner: "@ + provisioner->Some_0)
    } else if snapshot::exists_at(files, name) {
        Some("service directory already exists: "@ + name)
    } else {
        None
    }
}

/// The text of a new manifest.
pub open spec fn manifest_text(
    name: Seq<char>,
    container: Seq<char>,
    provisioner: Option<Seq<char>>,
    develop: bool,
) -> Seq<char> {
    "name = \""@ + name + "\"\ncontainer = \""@ + container + "\"\ndevelop = "@ + text::bool_spec(
        develop,
    ) + "\nprovisioners = "@ + match provisioner {
        Some(provisioner) => "[\""@ + provisioner + "\"]"@,
        None => "[]"@,
    } + "\n"@
}

/// What is kept out of version control.
pub const IGNORED: &'static str = "ansible/group_vars/all\nansible/inventory/inventory\nansible/roles/*\n!ansible/roles/.keep\n";

/// The roles that Ansible installs for a new service.
pub const ANSIBLE_REQUIREMENTS: &'static str = "- onelove-roles.freebsd-common\n";

/// How the files of Ansible are created in the directory of a service.
pub open spec fn ansible_plan(start: PlanModel, name: Seq<char>) -> PlanModel {
    start.must(Act::CreateDir(text::join_path_spec(name, "ansible/group_vars"@))).must(
        Act::CreateDir(text::join_path_spec(name, "ansible/inventory"@)),
    ).must(Act::CreateDir(text::join_path_spec(name, "ansible/roles"@))).must(
        Act::Write { path: text::join_path_spec(name, "ansible/roles/.keep"@), text: ""@ },
    ).must(
        Act::Write {
            path: text::join_path_spec(name, "ansible/requirements.yml"@),
            text: ANSIBLE_REQUIREMENTS@,
        },
    ).must(
        Act::Write {
            path: text::join_path_spec(name, "ansible/site.yml"@),
            text: "---\n- name: "@ + name + " provisioning\n  hosts: "@ + name
                + "\n  roles: []\n"@,
        },
    )
}

fn init_ansible(start: Plan, name: &str) -> (plan: Plan)
    ensures
        plan@ == ansible_plan(start@, name@),
{
    start.must(Action::CreateDir(join_path(name, "ansible/group_vars"))).must(
        Action::CreateDir(join_path(name, "ansible/inventory")),
    ).must(Action::CreateDir(join_path(name, "ansible/roles"))).must(
        Action::Write { path: join_path(name, "ansible/roles/.keep"), text: owned("") },
    ).must(
        Action::Write {
            path: join_path(name, "ansible/requirements.yml"),
            text: owned(ANSIBLE_REQUIREMENTS),
        },
    ).must(
        Action::Write {
            path: join_path(name, "ansible/site.yml"),
            text: owned("---\n- name: ").concat(name).concat(" provisioning\n  hosts: ").concat(
                name,
            ).concat("\n  roles: []\n"),
        },
    )
}

/// How the directory of a service is created.
pub open spec fn init_plan(
    name: Seq<char>,
    container: Seq<char>,
    provisioner: Option<Seq<char>>,
    develop: bool,
) -> PlanModel {
    let start = plan::no_steps().must(Act::CreateNewDir(name)).must(
        Act::Write {
            path: text::join_path_spec(name, "service.toml"@),
            text: manifest_text(name, container, provisioner, develop),
        },
    ).must(Act::Write { path: text::join_path_spec(name, ".gitignore"@), text: IGNORED@ });
    if provisioner == Some("ansible"@) {
        ansible_plan(start, name)
    } else {
        start
    }
}

/// Plans a new service, with its manifest and the files of its provisioner.
pub fn init(
    name: &str,
    container: &str,
    provisioner: Option<&str>,
    develop: bool,
    files: &Snapshot,
) -> (result: Result<Plan, Error>)
    ensures
        match (
            init_obstacle(name@, container@, text::str_view(provisioner), *files),
            result,
        ) {
            (None, Ok(plan)) => plan@ == init_plan(
                name@,
                container@,
                text::str_view(provisioner),
                develop,
            ),
            (Some(reason), Err(error)) => error@ == reason,
            _ => false,
        },
{
    match validate_name(name) {
        Ok(_) => {},
        Err(error) => {
            return Err(error);
        },
    }
    if !same(container, "jail") && !same(container, "vm") {
        return Err(Error::new(owned("unsupported container: ").concat(container)));
    }
    let listed = match provisioner {
        Some(provisioner) => {
            if !same(provisioner, "ansible") {
                return Err(Error::new(owned("unsupported provisioner: ").concat(provisioner)));
            }
            owned("[\"").concat(provisioner).concat("\"]")
        },
        None => owned("[]"),
    };
    if files.present(name) {
        return Err(Error::new(owned("service directory already exists: ").concat(name)));
    }
    let manifest = owned("name = \"").concat(name).concat("\"\ncontainer = \"").concat(
        container,
    ).concat("\"\ndevelop = ").concat(bool_text(develop).as_str()).concat(
        "\nprovisioners = ",
    ).concat(listed.as_str()).concat("\n");
    let start = Plan::new().must(Action::CreateNewDir(owned(name))).must(
        Action::Write { path: join_path(name, "service.toml"), text: manifest },
    ).must(Action::Write { path: join_path(name, ".gitignore"), text: owned(IGNORED) });
    match provisioner {
        Some(_) => Ok(init_ansible(start, name)),
        None => Ok(start),
    }
}

// ---------------------------------------------------------------------------
// Commands of a service
// ---------------------------------------------------------------------------

/// What came of asking for arguments, as characters.
pub open spec fn args_result(result: Result<Vec<String>, Error>) -> Result<
    Seq<Seq<char>>,
    Seq<char>,
> {
    match result {
        Ok(args) => Ok(text::views(args@)),
        Err(error) => Err(error@),
    }
}

/// Arguments as plain values, in the order in which they are given.
pub open spec fn no_args() -> Seq<Seq<char>> {
    Seq::empty()
}

fn push(args: Vec<String>, arg: &str) -> (longer: Vec<String>)
    ensures
        text::views(longer@) == text::views(args@).push(arg@),
{
    let mut longer = args;
    longer.push(owned(arg));
    proof {
        assert(text::views(longer@) =~= text::views(args@).push(arg@));
    }
    longer
}

fn first(arg: &str) -> (args: Vec<String>)
    ensures
        text::views(args@) == no_args().push(arg@),
{
    let start: Vec<String> = Vec::new();
    proof {
        assert(text::views(start@) =~= no_args());
    }
    push(start, arg)
}

fn push_provisioners(args: Vec<String>, provisioners: &Vec<String>) -> (longer: Vec<String>)
    ensures
        text::views(longer@) == request::with_provisioners(
            text::views(args@),
            text::views(provisioners@),
        ),
{
    let ghost model = text::views(provisioners@);
    let ghost start = text::views(args@);
    let mut longer = args;
    let mut index: usize = 0;
    while index < provisioners.len()
        invariant
            index <= provisioners@.len(),
            model == text::views(provisioners@),
            text::views(longer@) == request::with_provisioners(start, model.take(index as int)),
        decreases provisioners@.len() - index,
    {
        proof {
            assert(model.take(index + 1).drop_last() =~= model.take(index as int));
            assert(model.take(index + 1).last() == provisioners@[index as int]@);
        }
        longer = push(push(longer, "--provisioner"), provisioners[index].as_str());
        index += 1;
    }
    proof {
        assert(model.take(index as int) =~= model);
    }
    longer
}

/// The arguments that `up` and `down` have in common.
pub open spec fn service_args(command: Seq<char>, manifest: Manifest, directory: Seq<char>) -> Seq<
    Seq<char>,
> {
    no_args().push(command).push("--container"@).push(manifest.container@).push(
        "--develop"@,
    ).push(text::bool_spec(manifest.develop)).push("--service-dir"@).push(directory)
}

/// Why a command does not take a service that does not run in a jail.
pub open spec fn jail_only(command: Seq<char>, manifest: Manifest) -> Seq<char> {
    command + " currently supports jail services only; "@ + manifest.name@ + " uses a "@
        + manifest.container@ + " container"@
}

/// The arguments of `up` or `down` for the service in a directory.
pub open spec fn service_args_spec(
    command: Seq<char>,
    file: ManifestFile,
    directory: Result<Seq<char>, Seq<char>>,
) -> Result<Seq<Seq<char>>, Seq<char>> {
    match (manifest_spec(command, file), directory) {
        (Err(reason), _) => Err(reason),
        (Ok(manifest), Err(reason)) => if manifest.container@ != "jail"@ {
            Err(jail_only(command, manifest))
        } else {
            Err(reason)
        },
        (Ok(manifest), Ok(directory)) => if manifest.container@ != "jail"@ {
            Err(jail_only(command, manifest))
        } else {
            Ok(
                request::with_provisioners(
                    service_args(command, manifest, directory),
                    if command == "up"@ {
                        text::views(manifest.provisioners@)
                    } else {
                        Seq::empty()
                    },
                ).push(manifest.name@),
            )
        },
    }
}

fn common_args(command: &str, file: ManifestFile, directory: &Result<String, Error>) -> (result:
    Result<(Vec<String>, Manifest), Error>)
    ensures
        match (manifest_spec(command@, file), error::text_outcome(*directory), result) {
            (Err(reason), _, Err(error)) => error@ == reason,
            (Ok(manifest), _, Err(error)) if manifest.container@ != "jail"@ => error@ == jail_only(
                command@,
                manifest,
            ),
            (Ok(manifest), Err(reason), Err(error)) => error@ == reason,
            (Ok(manifest), Ok(directory), Ok((args, same))) => manifest.container@ == "jail"@
                && same == manifest && text::views(args@) == service_args(
                command@,
                manifest,
                directory,
            ),
            _ => false,
        },
{
    let manifest = match load_manifest(command, file) {
        Ok(manifest) => manifest,
        Err(error) => {
            return Err(error);
        },
    };
    if !same(manifest.container.as_str(), "jail") {
        return Err(
            Error::new(
                owned(command).concat(" currently supports jail services only; ").concat(
                    manifest.name.as_str(),
                ).concat(" uses a ").concat(manifest.container.as_str()).concat(" container"),
            ),
        );
    }
    match directory {
        Err(error) => Err(Error::new(owned(error.message.as_str()))),
        Ok(directory) => {
            let args = push(
                push(
                    push(
                        push(
                            push(push(first(command), "--container"), manifest.container.as_str()),
                            "--develop",
                        ),
                        bool_text(manifest.develop).as_str(),
                    ),
                    "--service-dir",
                ),
                directory.as_str(),
            );
            Ok((args, manifest))
        },
    }
}

/// The arguments that bring the service in a directory up.
pub fn up_args(file: ManifestFile, directory: &Result<String, Error>) -> (result: Result<
    Vec<String>,
    Error,
>)
    ensures
        args_result(result) == service_args_spec("up"@, file, error::text_outcome(*directory)),
{
    match common_args("up", file, directory) {
        Ok((args, manifest)) => Ok(
            push(push_provisioners(args, &manifest.provisioners), manifest.name.as_str()),
        ),
        Err(error) => Err(error),
    }
}

/// The arguments that take the service in a directory down.
pub fn down_args(file: ManifestFile, directory: &Result<String, Error>) -> (result: Result<
    Vec<String>,
    Error,
>)
    ensures
        args_result(result) == service_args_spec("down"@, file, error::text_outcome(*directory)),
{
    proof {
        reveal_strlit("up");
        reveal_strlit("down");
        assert("up"@.len() == 2 && "down"@.len() == 4);
    }
    match common_args("down", file, directory) {
        Ok((args, manifest)) => Ok(push(args, manifest.name.as_str())),
        Err(error) => Err(error),
    }
}

/// The place of the first provisioner that is not supported; their number if there is none.
pub open spec fn unsupported_from(provisioners: Seq<Seq<char>>, from: int) -> int
    decreases provisioners.len() - from,
{
    if from < 0 || from >= provisioners.len() {
        provisioners.len() as int
    } else if provisioners[from] != "ansible"@ {
        from
    } else {
        unsupported_from(provisioners, from + 1)
    }
}

fn find_unsupported(provisioners: &Vec<String>) -> (place: usize)
    ensures
        place == unsupported_from(text::views(provisioners@), 0),
        place <= provisioners@.len(),
{
    let mut place: usize = 0;
    while place < provisioners.len() && same(provisioners[place].as_str(), "ansible")
        invariant
            place <= provisioners@.len(),
            unsupported_from(text::views(provisioners@), 0) == unsupported_from(
                text::views(provisioners@),
                place as int,
            ),
        decreases provisioners@.len() - place,
    {
        place += 1;
    }
    place
}

/// The arguments that provision the service in a directory.
pub open spec fn provision_args_spec(
    file: ManifestFile,
    directory: Result<Seq<char>, Seq<char>>,
) -> Result<Seq<Seq<char>>, Seq<char>> {
    match manifest_spec("provision"@, file) {
        Err(reason) => Err(reason),
        Ok(manifest) => {
            let provisioners = text::views(manifest.provisioners@);
            let place = unsupported_from(provisioners, 0);
            if provisioners.len() == 0 {
                Err("no provisioner is configured in service.toml"@)
            } else if place < provisioners.len() {
                Err("unsupported provisioner in service.toml: "@ + provisioners[place])
            } else {
                match directory {
                    Err(reason) => Err(reason),
                    Ok(directory) => Ok(
                        request::with_provisioners(
                            no_args().push("provision"@).push("--service-dir"@).push(
                                directory,
                            ).push("--container"@).push(manifest.container@).push("--name"@).push(
                                manifest.name@,
                            ),
                            provisioners,
                        ),
                    ),
                }
            }
        },
    }
}

/// The arguments that provision the service in a directory.
pub fn provision_args(file: ManifestFile, directory: &Result<String, Error>) -> (result: Result<
    Vec<String>,
    Error,
>)
    ensures
        args_result(result) == provision_args_spec(file, error::text_outcome(*directory)),
{
    let manifest = match load_manifest("provision", file) {
        Ok(manifest) => manifest,
        Err(error) => {
            return Err(error);
        },
    };
    if manifest.provisioners.len() == 0 {
        return Err(Error::new(owned("no provisioner is configured in service.toml")));
    }
    let place: usize = find_unsupported(&manifest.provisioners);
    if place < manifest.provisioners.len() {
        return Err(
            Error::new(
                owned("unsupported provisioner in service.toml: ").concat(
                    manifest.provisioners[place].as_str(),
                ),
            ),
        );
    }
    match directory {
        Err(error) => Err(Error::new(owned(error.message.as_str()))),
        Ok(directory) => {
            let args = push(
                push(
                    push(
                        push(
                            push(
                                push(first("provision"), "--service-dir"),
                                directory.as_str(),
                            ),
                            "--container",
                        ),
                        manifest.container.as_str(),
                    ),
                    "--name",
                ),
                manifest.name.as_str(),
            );
            Ok(push_provisioners(args, &manifest.provisioners))
        },
    }
}

/// The arguments that attach to the service of a manifest.
pub fn attach_args(file: ManifestFile) -> (result: Result<Vec<String>, Error>)
    ensures
        args_result(result) == match manifest_spec("attach"@, file) {
            Ok(manifest) => Ok(no_args().push("attach"@).push(manifest.name@)),
            Err(reason) => Err(reason),
        },
{
    match load_manifest("attach", file) {
        Ok(manifest) => Ok(push(first("attach"), manifest.name.as_str())),
        Err(error) => Err(error),
    }
}

/// The arguments that destroy the service of a manifest, which must run in a jail.
pub open spec fn destroy_args_spec(file: ManifestFile) -> Result<Seq<Seq<char>>, Seq<char>> {
    match manifest_spec("destroy"@, file) {
        Err(reason) => Err(reason),
        Ok(manifest) => if manifest.container@ != "jail"@ {
            Err("unsupported container in service manifest: "@ + manifest.container@)
        } else {
            Ok(no_args().push("destroy"@).push(manifest.container@).push(manifest.name@))
        },
    }
}

/// The arguments that destroy the service of a manifest.
pub fn destroy_args(file: ManifestFile) -> (result: Result<Vec<String>, Error>)
    ensures
        args_result(result) == destroy_args_spec(file),
{
    match load_manifest("destroy", file) {
        Err(error) => Err(error),
        Ok(manifest) => if !same(manifest.container.as_str(), "jail") {
            Err(
                Error::new(
                    owned("unsupported container in service manifest: ").concat(
                        manifest.container.as_str(),
                    ),
                ),
            )
        } else {
            Ok(
                push(
                    push(first("destroy"), manifest.container.as_str()),
                    manifest.name.as_str(),
                ),
            )
        },
    }
}

// ---------------------------------------------------------------------------
// Provisioning
// ---------------------------------------------------------------------------

/// The command that installs the roles of a service.
pub open spec fn galaxy_spec() -> CommandLine {
    plan::line("ansible-galaxy"@).arg("install"@).arg("-r"@).arg("ansible/requirements.yml"@).arg(
        "-p"@,
    ).arg("ansible/roles"@)
}

/// The command that applies the playbook of a service.
pub open spec fn playbook_spec() -> CommandLine {
    plan::line("ansible-playbook"@).arg("-i"@).arg("ansible/inventory/inventory"@).arg(
        "ansible/site.yml"@,
    )
}

/// How provisioners are applied in a directory, in order. One that is not supported ends it.
pub open spec fn provision_plan(directory: Seq<char>, provisioners: Seq<Seq<char>>) -> PlanModel
    decreases provisioners.len(),
{
    if provisioners.len() == 0 {
        plan::no_steps()
    } else {
        let earlier = provision_plan(directory, provisioners.drop_last());
        if provisioners.last() == "ansible"@ {
            earlier.must(Act::RunIn { command: galaxy_spec(), directory }).must(
                Act::RunIn { command: playbook_spec(), directory },
            )
        } else {
            earlier.fail("unsupported provisioner: "@ + provisioners.last())
        }
    }
}

/// Plans to apply provisioners to the service in a directory.
pub fn provision_at(service_dir: &str, provisioners: &Vec<String>, files: &Snapshot) -> (result:
    Result<Plan, Error>)
    ensures
        match result {
            Ok(plan) => snapshot::is_dir_at(*files, service_dir@) && provisioners@.len() > 0
                && plan@ == provision_plan(service_dir@, text::views(provisioners@)),
            Err(error) => if !snapshot::is_dir_at(*files, service_dir@) {
                error@ == "service directory does not exist: "@ + service_dir@
            } else {
                provisioners@.len() == 0 && error@ == "no provisioner was supplied"@
            },
        },
{
    if !files.is_dir(service_dir) {
        return Err(Error::new(owned("service directory does not exist: ").concat(service_dir)));
    }
    if provisioners.len() == 0 {
        return Err(Error::new(owned("no provisioner was supplied")));
    }
    let ghost model = text::views(provisioners@);
    let mut plan = Plan::new();
    let mut index: usize = 0;
    while index < provisioners.len()
        invariant
            index <= provisioners@.len(),
            model == text::views(provisioners@),
            plan@ == provision_plan(service_dir@, model.take(index as int)),
        decreases provisioners@.len() - index,
    {
        proof {
            assert(model.take(index + 1).drop_last() =~= model.take(index as int));
            assert(model.take(index + 1).last() == provisioners@[index as int]@);
        }
        if same(provisioners[index].as_str(), "ansible") {
            plan = plan.must(
                Action::RunIn {
                    command: command("ansible-galaxy").arg("install").arg("-r").arg(
                        "ansible/requirements.yml",
                    ).arg("-p").arg("ansible/roles"),
                    directory: owned(service_dir),
                },
            ).must(
                Action::RunIn {
                    command: command("ansible-playbook").arg("-i").arg(
                        "ansible/inventory/inventory",
                    ).arg("ansible/site.yml"),
                    directory: owned(service_dir),
                },
            );
        } else {
            plan = plan.fail(
                owned("unsupported provisioner: ").concat(provisioners[index].as_str()),
            );
        }
        index += 1;
    }
    proof {
        assert(model.take(index as int) =~= model);
    }
    Ok(plan)
}

// ---------------------------------------------------------------------------
// Laws
// ---------------------------------------------------------------------------

/// Services that do not run in a jail are taken neither up nor down, nor destroyed by their
/// manifest.
pub proof fn law_only_jail_services_are_run(file: ManifestFile, directory: Result<Seq<char>, Seq<char>>)
    requires
        file matches ManifestFile::Loaded(manifest) && manifest.container@ != "jail"@,
    ensures
        service_args_spec("up"@, file, directory) is Err,
        service_args_spec("down"@, file, directory) is Err,
        destroy_args_spec(file) is Err,
{
}

proof fn lemma_option_names()
    ensures
        "--container"@ != "--develop"@ && "--container"@ != "--service-dir"@ && "--container"@
            != "--provisioner"@,
        "--develop"@ != "--service-dir"@ && "--develop"@ != "--provisioner"@,
        "--service-dir"@ != "--provisioner"@,
        "jail"@ != "--develop"@ && "jail"@ != "--service-dir"@,
        "true"@ != "--service-dir"@ && "false"@ != "--service-dir"@,
        forall|s: Seq<char>|
            !text::starts_with_spec(s, "-"@) ==> s != "--container"@ && s != "--develop"@ && s
                != "--service-dir"@ && s != "--provisioner"@,
{
    reveal_strlit("--container");
    reveal_strlit("--develop");
    reveal_strlit("--service-dir");
    reveal_strlit("--provisioner");
    reveal_strlit("jail");
    reveal_strlit("true");
    reveal_strlit("false");
    reveal_strlit("-");
    assert("--service-dir"@[2] == 's' && "--provisioner"@[2] == 'p');
    assert("jail"@.len() == 4 && "true"@.len() == 4 && "false"@.len() == 5);
    assert("--container"@.len() == 11 && "--develop"@.len() == 9 && "--service-dir"@.len() == 13
        && "--provisioner"@.len() == 13);
    assert("--container"@.take(1) =~= "-"@);
    assert("--develop"@.take(1) =~= "-"@);
    assert("--service-dir"@.take(1) =~= "-"@);
    assert("--provisioner"@.take(1) =~= "-"@);
}

/// Whether a provisioner is named among arguments that name provisioners from `start` on.
pub open spec fn is_named(args: Seq<Seq<char>>, start: int, provisioners: Seq<Seq<char>>, i: int) -> bool {
    args[start + 2 * i] == "--provisioner"@ && args[start + 2 * i + 1] == provisioners[i]
}

proof fn lemma_with_provisioners(args: Seq<Seq<char>>, provisioners: Seq<Seq<char>>)
    ensures
        request::with_provisioners(args, provisioners).len() == args.len() + 2 * provisioners.len(),
        forall|i: int|
            0 <= i < args.len() ==> #[trigger] request::with_provisioners(args, provisioners)[i] == args[i],
        forall|i: int|
            0 <= i < provisioners.len() ==> #[trigger] is_named(
                request::with_provisioners(args, provisioners),
                args.len() as int,
                provisioners,
                i,
            ),
    decreases provisioners.len(),
{
    if provisioners.len() > 0 {
        let fewer = provisioners.drop_last();
        lemma_with_provisioners(args, fewer);
        assert forall|i: int| 0 <= i < provisioners.len() implies #[trigger] is_named(
            request::with_provisioners(args, provisioners),
            args.len() as int,
            provisioners,
            i,
        ) by {
            if i < fewer.len() {
                assert(is_named(request::with_provisioners(args, fewer), args.len() as int, fewer, i));
            }
        }
    }
}

proof fn lemma_names_found(
    args: Seq<Seq<char>>,
    start: int,
    done: int,
    provisioners: Seq<Seq<char>>,
    name: Seq<char>,
)
    requires
        0 <= done <= provisioners.len(),
        start >= 0,
        args.len() == start + 2 * provisioners.len() + 1,
        args.last() == name,
        !text::starts_with_spec(name, "-"@),
        forall|i: int|
            0 <= i < provisioners.len() ==> #[trigger] is_named(args, start, provisioners, i),
    ensures
        request::service_names("up"@, args, start + 2 * done, None, provisioners.take(done))
            == Ok::<(Option<Seq<char>>, Seq<Seq<char>>), Seq<char>>((Some(name), provisioners)),
    decreases provisioners.len() - done,
{
    lemma_option_names();
    if done == provisioners.len() {
        assert(args[start + 2 * done] == name);
        reveal_with_fuel(request::service_names, 2);
        assert(provisioners.take(done) =~= provisioners);
    } else {
        assert(is_named(args, start, provisioners, done));
        assert(provisioners.take(done).push(provisioners[done]) =~= provisioners.take(done + 1));
        lemma_names_found(args, start, done + 1, provisioners, name);
    }
}

/// What `up` asks of the daemon is what the manifest says: the jail of this name, built from
/// this directory, with these provisioners. A name must not look like an option.
#[verifier::spinoff_prover]
pub proof fn law_up_asks_for_the_service(manifest: Manifest, directory: Seq<char>)
    requires
        manifest.container@ == "jail"@,
        !text::starts_with_spec(manifest.name@, "-"@),
    ensures
        service_args_spec("up"@, ManifestFile::Loaded(manifest), Ok(directory)) matches Ok(args)
            && request::request_from_args_spec(args) matches Ok(tree) && request::text_at(
            tree,
            "command"@,
        ) == Some("up"@) && request::text_at(tree, "name"@) == Some(manifest.name@)
            && request::text_at(tree, "container"@) == Some("jail"@) && request::flag_at(
            tree,
            "develop"@,
        ) == Some(manifest.develop) && request::text_at(tree, "service_dir"@) == Some(directory)
            && request::texts_at(tree, "provisioners"@) == if manifest.provisioners@.len() > 0 {
            Some(text::views(manifest.provisioners@))
        } else {
            None
        },
{
    let provisioners = text::views(manifest.provisioners@);
    let base = service_args("up"@, manifest, directory);
    let listed = request::with_provisioners(base, provisioners);
    let args = listed.push(manifest.name@);
    let rest = args.skip(1);
    lemma_with_provisioners(base, provisioners);
    lemma_option_names();
    request::lemma_command_names();
    assert(rest.len() == 7 + 2 * provisioners.len());
    assert(forall|i: int| 0 <= i < 6 ==> #[trigger] rest[i] == base[i + 1]);
    assert(rest.last() == manifest.name@);
    assert forall|i: int| 0 <= i < provisioners.len() implies #[trigger] is_named(
        rest,
        6,
        provisioners,
        i,
    ) by {
        assert(is_named(listed, 7, provisioners, i));
    }
    assert(provisioners.take(0) =~= Seq::<Seq<char>>::empty());
    lemma_names_found(rest, 6, 0, provisioners, manifest.name@);
    lemma_options(rest, manifest.develop, directory);
    lemma_service_tree("up"@, manifest.name@, manifest.develop, directory, provisioners);
}

proof fn lemma_options(rest: Seq<Seq<char>>, develop: bool, directory: Seq<char>)
    requires
        rest.len() >= 6,
        rest[0] == "--container"@,
        rest[1] == "jail"@,
        rest[2] == "--develop"@,
        rest[3] == text::bool_spec(develop),
        rest[4] == "--service-dir"@,
        rest[5] == directory,
    ensures
        request::option_value(rest, "--container"@) == Ok::<Option<Seq<char>>, Seq<char>>(
            Some("jail"@),
        ),
        request::option_value(rest, "--develop"@) == Ok::<Option<Seq<char>>, Seq<char>>(
            Some(text::bool_spec(develop)),
        ),
        request::option_value(rest, "--service-dir"@) == Ok::<Option<Seq<char>>, Seq<char>>(
            Some(directory),
        ),
        text::parse_bool_spec(text::bool_spec(develop)) == Some(develop),
        forall|command: Seq<char>|
            #[trigger] request::service_names(command, rest, 0, None, seq![])
                == request::service_names(command, rest, 6, None, seq![]),
{
    lemma_option_names();
    reveal_with_fuel(request::arg_place, 6);
    text::law_bool_reads_back(develop);
    reveal_with_fuel(request::service_names, 4);
}

proof fn lemma_service_tree(
    command: Seq<char>,
    name: Seq<char>,
    develop: bool,
    directory: Seq<char>,
    provisioners: Seq<Seq<char>>,
)
    ensures
        ({
            let start = request::with_text(Ok(wire::empty_tree()), "command"@, Ok(command));
            let contained = request::with_text(start, "container"@, Ok("jail"@));
            let developed = request::with_flag(contained, "develop"@, develop);
            let placed = request::with_text(developed, "service_dir"@, Ok(directory));
            let named = request::with_text(placed, "name"@, Ok(name));
            let draft = if provisioners.len() > 0 {
                request::with_texts(named, "provisioners"@, provisioners)
            } else {
                named
            };
            draft matches Ok(tree) && request::text_at(tree, "command"@) == Some(command)
                && request::text_at(tree, "name"@) == Some(name) && request::text_at(
                tree,
                "container"@,
            ) == Some("jail"@) && request::flag_at(tree, "develop"@) == Some(develop)
                && request::text_at(tree, "service_dir"@) == Some(directory) && request::texts_at(
                tree,
                "provisioners"@,
            ) == if provisioners.len() > 0 {
                Some(provisioners)
            } else {
                None
            }
        }),
{
    request::lemma_field_names();
    reveal_strlit("provisioners");
    reveal_strlit("dependencies");
    let start = wire::put(wire::empty_tree(), "command"@, Value::Text(command));
    request::lemma_put(wire::empty_tree(), "command"@, Value::Text(command));
    let contained = wire::put(start, "container"@, Value::Text("jail"@));
    request::lemma_put(start, "container"@, Value::Text("jail"@));
    let developed = wire::put(contained, "develop"@, Value::Flag(develop));
    request::lemma_put(contained, "develop"@, Value::Flag(develop));
    let placed = wire::put(developed, "service_dir"@, Value::Text(directory));
    request::lemma_put(developed, "service_dir"@, Value::Text(directory));
    let named = wire::put(placed, "name"@, Value::Text(name));
    request::lemma_put(placed, "name"@, Value::Text(name));
    request::lemma_put(named, "provisioners"@, Value::Texts(provisioners));
}

/// What `down` asks of the daemon is what the manifest says. A name must not look like an
/// option.
#[verifier::spinoff_prover]
pub proof fn law_down_asks_for_the_service(manifest: Manifest, directory: Seq<char>)
    requires
        manifest.container@ == "jail"@,
        !text::starts_with_spec(manifest.name@, "-"@),
    ensures
        service_args_spec("down"@, ManifestFile::Loaded(manifest), Ok(directory)) matches Ok(args)
            && request::request_from_args_spec(args) matches Ok(tree) && request::text_at(
            tree,
            "command"@,
        ) == Some("down"@) && request::text_at(tree, "name"@) == Some(manifest.name@)
            && request::text_at(tree, "container"@) == Some("jail"@) && request::flag_at(
            tree,
            "develop"@,
        ) == Some(manifest.develop) && request::text_at(tree, "service_dir"@) == Some(directory),
{
    let base = service_args("down"@, manifest, directory);
    let args = base.push(manifest.name@);
    let rest = args.skip(1);
    lemma_option_names();
    request::lemma_command_names();
    assert(request::with_provisioners(base, Seq::empty()) == base);
    assert(forall|i: int| 0 <= i < 6 ==> #[trigger] rest[i] == base[i + 1]);
    assert(rest.len() == 7 && rest[6] == manifest.name@);
    lemma_options(rest, manifest.develop, directory);
    assert(request::service_names("down"@, rest, 6, None, seq![]) == Ok::<
        (Option<Seq<char>>, Seq<Seq<char>>),
        Seq<char>,
    >((Some(manifest.name@), seq![]))) by {
        reveal_with_fuel(request::service_names, 2);
    }
    lemma_service_tree("down"@, manifest.name@, manifest.develop, directory, seq![]);
}

/// The arguments of `up` or `down` in front of provisioners and name.
pub open spec fn service_start(command: Seq<char>, develop: bool, directory: Seq<char>) -> Seq<
    Seq<char>,
> {
    no_args().push(command).push("--container"@).push("jail"@).push("--develop"@).push(
        text::bool_spec(develop),
    ).push("--service-dir"@).push(directory)
}

/// The arguments of `up` or `down`.
pub open spec fn service_line(
    command: Seq<char>,
    develop: bool,
    directory: Seq<char>,
    provisioners: Seq<Seq<char>>,
    name: Seq<char>,
) -> Seq<Seq<char>> {
    request::with_provisioners(service_start(command, develop, directory), provisioners).push(name)
}

/// `up` and `down` survive the trip: their request means the arguments that it came from. A
/// name must not look like an option, and only `up` names provisioners.
#[verifier::spinoff_prover]
pub proof fn law_service_command_survives(
    command: Seq<char>,
    develop: bool,
    directory: Seq<char>,
    provisioners: Seq<Seq<char>>,
    name: Seq<char>,
)
    requires
        command == "up"@ || (command == "down"@ && provisioners.len() == 0),
        !text::starts_with_spec(name, "-"@),
    ensures
        ({
            let args = service_line(command, develop, directory, provisioners, name);
            request::request_from_args_spec(args) matches Ok(tree) && request::request_to_args_spec(
                tree,
            ) == Ok::<Seq<Seq<char>>, Seq<char>>(args)
        }),
{
    let base = service_start(command, develop, directory);
    let listed = request::with_provisioners(base, provisioners);
    let args = listed.push(name);
    let rest = args.skip(1);
    lemma_with_provisioners(base, provisioners);
    lemma_option_names();
    request::lemma_command_names();
    assert(rest.len() == 7 + 2 * provisioners.len());
    assert(forall|i: int| 0 <= i < 6 ==> #[trigger] rest[i] == base[i + 1]);
    assert(rest.last() == name);
    assert forall|i: int| 0 <= i < provisioners.len() implies #[trigger] is_named(
        rest,
        6,
        provisioners,
        i,
    ) by {
        assert(is_named(listed, 7, provisioners, i));
    }
    assert(provisioners.take(0) =~= Seq::<Seq<char>>::empty());
    if command == "up"@ {
        lemma_names_found(rest, 6, 0, provisioners, name);
    } else {
        assert(provisioners =~= seq![]);
        assert(request::service_names("down"@, rest, 6, None, seq![]) == Ok::<
            (Option<Seq<char>>, Seq<Seq<char>>),
            Seq<char>,
        >((Some(name), seq![]))) by {
            reveal_with_fuel(request::service_names, 2);
        }
    }
    lemma_options(rest, develop, directory);
    lemma_service_tree(command, name, develop, directory, provisioners);
    assert(seq![command].push("--container"@).push("jail"@).push("--develop"@).push(
        text::bool_spec(develop),
    ).push("--service-dir"@).push(directory) =~= base);
}

/// A service can be created exactly if its name is made of letters, digits, dots, dashes and
/// underscores, which makes it a single directory, its container is a jail or a virtual
/// machine, its provisioner, if any, is Ansible, and its directory is not there yet.
pub proof fn law_good_services_are_created(
    name: Seq<char>,
    container: Seq<char>,
    provisioner: Option<Seq<char>>,
    files: Snapshot,
)
    ensures
        init_obstacle(name, container, provisioner, files) is None <==> {
            &&& is_service_name(name)
            &&& container == "jail"@ || container == "vm"@
            &&& provisioner is None || provisioner == Some("ansible"@)
            &&& !snapshot::exists_at(files, name)
        },
        is_service_name(name) ==> name.len() > 0 && !name.contains('/') && !name.contains('"')
            && !name.contains('\n') && !name.contains(' '),
{
}

/// A new service has a directory of its name with a manifest that says what was asked for: its
/// name, its container, whether it is under development and what provisions it.
#[verifier::spinoff_prover]
#[verifier::rlimit(40)]
pub proof fn law_new_service_has_its_manifest(
    name: Seq<char>,
    container: Seq<char>,
    provisioner: Option<Seq<char>>,
    develop: bool,
)
    requires
        is_service_name(name),
    ensures
        ({
            let plan = init_plan(name, container, provisioner, develop);
            let manifest = name + "/service.toml"@;
            &&& plan.steps[0] == plan::must(Act::CreateNewDir(name))
            &&& plan.writes(manifest, "name = \""@ + name + "\"\n"@)
            &&& plan.writes(manifest, "\ncontainer = \""@ + container + "\"\n"@)
            &&& develop ==> plan.writes(manifest, "\ndevelop = true\n"@)
            &&& !develop ==> plan.writes(manifest, "\ndevelop = false\n"@)
            &&& provisioner matches Some(provisioner) ==> plan.writes(
                manifest,
                "\nprovisioners = [\""@ + provisioner + "\"]\n"@,
            )
            &&& provisioner is None ==> plan.writes(manifest, "\nprovisioners = []\n"@)
            &&& provisioner == Some("ansible"@) ==> plan.writes(
                name + "/ansible/site.yml"@,
                "\n  hosts: "@ + name + "\n"@,
            )
            &&& provisioner == Some("ansible"@) ==> plan.performs(
                Act::Write {
                    path: name + "/ansible/requirements.yml"@,
                    text: "- onelove-roles.freebsd-common\n"@,
                },
            )
            &&& provisioner is None ==> plan.steps.len() == 3
        }),
{
    broadcast use {plan::group_plan_contents, text::group_texts_within};

    lemma_service_files(name);
    lemma_manifest(name, container, provisioner, develop);
    reveal_strlit("---\n- name: ");
    reveal_strlit(" provisioning\n  hosts: ");
    reveal_strlit("\n  roles: []\n");
    reveal_strlit("\n  hosts: ");
    reveal_strlit("\n");
    let front = "---\n- name: "@ + name + " provisioning\n  hosts: "@;
    assert(front.skip(front.len() - 10) =~= "\n  hosts: "@);
    assert("\n  roles: []\n"@.take(1) =~= "\n"@);
    text::lemma_contains_across(front, name, "\n  roles: []\n"@, "\n  hosts: "@, "\n"@);
}

proof fn lemma_service_files(name: Seq<char>)
    requires
        is_service_name(name),
    ensures
        text::join_path_spec(name, "service.toml"@) == name + "/service.toml"@,
        text::join_path_spec(name, "ansible/site.yml"@) == name + "/ansible/site.yml"@,
        text::join_path_spec(name, "ansible/requirements.yml"@) == name
            + "/ansible/requirements.yml"@,
{
    assert(is_name_char(name[name.len() - 1]));
    reveal_strlit("service.toml");
    reveal_strlit("/service.toml");
    reveal_strlit("ansible/site.yml");
    reveal_strlit("/ansible/site.yml");
    reveal_strlit("ansible/requirements.yml");
    reveal_strlit("/ansible/requirements.yml");
    assert(name.push('/') + "service.toml"@ =~= name + "/service.toml"@);
    assert(name.push('/') + "ansible/site.yml"@ =~= name + "/ansible/site.yml"@);
    assert(name.push('/') + "ansible/requirements.yml"@ =~= name + "/ansible/requirements.yml"@);
}

#[verifier::spinoff_prover]
#[verifier::rlimit(40)]
proof fn lemma_manifest(
    name: Seq<char>,
    container: Seq<char>,
    provisioner: Option<Seq<char>>,
    develop: bool,
)
    ensures
        ({
            let text = manifest_text(name, container, provisioner, develop);
            &&& text::contains_spec(text, "name = \""@ + name + "\"\n"@)
            &&& text::contains_spec(text, "\ncontainer = \""@ + container + "\"\n"@)
            &&& develop ==> text::contains_spec(text, "\ndevelop = true\n"@)
            &&& !develop ==> text::contains_spec(text, "\ndevelop = false\n"@)
            &&& provisioner matches Some(provisioner) ==> text::contains_spec(
                text,
                "\nprovisioners = [\""@ + provisioner + "\"]\n"@,
            )
            &&& provisioner is None ==> text::contains_spec(text, "\nprovisioners = []\n"@)
        }),
{
    broadcast use text::group_texts_within;

    reveal_strlit("name = \"");
    reveal_strlit("\"\ncontainer = \"");
    reveal_strlit("\ncontainer = \"");
    reveal_strlit("\"\ndevelop = ");
    reveal_strlit("\ndevelop = ");
    reveal_strlit("\nprovisioners = ");
    reveal_strlit("\"\n");
    reveal_strlit("\n");
    reveal_strlit("[\"");
    reveal_strlit("\"]");
    reveal_strlit("[]");
    reveal_strlit("true");
    reveal_strlit("false");
    reveal_strlit("\ndevelop = true\n");
    reveal_strlit("\ndevelop = false\n");
    reveal_strlit("\nprovisioners = [\"");
    reveal_strlit("\"]\n");
    reveal_strlit("\nprovisioners = []\n");
    let flag = text::bool_spec(develop);
    let list = match provisioner {
        Some(provisioner) => "[\""@ + provisioner + "\"]"@,
        None => "[]"@,
    };
    assert("name = \""@.skip(0) =~= "name = \""@);
    assert("\"\ncontainer = \""@.take(2) =~= "\"\n"@);
    text::lemma_contains_across("name = \""@, name, "\"\ncontainer = \""@, "name = \""@, "\"\n"@);
    let a = "name = \""@ + name + "\"\ncontainer = \""@;
    assert(a.skip(a.len() - 14) =~= "\ncontainer = \""@);
    assert("\"\ndevelop = "@.take(2) =~= "\"\n"@);
    text::lemma_contains_across(a, container, "\"\ndevelop = "@, "\ncontainer = \""@, "\"\n"@);
    let b = a + container + "\"\ndevelop = "@;
    assert(b.skip(b.len() - 11) =~= "\ndevelop = "@);
    assert("\nprovisioners = "@.take(1) =~= "\n"@);
    text::lemma_contains_across(b, flag, "\nprovisioners = "@, "\ndevelop = "@, "\n"@);
    if develop {
        assert("\ndevelop = "@ + flag + "\n"@ =~= "\ndevelop = true\n"@);
    } else {
        assert("\ndevelop = "@ + flag + "\n"@ =~= "\ndevelop = false\n"@);
    }
    let c = b + flag + "\nprovisioners = "@;
    assert(c.skip(c.len() - 16) =~= "\nprovisioners = "@);
    assert("\n"@.take(1) =~= "\n"@);
    text::lemma_contains_across(c, list, "\n"@, "\nprovisioners = "@, "\n"@);
    match provisioner {
        Some(provisioner) => {
            assert("\nprovisioners = "@ + list + "\n"@ =~= "\nprovisioners = [\""@ + provisioner
                + "\"]\n"@);
        },
        None => {
            assert("\nprovisioners = "@ + list + "\n"@ =~= "\nprovisioners = []\n"@);
        },
    }
}

proof fn lemma_unsupported(provisioners: Seq<Seq<char>>, from: int)
    requires
        0 <= from <= provisioners.len(),
    ensures
        from <= unsupported_from(provisioners, from) <= provisioners.len(),
        unsupported_from(provisioners, from) < provisioners.len() ==> provisioners[unsupported_from(
            provisioners,
            from,
        )] != "ansible"@,
        forall|i: int|
            from <= i < unsupported_from(provisioners, from) ==> #[trigger] provisioners[i]
                == "ansible"@,
    decreases provisioners.len() - from,
{
    if from < provisioners.len() && provisioners[from] == "ansible"@ {
        lemma_unsupported(provisioners, from + 1);
    }
}

/// A service is provisioned from its directory, in its container, under its name and with its
/// provisioners; it has to have some, and all of them have to be Ansible.
pub proof fn law_provision_asks_for_the_service(manifest: Manifest, directory: Seq<char>)
    ensures
        ({
            let result = provision_args_spec(ManifestFile::Loaded(manifest), Ok(directory));
            let args = result->Ok_0;
            let provisioners = text::views(manifest.provisioners@);
            &&& result is Ok <==> provisioners.len() > 0 && forall|i: int|
                0 <= i < provisioners.len() ==> #[trigger] provisioners[i] == "ansible"@
            &&& result is Ok ==> {
                &&& args.len() == 7 + 2 * provisioners.len()
                &&& args.take(7) =~= seq![
                    "provision"@,
                    "--service-dir"@,
                    directory,
                    "--container"@,
                    manifest.container@,
                    "--name"@,
                    manifest.name@,
                ]
                &&& forall|i: int| 0 <= i < provisioners.len() ==> is_named(args, 7, provisioners, i)
            }
        }),
{
    let provisioners = text::views(manifest.provisioners@);
    lemma_unsupported(provisioners, 0);
    let start = no_args().push("provision"@).push("--service-dir"@).push(directory).push(
        "--container"@,
    ).push(manifest.container@).push("--name"@).push(manifest.name@);
    lemma_with_provisioners(start, provisioners);
    let args = request::with_provisioners(start, provisioners);
    assert(args.take(7) =~= start);
    assert(start =~= seq![
        "provision"@,
        "--service-dir"@,
        directory,
        "--container"@,
        manifest.container@,
        "--name"@,
        manifest.name@,
    ]);
}

/// The arguments of a command on a service begin with the command and end with the name.
pub proof fn lemma_command_first(command: Seq<char>, manifest: Manifest, directory: Seq<char>)
    requires
        manifest.container@ == "jail"@,
    ensures
        ({
            let result = service_args_spec(command, ManifestFile::Loaded(manifest), Ok(directory));
            result is Ok && result->Ok_0.len() > 1 && result->Ok_0[0] == command
                && result->Ok_0.last() == manifest.name@
        }),
{
    let start = service_args(command, manifest, directory);
    lemma_with_provisioners(start, text::views(manifest.provisioners@));
    lemma_with_provisioners(start, Seq::empty());
    assert(start[0] == command);
}

/// The service of a directory is destroyed as the jail of its name; a service in another
/// container is not.
pub proof fn law_destroy_asks_for_the_service(manifest: Manifest)
    ensures
        ({
            let result = destroy_args_spec(ManifestFile::Loaded(manifest));
            &&& result is Ok <==> manifest.container@ == "jail"@
            &&& result is Ok ==> result->Ok_0 =~= seq!["destroy"@, "jail"@, manifest.name@]
        }),
{
}

/// A manifest that cannot be read or understood gives no command a service to work on.
pub proof fn law_commands_need_a_manifest(
    command: Seq<char>,
    file: ManifestFile,
    directory: Result<Seq<char>, Seq<char>>,
)
    ensures
        manifest_spec(command, file) is Ok <==> file is Loaded,
        file matches ManifestFile::Loaded(manifest) ==> manifest_spec(command, file) == Ok::<
            Manifest,
            Seq<char>,
        >(manifest),
        !(file is Loaded) ==> service_args_spec(command, file, directory) is Err
            && provision_args_spec(file, directory) is Err && destroy_args_spec(file) is Err,
{
}

/// Whether an action runs a program with exactly these arguments in a directory.
pub open spec fn is_run_in(
    action: Act,
    program: Seq<char>,
    args: Seq<Seq<char>>,
    place: Seq<char>,
) -> bool {
    action matches Act::RunIn { command, directory } && directory == place && command.program
        == program && command.args =~= args
}

/// For each provisioner the roles are installed and then the playbook of the service is run,
/// both in its directory; what is not supported stops the provisioning.
pub proof fn law_each_provisioner_is_run(directory: Seq<char>, provisioners: Seq<Seq<char>>, i: int)
    requires
        0 <= i < provisioners.len(),
        forall|j: int| 0 <= j < provisioners.len() ==> #[trigger] provisioners[j] == "ansible"@,
    ensures
        ({
            let plan = provision_plan(directory, provisioners);
            &&& plan.steps.len() == 2 * provisioners.len()
            &&& is_run_in(
                plan.steps[2 * i].action,
                "ansible-galaxy"@,
                seq!["install"@, "-r"@, "ansible/requirements.yml"@, "-p"@, "ansible/roles"@],
                directory,
            )
            &&& is_run_in(
                plan.steps[2 * i + 1].action,
                "ansible-playbook"@,
                seq!["-i"@, "ansible/inventory/inventory"@, "ansible/site.yml"@],
                directory,
            )
        }),
    decreases provisioners.len(),
{
    let front = provisioners.drop_last();
    assert(provisioners[provisioners.len() - 1] == "ansible"@);
    assert forall|j: int| 0 <= j < front.len() implies #[trigger] front[j] == "ansible"@ by {
        assert(front[j] == provisioners[j]);
    }
    if front.len() > 0 {
        let k = if i < front.len() {
            i
        } else {
            0
        };
        law_each_provisioner_is_run(directory, front, k);
    }
}

/// A service with Ansible begins with a playbook for the host of its own name, and with the
/// directories that the playbook looks into.
#[verifier::spinoff_prover]
pub proof fn law_playbook_is_for_the_service(start: PlanModel, name: Seq<char>)
    ensures
        ({
            let plan = ansible_plan(start, name);
            &&& plan.performs(Act::CreateDir(text::join_path_spec(name, "ansible/group_vars"@)))
            &&& plan.performs(Act::CreateDir(text::join_path_spec(name, "ansible/inventory"@)))
            &&& plan.performs(Act::CreateDir(text::join_path_spec(name, "ansible/roles"@)))
            &&& plan.writes(
                text::join_path_spec(name, "ansible/site.yml"@),
                "  hosts: "@ + name + "\n"@,
            )
            &&& forall|i: int|
                0 <= i < start.steps.len() ==> plan.steps[i] == #[trigger] start.steps[i]
        }),
{
    broadcast use plan::group_plan_contents;

    let playbook = "---\n- name: "@ + name + " provisioning\n  hosts: "@ + name
        + "\n  roles: []\n"@;
    reveal_strlit("---\n- name: ");
    reveal_strlit(" provisioning\n  hosts: ");
    reveal_strlit("\n  roles: []\n");
    reveal_strlit("  hosts: ");
    reveal_strlit("\n");
    let line = "  hosts: "@ + name + "\n"@;
    let at = "---\n- name: "@.len() + name.len() + " provisioning\n"@.len();
    reveal_strlit(" provisioning\n");
    assert(playbook.skip(at as int).take(line.len() as int) =~= line);
    assert(text::starts_with_spec(playbook.skip(at as int), line));
    assert(text::contains_spec(playbook, line));
}

} // verus!
