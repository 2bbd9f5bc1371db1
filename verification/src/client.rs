//! The client program: what it asks of the daemon, what it shows of the answer, and what it
//! does itself when the daemon runs it.

use nvtree::Nvtree;
use vstd::prelude::*;

use crate::bhyve;
use crate::config::Config;
use crate::daemon;
use crate::error;
use crate::error::Error;
use crate::jail;
use crate::jail::JailInfo;
use crate::output;
use crate::plan;
use crate::plan::{command, Plan, PlanModel};
use crate::protocol;
use crate::request;
use crate::request::{optional_number, optional_string};
use crate::service;
use crate::service::ManifestFile;
use crate::snapshot;
use crate::snapshot::Snapshot;
use crate::text;
use crate::text::{owned, same, starts_with};
use crate::wire;
use crate::wire::{find, Found, Tree, Value};

verus! {

// ---------------------------------------------------------------------------
// Datasets and volumes
// ---------------------------------------------------------------------------

/// Whether a name is that of the pool, or lies in it.
pub open spec fn is_in_pool(pool: Seq<char>, name: Seq<char>) -> bool {
    name == pool || text::starts_with_spec(name, pool + "/"@)
}

/// The dataset that a name means: names are relative to the pool, unless they name it.
pub open spec fn zfs_name_spec(pool: Seq<char>, name: Seq<char>) -> Seq<char> {
    if is_in_pool(pool, name) {
        name
    } else {
        pool + "/"@ + name
    }
}

/// The dataset that a name means.
pub fn zfs_name(pool: &str, name: &str) -> (dataset: String)
    ensures
        dataset@ == zfs_name_spec(pool@, name@),
{
    if same(name, pool) || starts_with(name, owned(pool).concat("/").as_str()) {
        owned(name)
    } else {
        owned(pool).concat("/").concat(name)
    }
}

/// What a name means lies in the pool, and means itself.
pub proof fn law_names_are_relative_to_the_pool(pool: Seq<char>, name: Seq<char>)
    ensures
        is_in_pool(pool, zfs_name_spec(pool, name)),
        zfs_name_spec(pool, zfs_name_spec(pool, name)) == zfs_name_spec(pool, name),
        zfs_name_spec(pool, name) == name || zfs_name_spec(pool, name) == pool + "/"@ + name,
{
    let prefix = pool + "/"@;
    assert((prefix + name).take(prefix.len() as int) =~= prefix);
}

/// How a dataset is created.
pub open spec fn new_dataset_plan(pool: Seq<char>, name: Seq<char>) -> PlanModel {
    plan::no_steps().run(
        plan::line("zfs"@).arg("create"@).arg("-p"@).arg(zfs_name_spec(pool, name)),
    )
}

/// How a volume of a size is created.
pub open spec fn new_volume_plan(pool: Seq<char>, name: Seq<char>, size: Seq<char>) -> PlanModel {
    plan::no_steps().run(
        plan::line("zfs"@).arg("create"@).arg("-p"@).arg("-V"@).arg(size).arg(
            zfs_name_spec(pool, name),
        ),
    )
}

/// How a dataset or a volume is destroyed.
pub open spec fn drop_dataset_plan(pool: Seq<char>, name: Seq<char>) -> PlanModel {
    plan::no_steps().run(
        plan::line("zfs"@).arg("destroy"@).arg("-f"@).arg(zfs_name_spec(pool, name)),
    )
}

/// Plans a new dataset.
pub fn create_dataset(name: &str, config: &Config) -> (plan: Plan)
    ensures
        plan@ == new_dataset_plan(config.zfs_pool@, name@),
{
    Plan::new().run(
        command("zfs").arg("create").arg("-p").arg(
            zfs_name(config.zfs_pool.as_str(), name).as_str(),
        ),
    )
}

/// Plans a new volume of a size.
pub fn create_volume(name: &str, size: &str, config: &Config) -> (plan: Plan)
    ensures
        plan@ == new_volume_plan(config.zfs_pool@, name@, size@),
{
    Plan::new().run(
        command("zfs").arg("create").arg("-p").arg("-V").arg(size).arg(
            zfs_name(config.zfs_pool.as_str(), name).as_str(),
        ),
    )
}

/// Plans to destroy a dataset or a volume.
pub fn destroy_dataset(name: &str, config: &Config) -> (plan: Plan)
    ensures
        plan@ == drop_dataset_plan(config.zfs_pool@, name@),
{
    Plan::new().run(
        command("zfs").arg("destroy").arg("-f").arg(
            zfs_name(config.zfs_pool.as_str(), name).as_str(),
        ),
    )
}

// ---------------------------------------------------------------------------
// Resources by name
// ---------------------------------------------------------------------------

/// What a name stands for.
#[derive(Debug, Clone, Copy, PartialEq, Eq, Structural)]
pub enum Kind {
    Jail,
    Vm,
}

/// Why nothing can be done with a name.
pub open spec fn unknown_name(name: Seq<char>) -> Seq<char> {
    "no VM or jail exists with this name: "@ + name
}

fn unknown(name: &str) -> (error: Error)
    ensures
        error@ == unknown_name(name@),
{
    Error::new(owned("no VM or jail exists with this name: ").concat(name))
}

/// What is started or stopped under a name: a virtual machine before a jail.
pub open spec fn lifecycle_spec(name: Seq<char>, files: Snapshot) -> Result<Kind, Seq<char>> {
    if bhyve::is_managed(name, files) {
        Ok(Kind::Vm)
    } else if snapshot::is_dir_at(files, jail::jail_path(name)) {
        Ok(Kind::Jail)
    } else {
        Err(unknown_name(name))
    }
}

/// What is started or stopped under a name.
pub fn lifecycle_kind(name: &str, files: &Snapshot) -> (result: Result<Kind, Error>)
    ensures
        error::outcome(result) == lifecycle_spec(name@, *files),
{
    if bhyve::path_exists(name, files) {
        Ok(Kind::Vm)
    } else if jail::path_exists(name, files) {
        Ok(Kind::Jail)
    } else {
        Err(unknown(name))
    }
}

/// How a resource is enabled or disabled under a name: a jail before a virtual machine.
pub open spec fn enable_spec(name: Seq<char>, enabled: bool, config: Config, files: Snapshot) -> Result<
    PlanModel,
    Seq<char>,
> {
    if snapshot::is_dir_at(files, jail::jail_path(name)) {
        Ok(jail::enable_plan(jail::jail_dataset(config, name), enabled))
    } else if bhyve::is_managed(name, files) {
        if jail::is_component(name) {
            Ok(jail::enable_plan(bhyve::vm_dataset_spec(config, name), enabled))
        } else {
            Err(bhyve::invalid_name(name))
        }
    } else {
        Err(unknown_name(name))
    }
}

/// Plans to enable or disable the resource of a name.
pub fn set_enabled(name: &str, enabled: bool, config: &Config, files: &Snapshot) -> (result: Result<
    Plan,
    Error,
>)
    ensures
        jail::plan_result(result) == enable_spec(name@, enabled, *config, *files),
{
    if jail::path_exists(name, files) {
        Ok(jail::set_enabled(name, enabled, config))
    } else if bhyve::path_exists(name, files) {
        bhyve::set_enabled(name, enabled, config)
    } else {
        Err(unknown(name))
    }
}

// ---------------------------------------------------------------------------
// Requests
// ---------------------------------------------------------------------------

/// What the client program was called for.
#[derive(Debug)]
pub enum Invocation {
    /// Bring the service of this directory up.
    Up,
    Down,
    Provision,
    /// Attach to the service of this directory.
    Attach,
    /// Destroy the service of this directory.
    Destroy,
    /// What these arguments say.
    Other(Vec<String>),
}

/// The arguments that an invocation stands for.
pub open spec fn invocation_spec(
    invocation: Invocation,
    file: ManifestFile,
    directory: Result<Seq<char>, Seq<char>>,
) -> Result<Seq<Seq<char>>, Seq<char>> {
    match invocation {
        Invocation::Up => service::service_args_spec("up"@, file, directory),
        Invocation::Down => service::service_args_spec("down"@, file, directory),
        Invocation::Provision => service::provision_args_spec(file, directory),
        Invocation::Attach => match service::manifest_spec("attach"@, file) {
            Ok(manifest) => Ok(service::no_args().push("attach"@).push(manifest.name@)),
            Err(reason) => Err(reason),
        },
        Invocation::Destroy => service::destroy_args_spec(file),
        Invocation::Other(args) => Ok(text::views(args@)),
    }
}

/// The arguments that an invocation stands for. `file` is the manifest of the current
/// directory.
pub fn invocation_args(
    invocation: Invocation,
    file: ManifestFile,
    directory: &Result<String, Error>,
) -> (result: Result<Vec<String>, Error>)
    ensures
        service::args_result(result) == invocation_spec(
            invocation,
            file,
            error::text_outcome(*directory),
        ),
{
    match invocation {
        Invocation::Up => service::up_args(file, directory),
        Invocation::Down => service::down_args(file, directory),
        Invocation::Provision => service::provision_args(file, directory),
        Invocation::Attach => service::attach_args(file),
        Invocation::Destroy => service::destroy_args(file),
        Invocation::Other(args) => Ok(args),
    }
}

/// A request that is sent, with the heading under which its answer is shown.
#[derive(Debug)]
pub struct Sending {
    pub heading: Option<String>,
    pub args: Vec<String>,
}

/// Whether a request is this one.
pub open spec fn is_sending(sending: Sending, heading: Option<Seq<char>>, args: Seq<Seq<char>>) -> bool {
    text::views(sending.args@) == args && match (sending.heading, heading) {
        (Some(own), Some(wanted)) => own@ == wanted,
        (None, None) => true,
        _ => false,
    }
}

/// The resources that `list all` lists, in order.
pub open spec fn all_resources() -> Seq<Seq<char>> {
    seq!["datasets"@, "volumes"@, "jails"@, "vms"@]
}

/// Whether arguments ask for all resources.
pub open spec fn asks_for_all(args: Seq<Seq<char>>) -> bool {
    args.len() == 2 && args[0] == "list"@ && args[1] == "all"@
}

fn list_one(resource: &str) -> (sending: Sending)
    ensures
        is_sending(
            sending,
            Some("=== "@ + resource@ + " ==="@),
            seq!["list"@, resource@],
        ),
{
    let mut args: Vec<String> = Vec::new();
    args.push(owned("list"));
    args.push(owned(resource));
    proof {
        assert(text::views(args@) =~= seq!["list"@, resource@]);
    }
    Sending { heading: Some(owned("=== ").concat(resource).concat(" ===")), args }
}

/// The requests that are sent for arguments: `list all` becomes a request for each kind of
/// resource, everything else is sent as it is.
pub fn expand(args: Vec<String>) -> (sendings: Vec<Sending>)
    ensures
        if asks_for_all(text::views(args@)) {
            sendings@.len() == 4 && forall|i: int|
                0 <= i < 4 ==> is_sending(
                    #[trigger] sendings@[i],
                    Some("=== "@ + all_resources()[i] + " ==="@),
                    seq!["list"@, all_resources()[i]],
                )
        } else {
            sendings@.len() == 1 && is_sending(sendings@[0], None, text::views(args@))
        },
{
    let mut sendings: Vec<Sending> = Vec::new();
    if args.len() == 2 && same(args[0].as_str(), "list") && same(args[1].as_str(), "all") {
        sendings.push(list_one("datasets"));
        sendings.push(list_one("volumes"));
        sendings.push(list_one("jails"));
        sendings.push(list_one("vms"));
    } else {
        sendings.push(Sending { heading: None, args });
    }
    sendings
}

// ---------------------------------------------------------------------------
// Answers
// ---------------------------------------------------------------------------

/// What is shown of an answer, and the status that the program ends with.
#[derive(Debug)]
pub struct Shown {
    pub stdout: String,
    pub stderr: String,
    pub status: i32,
}

/// What is shown of an answer, as plain values.
pub struct ShownModel {
    pub stdout: Seq<char>,
    pub stderr: Seq<char>,
    pub status: i32,
}

impl View for Shown {
    type V = ShownModel;

    open spec fn view(&self) -> ShownModel {
        ShownModel { stdout: self.stdout@, stderr: self.stderr@, status: self.status }
    }
}

/// Whether a response lists resources.
pub open spec fn lists_resources(response: Tree) -> bool {
    wire::get(response, "datasets"@) is Some || wire::get(response, "volumes"@) is Some
        || wire::get(response, "jails"@) is Some || wire::get(response, "vms"@) is Some
}

/// The status of a response: its number, cut to the size of a status, or zero.
pub open spec fn status_of(response: Tree) -> i32 {
    match request::number_at(response, "status"@) {
        Some(number) => number as i32,
        None => 0,
    }
}

/// What is shown of an answer: its error, or a table of the resources that it lists, or what
/// was printed.
pub open spec fn shown_spec(envelope: Tree) -> Result<ShownModel, Seq<char>> {
    match (request::text_at(envelope, "error"@), wire::get(envelope, "response"@)) {
        (Some(reason), _) => Ok(
            ShownModel { stdout: ""@, stderr: reason + "\n"@, status: 1 },
        ),
        (None, Some(Value::Nested(response))) => if lists_resources(response) {
            match output::response_rows(response) {
                Some(rows) => Ok(
                    ShownModel {
                        stdout: output::table_text(rows) + "\n"@,
                        stderr: ""@,
                        status: status_of(response),
                    },
                ),
                None => Err("response contains no tabular resource"@),
            }
        } else {
            Ok(
                ShownModel {
                    stdout: daemon::text_or(response, "stdout"@, ""@),
                    stderr: daemon::text_or(response, "stderr"@, ""@),
                    status: status_of(response),
                },
            )
        },
        _ => Err("daemon response is missing response data"@),
    }
}

fn has(response: &Nvtree, field: &str) -> (result: bool)
    ensures
        result == wire::get(wire::content(*response), field@) is Some,
{
    match find(response, field) {
        Some(_) => true,
        None => false,
    }
}

fn text_or_none(response: &Nvtree, field: &str) -> (result: String)
    ensures
        result@ == daemon::text_or(wire::content(*response), field@, ""@),
{
    match optional_string(response, field) {
        Some(text) => text,
        None => owned(""),
    }
}

/// What is shown of an answer.
pub fn print_response(envelope: &Nvtree) -> (result: Result<Shown, Error>)
    ensures
        match result {
            Ok(shown) => shown_spec(wire::content(*envelope)) == Ok::<ShownModel, Seq<char>>(
                shown@,
            ),
            Err(error) => shown_spec(wire::content(*envelope)) == Err::<ShownModel, Seq<char>>(
                error@,
            ),
        },
{
    match optional_string(envelope, "error") {
        Some(reason) => {
            return Ok(Shown { stdout: owned(""), stderr: reason.concat("\n"), status: 1 });
        },
        None => {},
    }
    let response = match find(envelope, "response") {
        Some(Found::Nested(response)) => response,
        _ => {
            return Err(Error::new(owned("daemon response is missing response data")));
        },
    };
    let status: i32 = match optional_number(response, "status") {
        Some(number) => #[verifier::truncate] (number as i32),
        None => 0,
    };
    if has(response, "datasets") || has(response, "volumes") || has(response, "jails") || has(
        response,
        "vms",
    ) {
        match output::nvtree_to_table(response) {
            Ok(table) => Ok(Shown { stdout: table, stderr: owned(""), status }),
            Err(error) => Err(error),
        }
    } else {
        Ok(
            Shown {
                stdout: text_or_none(response, "stdout"),
                stderr: text_or_none(response, "stderr"),
                status,
            },
        )
    }
}

// ---------------------------------------------------------------------------
// Lists
// ---------------------------------------------------------------------------

/// A resource in a list of several kinds.
#[derive(Debug)]
pub struct ResourceRow {
    pub kind: String,
    pub name: String,
    pub status: String,
}

/// The cells of a row.
pub open spec fn resource_cells(row: ResourceRow) -> Seq<Seq<char>> {
    Seq::<Seq<char>>::empty().push(row.kind@).push(row.name@).push(row.status@)
}

/// The columns of a list of several kinds.
pub open spec fn resource_columns() -> Seq<Seq<char>> {
    Seq::<Seq<char>>::empty().push("kind"@).push("name"@).push("status"@)
}

/// Whether rows are those of names of one kind.
pub open spec fn are_named(rows: Seq<ResourceRow>, kind: Seq<char>, names: Seq<Seq<char>>) -> bool {
    rows.len() == names.len() && forall|i: int|
        0 <= i < rows.len() ==> (#[trigger] rows[i]).kind@ == kind && rows[i].name@ == names[i]
            && rows[i].status@ == ""@
}

/// The rows for datasets or volumes, from what `zfs` prints.
pub fn zfs_rows(kind: &str, printed: &str) -> (rows: Vec<ResourceRow>)
    ensures
        are_named(rows@, kind@, daemon::listed_names(text::lines_spec(printed@))),
{
    let names = daemon::zfs_names(printed);
    let ghost model = daemon::listed_names(text::lines_spec(printed@));
    let mut rows: Vec<ResourceRow> = Vec::new();
    let mut index: usize = 0;
    while index < names.len()
        invariant
            index <= names@.len(),
            text::views(names@) == model,
            are_named(rows@, kind@, model.take(index as int)),
        decreases names@.len() - index,
    {
        proof {
            assert(model[index as int] == names@[index as int]@);
        }
        rows.push(
            ResourceRow {
                kind: owned(kind),
                name: owned(names[index].as_str()),
                status: owned(""),
            },
        );
        index += 1;
    }
    proof {
        assert(model.take(index as int) =~= model);
    }
    rows
}

/// How the state of a jail is put in a list of several kinds.
pub open spec fn jail_status(info: JailInfo) -> Seq<char> {
    info.hostname@ + " "@ + info.ips@ + " ("@ + info.status@ + ")"@
}

/// The rows for jails.
pub fn jail_rows(jails: &Vec<JailInfo>) -> (rows: Vec<ResourceRow>)
    ensures
        rows@.len() == jails@.len(),
        forall|i: int|
            0 <= i < rows@.len() ==> (#[trigger] rows@[i]).kind@ == "jail"@ && rows@[i].name@
                == jails@[i].name@ && rows@[i].status@ == jail_status(jails@[i]),
{
    let mut rows: Vec<ResourceRow> = Vec::new();
    let mut index: usize = 0;
    while index < jails.len()
        invariant
            index <= jails@.len(),
            rows@.len() == index,
            forall|i: int|
                0 <= i < rows@.len() ==> (#[trigger] rows@[i]).kind@ == "jail"@ && rows@[i].name@
                    == jails@[i].name@ && rows@[i].status@ == jail_status(jails@[i]),
        decreases jails@.len() - index,
    {
        let info = &jails[index];
        rows.push(
            ResourceRow {
                kind: owned("jail"),
                name: owned(info.name.as_str()),
                status: owned(info.hostname.as_str()).concat(" ").concat(info.ips.as_str()).concat(
                    " (",
                ).concat(info.status.as_str()).concat(")"),
            },
        );
        index += 1;
    }
    rows
}

/// The rows for virtual machines.
pub fn vm_rows(vms: &Vec<(String, bool)>) -> (rows: Vec<ResourceRow>)
    ensures
        rows@.len() == vms@.len(),
        forall|i: int|
            0 <= i < rows@.len() ==> (#[trigger] rows@[i]).kind@ == "vm"@ && rows@[i].name@
                == vms@[i].0@ && rows@[i].status@ == daemon::status_spec(vms@[i].1),
{
    let mut rows: Vec<ResourceRow> = Vec::new();
    let mut index: usize = 0;
    while index < vms.len()
        invariant
            index <= vms@.len(),
            rows@.len() == index,
            forall|i: int|
                0 <= i < rows@.len() ==> (#[trigger] rows@[i]).kind@ == "vm"@ && rows@[i].name@
                    == vms@[i].0@ && rows@[i].status@ == daemon::status_spec(vms@[i].1),
        decreases vms@.len() - index,
    {
        let vm = &vms[index];
        rows.push(
            ResourceRow {
                kind: owned("vm"),
                name: owned(vm.0.as_str()),
                status: owned(daemon::status_text(vm.1)),
            },
        );
        index += 1;
    }
    rows
}

fn row_cells(row: &ResourceRow) -> (cells: Vec<String>)
    ensures
        text::views(cells@) == resource_cells(*row),
{
    let mut cells: Vec<String> = Vec::new();
    cells.push(owned(row.kind.as_str()));
    cells.push(owned(row.name.as_str()));
    cells.push(owned(row.status.as_str()));
    proof {
        assert(text::views(cells@) =~= resource_cells(*row));
    }
    cells
}

/// The rows of the table of a list of several kinds: the heading, then the resources.
pub fn resource_rows(rows: &Vec<ResourceRow>) -> (table: Vec<Vec<String>>)
    ensures
        output::row_views(table@) == Seq::<Seq<Seq<char>>>::empty().push(resource_columns())
            + rows@.map_values(|row: ResourceRow| resource_cells(row)),
{
    let heading = row_cells(
        &ResourceRow { kind: owned("kind"), name: owned("name"), status: owned("status") },
    );
    let mut table: Vec<Vec<String>> = Vec::new();
    table.push(heading);
    let mut index: usize = 0;
    while index < rows.len()
        invariant
            index <= rows@.len(),
            table@.len() == index + 1,
            text::views(table@[0]@) == resource_columns(),
            forall|i: int|
                0 <= i < index ==> text::views((#[trigger] table@[i + 1])@) == resource_cells(
                    rows@[i],
                ),
        decreases rows@.len() - index,
    {
        table.push(row_cells(&rows[index]));
        proof {
            assert forall|i: int| 0 <= i < index + 1 implies text::views(
                (#[trigger] table@[i + 1])@,
            ) == resource_cells(rows@[i]) by {
                if i < index {
                    assert(text::views(table@[i + 1]@) == resource_cells(rows@[i]));
                }
            }
        }
        index += 1;
    }
    proof {
        let expected = Seq::<Seq<Seq<char>>>::empty().push(resource_columns()) + rows@.map_values(
            |row: ResourceRow| resource_cells(row),
        );
        assert forall|i: int| 0 <= i < expected.len() implies output::row_views(table@)[i]
            == expected[i] by {
            if i > 0 {
                assert(text::views(table@[(i - 1) + 1]@) == resource_cells(rows@[i - 1]));
            }
        }
        assert(output::row_views(table@) =~= expected);
    }
    table
}

/// The table of a list of several kinds, as text.
pub fn print_table(rows: &Vec<ResourceRow>) -> (text: String)
    ensures
        text@ == output::table_text(
            Seq::<Seq<Seq<char>>>::empty().push(resource_columns()) + rows@.map_values(
                |row: ResourceRow| resource_cells(row),
            ),
        ) + "\n"@,
{
    output::draw(resource_rows(rows)).concat("\n")
}

/// A dataset or a volume is created and destroyed in the pool of the configuration, under the
/// name that was given: what is destroyed under a name is what was created under it. A name
/// that begins with the pool stands for itself.
pub proof fn law_datasets_are_made_in_the_pool(pool: Seq<char>, name: Seq<char>, size: Seq<char>)
    ensures
        ({
            let own = if name == pool || text::starts_with_spec(name, pool + "/"@) {
                name
            } else {
                pool + "/"@ + name
            };
            let made = new_dataset_plan(pool, name).steps;
            let sized = new_volume_plan(pool, name, size).steps;
            let gone = drop_dataset_plan(pool, name).steps;
            &&& made.len() == 1 && !made[0].optional && plan::is_call(
                made[0].action,
                "zfs"@,
                seq!["create"@, "-p"@, own],
            )
            &&& sized.len() == 1 && !sized[0].optional && plan::is_call(
                sized[0].action,
                "zfs"@,
                seq!["create"@, "-p"@, "-V"@, size, own],
            )
            &&& gone.len() == 1 && !gone[0].optional && plan::is_call(
                gone[0].action,
                "zfs"@,
                seq!["destroy"@, "-f"@, own],
            )
        }),
{
}

/// A name stands for the virtual machine of that name, or else for the jail, or for nothing;
/// and setting whether it is started with the daemon is recorded on the dataset of the jail of
/// that name, or else on the one of the machine.
pub proof fn law_names_stand_for_resources(
    name: Seq<char>,
    enabled: bool,
    config: Config,
    files: Snapshot,
)
    requires
        jail::is_component(name),
    ensures
        ({
            let jail = snapshot::is_dir_at(files, "/var/priosun/jail/"@ + name);
            let vm = snapshot::is_dir_at(files, "/var/priosun/vm/"@ + name);
            let setting = if enabled {
                "priosun:enabled=true"@
            } else {
                "priosun:enabled=false"@
            };
            let result = enable_spec(name, enabled, config, files);
            &&& vm ==> lifecycle_spec(name, files) == Ok::<Kind, Seq<char>>(Kind::Vm)
            &&& !vm && jail ==> lifecycle_spec(name, files) == Ok::<Kind, Seq<char>>(Kind::Jail)
            &&& !vm && !jail ==> lifecycle_spec(name, files) is Err && result is Err
            &&& jail ==> result is Ok && plan::is_call(
                result->Ok_0.steps[0].action,
                "zfs"@,
                seq!["set"@, setting, config.zfs_pool@ + ("/var/priosun/jail/"@ + name)],
            )
            &&& !jail && vm ==> result is Ok && plan::is_call(
                result->Ok_0.steps[0].action,
                "zfs"@,
                seq!["set"@, setting, config.zfs_pool@ + ("/var/priosun/vm/"@ + name)],
            )
            &&& result is Ok ==> result->Ok_0.steps.len() == 1
        }),
{
    jail::law_jails_have_their_places(name, config);
    bhyve::law_vms_have_their_places(name, config);
    jail::law_enabling_is_recorded(jail::jail_dataset(config, name));
    jail::law_enabling_is_recorded(bhyve::vm_dataset_spec(config, name));
}

/// A command that works on the service of a directory asks for the service of the manifest
/// there; any other command is sent as it was given.
pub proof fn law_invocations_become_requests(
    manifest: service::Manifest,
    directory: Seq<char>,
    args: Vec<String>,
    file: ManifestFile,
)
    requires
        file == ManifestFile::Loaded(manifest),
        manifest.container@ == "jail"@,
    ensures
        invocation_spec(Invocation::Other(args), file, Ok(directory)) == Ok::<
            Seq<Seq<char>>,
            Seq<char>,
        >(text::views(args@)),
        ({
            let result = invocation_spec(Invocation::Attach, file, Ok(directory));
            result is Ok && result->Ok_0 =~= seq!["attach"@, manifest.name@]
        }),
        ({
            let result = invocation_spec(Invocation::Destroy, file, Ok(directory));
            result is Ok && result->Ok_0 =~= seq!["destroy"@, "jail"@, manifest.name@]
        }),
        ({
            let result = invocation_spec(Invocation::Up, file, Ok(directory));
            result is Ok && result->Ok_0[0] == "up"@ && result->Ok_0.last() == manifest.name@
        }),
        ({
            let result = invocation_spec(Invocation::Down, file, Ok(directory));
            result is Ok && result->Ok_0[0] == "down"@ && result->Ok_0.last() == manifest.name@
        }),
        invocation_spec(Invocation::Provision, file, Ok(directory))
            == service::provision_args_spec(file, Ok(directory)),
{
    service::law_destroy_asks_for_the_service(manifest);
    service::lemma_command_first("up"@, manifest, directory);
    service::lemma_command_first("down"@, manifest, directory);
}

/// To list everything is to list each kind once, under its own name.
pub proof fn law_everything_is_four_lists(args: Seq<Seq<char>>)
    ensures
        asks_for_all(args) <==> args =~= seq!["list"@, "all"@],
        all_resources() =~= seq!["datasets"@, "volumes"@, "jails"@, "vms"@],
{
}

/// What the daemon answers is what the user gets: an error goes to the standard error with
/// status one; the output of a command goes where the command wrote it, with the status of the
/// command; and resources are shown as a table.
pub proof fn law_answers_are_shown(envelope: Tree, response: Tree, reason: Seq<char>)
    ensures
        request::text_at(envelope, "error"@) == Some(reason) ==> shown_spec(envelope) == Ok::<
            ShownModel,
            Seq<char>,
        >(ShownModel { stdout: ""@, stderr: reason + "\n"@, status: 1 }),
        request::text_at(envelope, "error"@) is None && wire::get(envelope, "response"@) == Some(
            Value::Nested(response),
        ) && !lists_resources(response) ==> {
            let shown = shown_spec(envelope)->Ok_0;
            &&& shown_spec(envelope) is Ok
            &&& request::text_at(response, "stdout"@) matches Some(out) ==> shown.stdout == out
            &&& request::text_at(response, "stdout"@) is None ==> shown.stdout == ""@
            &&& request::text_at(response, "stderr"@) matches Some(err) ==> shown.stderr == err
            &&& request::text_at(response, "stderr"@) is None ==> shown.stderr == ""@
            &&& request::number_at(response, "status"@) matches Some(number) ==> number
                <= i32::MAX ==> shown.status == number
            &&& request::number_at(response, "status"@) is None ==> shown.status == 0
        },
        request::text_at(envelope, "error"@) is None && wire::get(envelope, "response"@) == Some(
            Value::Nested(response),
        ) && lists_resources(response) ==> match output::response_rows(response) {
            Some(rows) => shown_spec(envelope) is Ok && shown_spec(envelope)->Ok_0.stdout
                == output::table_text(rows) + "\n"@ && shown_spec(envelope)->Ok_0.stderr == ""@,
            None => shown_spec(envelope) is Err,
        },
        request::text_at(envelope, "error"@) is None && wire::get(envelope, "response"@) is None
            ==> shown_spec(envelope) is Err,
        lists_resources(response) <==> wire::get(response, "datasets"@) is Some || wire::get(
            response,
            "volumes"@,
        ) is Some || wire::get(response, "jails"@) is Some || wire::get(response, "vms"@) is Some,
{
}

/// A resource has its kind, its name and its status in the table of all resources, below the
/// columns of those names; the status of a jail tells its host name, its addresses and whether
/// it runs.
pub proof fn law_resources_have_their_row(row: ResourceRow, info: JailInfo)
    ensures
        resource_columns() =~= seq!["kind"@, "name"@, "status"@],
        resource_cells(row) =~= seq![row.kind@, row.name@, row.status@],
        text::starts_with_spec(jail_status(info), info.hostname@ + " "@ + info.ips@),
        text::ends_with_spec(jail_status(info), " ("@ + info.status@ + ")"@),
        jail_status(info).len() == info.hostname@.len() + 1 + info.ips@.len() + 2
            + info.status@.len() + 1,
{
    reveal_strlit(" ");
    reveal_strlit(" (");
    reveal_strlit(")");
    let status = jail_status(info);
    let front = info.hostname@ + " "@ + info.ips@;
    let end = " ("@ + info.status@ + ")"@;
    assert(status.take(front.len() as int) =~= front);
    assert(status.skip(status.len() - end.len()) =~= end);
}

/// What a command printed in the daemon is what the user sees, and the program ends with the
/// status of the command; what the daemon refuses is an error with its reason.
pub proof fn law_outcomes_reach_the_user(
    status: int,
    stdout: Seq<u8>,
    stderr: Seq<u8>,
    reason: Seq<char>,
)
    requires
        0 <= status <= i32::MAX,
    ensures
        shown_spec(protocol::success_spec(status, stdout, stderr)) == Ok::<ShownModel, Seq<char>>(
            ShownModel {
                stdout: text::lossy_spec(stdout),
                stderr: text::lossy_spec(stderr),
                status: status as i32,
            },
        ),
        shown_spec(protocol::error_spec(reason)) == Ok::<ShownModel, Seq<char>>(
            ShownModel { stdout: ""@, stderr: reason + "\n"@, status: 1 },
        ),
{
    protocol::law_response_holds_the_outcome(status, stdout, stderr);
    lemma_answer_names();
}

proof fn lemma_answer_names()
    ensures
        "error"@ != "response"@,
        "status"@ != "datasets"@ && "status"@ != "volumes"@ && "status"@ != "jails"@ && "status"@
            != "vms"@,
        "stdout"@ != "datasets"@ && "stdout"@ != "volumes"@ && "stdout"@ != "jails"@ && "stdout"@
            != "vms"@,
        "stderr"@ != "datasets"@ && "stderr"@ != "volumes"@ && "stderr"@ != "jails"@ && "stderr"@
            != "vms"@,
        "datasets"@ != "volumes"@ && "datasets"@ != "jails"@ && "datasets"@ != "vms"@,
        "volumes"@ != "jails"@ && "volumes"@ != "vms"@ && "jails"@ != "vms"@,
        "datasets"@ != "status"@ && "volumes"@ != "status"@ && "jails"@ != "status"@ && "vms"@
            != "status"@,
{
    reveal_strlit("error");
    reveal_strlit("response");
    reveal_strlit("status");
    reveal_strlit("stdout");
    reveal_strlit("stderr");
    reveal_strlit("datasets");
    reveal_strlit("volumes");
    reveal_strlit("jails");
    reveal_strlit("vms");
    assert("error"@.len() == 5 && "response"@.len() == 8);
    assert("status"@.len() == 6 && "stdout"@.len() == 6 && "stderr"@.len() == 6);
    assert("datasets"@.len() == 8 && "volumes"@.len() == 7 && "jails"@.len() == 5);
    assert("vms"@.len() == 3);
}

/// What is listed by the daemon is what the user sees: to ask for a kind of resource reaches
/// the listing of that kind, and its answer is shown as the table of the rows that were found.
pub proof fn law_listings_reach_the_user(
    resource: protocol::Resource,
    rows: Seq<Tree>,
)
    requires
        resource != protocol::Resource::All,
    ensures
        ({
            let name = protocol::resource_name(resource);
            let request = protocol::list_spec(name);
            let listing = daemon::listing_spec(name)->Ok_0;
            let answer = protocol::rows_spec(daemon::listing_name(listing), rows);
            let columns = match resource {
                protocol::Resource::Jail => output::jail_columns(),
                protocol::Resource::Vm => output::vm_columns(),
                _ => output::name_columns(),
            };
            &&& request::text_at(request, "command"@) == Some("list"@)
            &&& request::text_at(request, "resource"@) == Some(name)
            &&& daemon::listing_spec(name) is Ok
            &&& shown_spec(answer) == Ok::<ShownModel, Seq<char>>(
                ShownModel {
                    stdout: output::table_text(output::table_rows(rows, columns)) + "\n"@,
                    stderr: ""@,
                    status: 0,
                },
            )
        }),
{
    lemma_answer_names();
    reveal_strlit("command");
    reveal_strlit("resource");
    assert("command"@.len() == 7 && "resource"@.len() == 8);
    daemon::law_listings_have_their_names(daemon::Listing::Datasets, ""@);
    daemon::law_listings_have_their_names(daemon::Listing::Volumes, ""@);
    daemon::law_listings_have_their_names(daemon::Listing::Jails, ""@);
    daemon::law_listings_have_their_names(daemon::Listing::Vms, ""@);
}

} // verus!
