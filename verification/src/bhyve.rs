//! Virtual machines under bhyve: how they are created, started, stopped and destroyed.

use vstd::prelude::*;

use crate::config;
use crate::config::{Config, IMAGE_BASE, SEED_BASE, VM_BASE};
use crate::dependency;
use crate::dependency::{ResourceKind, Stored};
use crate::error;
use crate::error::{caused, Error};
use crate::jail;
use crate::launch;
use crate::launch::Launch;
use crate::metadata;
use crate::plan;
use crate::plan::{command, Act, Action, Command, CommandLine, Plan, PlanModel, Recovery};
use crate::snapshot;
use crate::snapshot::Snapshot;
use crate::sort;
use crate::sort::{sort_by_name, Named};
use crate::text;
use crate::text::{
    blank, bool_text, decimal, hex, join, join_path, lowercase, only_digits, owned, parse_number,
    parse_signed, replace, same, split_once, trim,
};

verus! {

// ---------------------------------------------------------------------------
// Names and places
// ---------------------------------------------------------------------------

/// The directory of a virtual machine.
pub open spec fn vm_path(name: Seq<char>) -> Seq<char> {
    text::join_path_spec(VM_BASE@, name)
}

/// The directory of a virtual machine.
pub fn vm_root_path(name: &str) -> (path: String)
    ensures
        path@ == vm_path(name@),
{
    join_path(VM_BASE, name)
}

/// Whether a virtual machine is managed under this name.
pub open spec fn is_managed(name: Seq<char>, files: Snapshot) -> bool {
    jail::is_component(name) && snapshot::is_dir_at(files, vm_path(name))
}

/// Whether a virtual machine is managed under this name: the name is a single component
/// of a path, and its directory is there.
pub fn path_exists(name: &str, files: &Snapshot) -> (result: bool)
    ensures
        result == is_managed(name@, *files),
{
    jail::is_single_component(name) && files.is_dir(vm_root_path(name).as_str())
}

/// The message for a name that is not a single component of a path.
pub open spec fn invalid_name(name: Seq<char>) -> Seq<char> {
    "invalid VM name: "@ + name
}

/// Fails if a name is not a single component of a path.
pub fn validate_name(name: &str) -> (result: Result<(), Error>)
    ensures
        match result {
            Ok(_) => jail::is_component(name@),
            Err(error) => !jail::is_component(name@) && error@ == invalid_name(name@),
        },
{
    if jail::is_single_component(name) {
        Ok(())
    } else {
        Err(Error::new(owned("invalid VM name: ").concat(name)))
    }
}

/// The dataset of a virtual machine.
pub open spec fn vm_dataset_spec(config: Config, name: Seq<char>) -> Seq<char> {
    config::dataset_spec(config.zfs_pool@, vm_path(name))
}

/// The dataset of a virtual machine.
pub fn vm_dataset(name: &str, config: &Config) -> (dataset: String)
    ensures
        dataset@ == vm_dataset_spec(*config, name@),
{
    config::dataset(config, vm_root_path(name).as_str())
}

/// The device of a dataset that is a volume.
pub open spec fn device_spec(dataset: Seq<char>) -> Seq<char> {
    "/dev/zvol/"@ + dataset
}

fn device(dataset: &str) -> (path: String)
    ensures
        path@ == device_spec(dataset@),
{
    owned("/dev/zvol/").concat(dataset)
}

/// The dataset of the disk of a virtual machine.
pub open spec fn disk_dataset_spec(config: Config, name: Seq<char>) -> Seq<char> {
    vm_dataset_spec(config, name) + "/disk.vol"@
}

fn disk_dataset(name: &str, config: &Config) -> (dataset: String)
    ensures
        dataset@ == disk_dataset_spec(*config, name@),
{
    vm_dataset(name, config).concat("/disk.vol")
}

/// The device of the disk of a virtual machine.
pub open spec fn disk_spec(config: Config, name: Seq<char>) -> Seq<char> {
    device_spec(disk_dataset_spec(config, name))
}

/// The device of the disk of a virtual machine.
pub fn disk_path(name: &str, config: &Config) -> (path: String)
    ensures
        path@ == disk_spec(*config, name@),
{
    device(disk_dataset(name, config).as_str())
}

/// The dataset of the seed volume of a virtual machine.
pub open spec fn seed_dataset_spec(config: Config, name: Seq<char>) -> Seq<char> {
    config.zfs_pool@ + SEED_BASE@ + "/"@ + name
}

/// The dataset of the seed volume of a virtual machine.
pub fn seed_dataset(name: &str, config: &Config) -> (dataset: String)
    ensures
        dataset@ == seed_dataset_spec(*config, name@),
{
    owned(config.zfs_pool.as_str()).concat(SEED_BASE).concat("/").concat(name)
}

/// A file in the directory of a virtual machine.
pub open spec fn vm_file(name: Seq<char>, file: Seq<char>) -> Seq<char> {
    text::join_path_spec(vm_path(name), file)
}

/// The file that holds the number of the process that runs a virtual machine.
pub fn pid_path(name: &str) -> (path: String)
    ensures
        path@ == vm_file(name@, "bhyve.pid"@),
{
    join_path(vm_root_path(name).as_str(), "bhyve.pid")
}

/// The file that holds the number of the process that runs a TPM emulator.
pub fn tpm_pid_path(name: &str) -> (path: String)
    ensures
        path@ == vm_file(name@, "tpm.pid"@),
{
    join_path(vm_root_path(name).as_str(), "tpm.pid")
}

/// The file that holds the name of the interface of a virtual machine.
pub fn tap_path(name: &str) -> (path: String)
    ensures
        path@ == vm_file(name@, "tap"@),
{
    join_path(vm_root_path(name).as_str(), "tap")
}

// ---------------------------------------------------------------------------
// Network addresses
// ---------------------------------------------------------------------------

/// The interface that every virtual machine has.
pub const VIRTIO_NET_INTERFACE: &'static str = "virtio-net0";

/// The property that holds the address of an interface.
pub open spec fn mac_property(interface: Seq<char>) -> Seq<char> {
    "mac_"@ + interface
}

/// The property that holds the address of an interface.
pub fn interface_mac_property(interface: &str) -> (property: String)
    ensures
        property@ == mac_property(interface@),
{
    owned("mac_").concat(interface)
}

/// The first byte of an address that is made up: the two lowest bits say that it is
/// locally administered, and not a multicast address.
pub open spec fn local_byte(byte: u8) -> int {
    byte - byte % 4 + 2
}

/// Bytes in hexadecimal notation with colons between them.
pub open spec fn mac_spec(bytes: Seq<u8>) -> Seq<char> {
    text::hex_spec(local_byte(bytes[0]) as nat, 2) + ":"@ + text::hex_spec(bytes[1] as nat, 2)
        + ":"@ + text::hex_spec(bytes[2] as nat, 2) + ":"@ + text::hex_spec(bytes[3] as nat, 2)
        + ":"@ + text::hex_spec(bytes[4] as nat, 2) + ":"@ + text::hex_spec(bytes[5] as nat, 2)
}

/// Makes up a network address from six random bytes.
pub fn mac_address(bytes: [u8; 6]) -> (address: String)
    ensures
        address@ == mac_spec(bytes@),
{
    let byte: u8 = bytes[0];
    let first: u8 = (byte & 0xfc) | 0x02;
    assert(((byte & 0xfc) | 0x02) == byte - byte % 4 + 2) by (bit_vector);
    hex(first as u16, 2).concat(":").concat(hex(bytes[1] as u16, 2).as_str()).concat(":").concat(
        hex(bytes[2] as u16, 2).as_str(),
    ).concat(":").concat(hex(bytes[3] as u16, 2).as_str()).concat(":").concat(
        hex(bytes[4] as u16, 2).as_str(),
    ).concat(":").concat(hex(bytes[5] as u16, 2).as_str())
}

/// An address that is made up is never one that a manufacturer gave out, nor one of a
/// group of hosts.
pub proof fn law_made_up_address_is_local(byte: u8)
    ensures
        0 <= local_byte(byte) <= 255,
        local_byte(byte) % 2 == 0,
        local_byte(byte) / 2 % 2 == 1,
{
}

// ---------------------------------------------------------------------------
// Operating systems and images
// ---------------------------------------------------------------------------

/// Whether an operating system is supported.
pub open spec fn is_supported_os(os: Seq<char>) -> bool {
    os == "freebsd"@ || os == "ubuntu"@ || os == "fedora"@ || os == "debian"@
}

/// Fails if an operating system is not supported.
pub fn validate_os(os: &str) -> (result: Result<(), Error>)
    ensures
        match result {
            Ok(_) => is_supported_os(os@),
            Err(error) => !is_supported_os(os@) && error@ == "unsupported VM operating system: "@
                + os@,
        },
{
    if !same(os, "freebsd") && !same(os, "ubuntu") && !same(os, "fedora") && !same(os, "debian") {
        return Err(Error::new(owned("unsupported VM operating system: ").concat(os)));
    }
    Ok(())
}

/// The code name of an Ubuntu release, which may be given by its number or its name.
pub open spec fn ubuntu_spec(version: Seq<char>) -> Option<Seq<char>> {
    let version = text::lowercase_spec(version);
    if version == "26.04"@ || version == "resolute"@ {
        Some("resolute"@)
    } else if version == "24.04"@ || version == "noble"@ {
        Some("noble"@)
    } else if version == "22.04"@ || version == "jammy"@ {
        Some("jammy"@)
    } else if version == "20.04"@ || version == "focal"@ {
        Some("focal"@)
    } else {
        None
    }
}

/// The code name of an Ubuntu release.
pub fn ubuntu_codename(version: &str) -> (result: Option<String>)
    ensures
        text::optional_view(result) == ubuntu_spec(version@),
{
    let small = lowercase(version);
    let version = small.as_str();
    if same(version, "26.04") || same(version, "resolute") {
        Some(owned("resolute"))
    } else if same(version, "24.04") || same(version, "noble") {
        Some(owned("noble"))
    } else if same(version, "22.04") || same(version, "jammy") {
        Some(owned("jammy"))
    } else if same(version, "20.04") || same(version, "focal") {
        Some(owned("focal"))
    } else {
        None
    }
}

/// The number and code name of a Debian release, which may be given by either.
pub open spec fn debian_spec(version: Seq<char>) -> Option<(Seq<char>, Seq<char>)> {
    let version = text::lowercase_spec(version);
    if version == "13"@ || version == "trixie"@ {
        Some(("13"@, "trixie"@))
    } else if version == "12"@ || version == "bookworm"@ {
        Some(("12"@, "bookworm"@))
    } else if version == "11"@ || version == "bullseye"@ {
        Some(("11"@, "bullseye"@))
    } else {
        None
    }
}

/// The number and code name of a Debian release.
pub fn debian_release(version: &str) -> (result: Option<(String, String)>)
    ensures
        match result {
            Some((number, name)) => debian_spec(version@) == Some((number@, name@)),
            None => debian_spec(version@) is None,
        },
{
    let small = lowercase(version);
    let version = small.as_str();
    if same(version, "13") || same(version, "trixie") {
        Some((owned("13"), owned("trixie")))
    } else if same(version, "12") || same(version, "bookworm") {
        Some((owned("12"), owned("bookworm")))
    } else if same(version, "11") || same(version, "bullseye") {
        Some((owned("11"), owned("bullseye")))
    } else {
        None
    }
}

/// Whether a Fedora version is a number, a dash and a release of digits and dots.
pub open spec fn is_fedora_version(version: Seq<char>) -> bool {
    match text::split_once_spec(version, '-') {
        None => false,
        Some((major, release)) => {
            &&& major.len() > 0
            &&& text::all_digits(major, false)
            &&& release.len() > 0
            &&& text::all_digits(release, true)
        },
    }
}

/// Whether a Fedora version is a number, a dash and a release of digits and dots.
pub fn fedora_version_is_valid(version: &str) -> (result: bool)
    ensures
        result == is_fedora_version(version@),
{
    match split_once(version, '-') {
        None => false,
        Some((major, release)) => !major.as_str().is_empty() && only_digits(major.as_str(), false)
            && !release.as_str().is_empty() && only_digits(release.as_str(), true),
    }
}

/// The part of a version before its first dash.
pub open spec fn before_dash(version: Seq<char>) -> Seq<char> {
    match text::split_once_spec(version, '-') {
        Some((major, _)) => major,
        None => version,
    }
}

/// The part of a version before its first dash.
pub fn fedora_major_version(version: &str) -> (major: String)
    ensures
        major@ == before_dash(version@),
{
    match split_once(version, '-') {
        Some((major, _)) => major,
        None => owned(version),
    }
}

/// Whether the version of an image is taken from the host: none is named, and the
/// operating system has no version that it goes by.
pub open spec fn takes_host_version(os: Seq<char>, version: Option<Seq<char>>) -> bool {
    version is None && os != "ubuntu"@ && os != "fedora"@ && os != "debian"@
}

/// Whether the version of an image is taken from the host.
pub fn needs_host_version(os: &str, version: Option<&str>) -> (result: bool)
    ensures
        result == takes_host_version(os@, text::str_view(version)),
{
    version.is_none() && !same(os, "ubuntu") && !same(os, "fedora") && !same(os, "debian")
}

/// The version of an image, before it is looked at: what was asked for, or what the
/// operating system goes by. The host's version is what `uname -r` printed.
pub open spec fn wanted_version(
    os: Seq<char>,
    version: Option<Seq<char>>,
    host: Seq<char>,
) -> Seq<char> {
    match version {
        Some(version) => version,
        None => if os == "ubuntu"@ {
            "resolute"@
        } else if os == "fedora"@ {
            "44-1.7"@
        } else if os == "debian"@ {
            "13"@
        } else {
            before_dash(text::trim_spec(host))
        },
    }
}

/// The version of an image for an operating system.
pub open spec fn version_spec(os: Seq<char>, version: Option<Seq<char>>, host: Seq<char>) -> Result<
    Seq<char>,
    Seq<char>,
> {
    let version = wanted_version(os, version, host);
    if os == "freebsd"@ && !(text::split_once_spec(version, '.') is Some && text::all_digits(
        version,
        true,
    )) {
        Err("invalid FreeBSD release version: "@ + version)
    } else if os == "ubuntu"@ && ubuntu_spec(version) is None {
        Err("unsupported Ubuntu release version: "@ + version)
    } else if os == "fedora"@ && !is_fedora_version(version) {
        Err(
            "invalid Fedora release version: "@ + version + "; expected MAJOR-RELEASE"@,
        )
    } else if os == "debian"@ && debian_spec(version) is None {
        Err("unsupported Debian release version: "@ + version)
    } else {
        Ok(version)
    }
}

/// The version of an image for an operating system.
pub fn cloud_image_version(os: &str, version: Option<&str>, host: &str) -> (result: Result<
    String,
    Error,
>)
    ensures
        error::text_outcome(result) == version_spec(os@, text::str_view(version), host@),
{
    proof {
        lemma_os_names();
    }
    let wanted = match version {
        Some(version) => owned(version),
        None => if same(os, "ubuntu") {
            owned("resolute")
        } else if same(os, "fedora") {
            owned("44-1.7")
        } else if same(os, "debian") {
            owned("13")
        } else {
            fedora_major_version(trim(host).as_str())
        },
    };
    let version = wanted.as_str();
    if same(os, "freebsd") {
        if split_once(version, '.').is_none() || !only_digits(version, true) {
            return Err(Error::new(owned("invalid FreeBSD release version: ").concat(version)));
        }
    } else if same(os, "ubuntu") {
        if ubuntu_codename(version).is_none() {
            return Err(Error::new(owned("unsupported Ubuntu release version: ").concat(version)));
        }
    } else if same(os, "fedora") {
        if !fedora_version_is_valid(version) {
            return Err(
                Error::new(
                    owned("invalid Fedora release version: ").concat(version).concat(
                        "; expected MAJOR-RELEASE",
                    ),
                ),
            );
        }
    } else if same(os, "debian") {
        if debian_release(version).is_none() {
            return Err(Error::new(owned("unsupported Debian release version: ").concat(version)));
        }
    }
    Ok(wanted)
}

proof fn lemma_os_names()
    ensures
        "freebsd"@ != "ubuntu"@,
        "freebsd"@ != "fedora"@,
        "freebsd"@ != "debian"@,
        "ubuntu"@ != "fedora"@,
        "ubuntu"@ != "debian"@,
        "fedora"@ != "debian"@,
{
    reveal_strlit("freebsd");
    reveal_strlit("ubuntu");
    reveal_strlit("fedora");
    reveal_strlit("debian");
    assert("freebsd"@.len() == 7 && "ubuntu"@.len() == 6);
    assert("fedora"@.len() == 6 && "debian"@.len() == 6);
    assert("ubuntu"@[0] == 'u' && "fedora"@[0] == 'f' && "debian"@[0] == 'd');
}

/// The architecture of an image, from what `uname -m` printed. FreeBSD goes by the name
/// of the host; the others have names of their own for the two that they come for.
pub open spec fn arch_spec(os: Seq<char>, machine: Seq<char>) -> Result<Seq<char>, Seq<char>> {
    let host = text::trim_spec(machine);
    if os == "ubuntu"@ || os == "fedora"@ || os == "debian"@ {
        if host == "amd64"@ || host == "x86_64"@ {
            if os == "fedora"@ {
                Ok("x86_64"@)
            } else {
                Ok("amd64"@)
            }
        } else if host == "arm64"@ || host == "aarch64"@ {
            if os == "fedora"@ {
                Ok("aarch64"@)
            } else {
                Ok("arm64"@)
            }
        } else {
            Err("unsupported "@ + os + " host architecture: "@ + host)
        }
    } else if host.len() == 0 {
        Err("uname -m returned an empty architecture"@)
    } else {
        Ok(host)
    }
}

/// The architecture of an image, from what `uname -m` printed.
pub fn cloud_image_arch(os: &str, machine: &str) -> (result: Result<String, Error>)
    ensures
        error::text_outcome(result) == arch_spec(os@, machine@),
{
    let host_arch = trim(machine);
    let host = host_arch.as_str();
    if same(os, "ubuntu") || same(os, "fedora") || same(os, "debian") {
        if same(host, "amd64") || same(host, "x86_64") {
            if same(os, "fedora") {
                Ok(owned("x86_64"))
            } else {
                Ok(owned("amd64"))
            }
        } else if same(host, "arm64") || same(host, "aarch64") {
            if same(os, "fedora") {
                Ok(owned("aarch64"))
            } else {
                Ok(owned("arm64"))
            }
        } else {
            Err(
                Error::new(
                    owned("unsupported ").concat(os).concat(" host architecture: ").concat(host),
                ),
            )
        }
    } else if host.is_empty() {
        Err(Error::new(owned("uname -m returned an empty architecture")))
    } else {
        Ok(host_arch)
    }
}

/// The file name of an image and the address that it is fetched from.
pub open spec fn image_spec(os: Seq<char>, version: Seq<char>, arch: Seq<char>) -> Result<
    (Seq<char>, Seq<char>),
    Seq<char>,
> {
    if os == "ubuntu"@ {
        match ubuntu_spec(version) {
            None => Err("unsupported Ubuntu release version: "@ + version),
            Some(codename) => {
                let file = codename + "-server-cloudimg-"@ + arch + ".img"@;
                Ok(
                    (
                        file,
                        "https://cloud-images.ubuntu.com/"@ + codename + "/current/"@ + file,
                    ),
                )
            },
        }
    } else if os == "fedora"@ {
        let file = "Fedora-Cloud-Base-Generic-"@ + version + "."@ + arch + ".qcow2"@;
        Ok(
            (
                file,
                "https://download.fedoraproject.org/pub/fedora/linux/releases/"@ + before_dash(
                    version,
                ) + "/Cloud/"@ + arch + "/images/"@ + file,
            ),
        )
    } else if os == "debian"@ {
        match debian_spec(version) {
            None => Err("unsupported Debian release version: "@ + version),
            Some((number, codename)) => {
                let file = "debian-"@ + number + "-generic-"@ + arch + ".qcow2"@;
                Ok(
                    (
                        file,
                        "https://cloud.debian.org/images/cloud/"@ + codename + "/latest/"@ + file,
                    ),
                )
            },
        }
    } else {
        let file = "FreeBSD-"@ + version + "-RELEASE-"@ + arch + "-BASIC-CLOUDINIT-zfs.raw.xz"@;
        Ok(
            (
                file,
                "https://download.freebsd.org/releases/VM-IMAGES/"@ + version + "-RELEASE/"@ + arch
                    + "/Latest/"@ + file,
            ),
        )
    }
}

/// The file name of an image and the address that it is fetched from.
pub fn cloud_image(os: &str, version: &str, arch: &str) -> (result: Result<
    (String, String),
    Error,
>)
    ensures
        match result {
            Ok((file, url)) => image_spec(os@, version@, arch@) == Ok::<
                (Seq<char>, Seq<char>),
                Seq<char>,
            >((file@, url@)),
            Err(error) => image_spec(os@, version@, arch@) == Err::<
                (Seq<char>, Seq<char>),
                Seq<char>,
            >(error@),
        },
{
    if same(os, "ubuntu") {
        match ubuntu_codename(version) {
            None => Err(
                Error::new(owned("unsupported Ubuntu release version: ").concat(version)),
            ),
            Some(name) => {
                let codename = name.as_str();
                let file = owned(codename).concat("-server-cloudimg-").concat(arch).concat(".img");
                let url = owned("https://cloud-images.ubuntu.com/").concat(codename).concat(
                    "/current/",
                ).concat(file.as_str());
                Ok((file, url))
            },
        }
    } else if same(os, "fedora") {
        let major = fedora_major_version(version);
        let file = owned("Fedora-Cloud-Base-Generic-").concat(version).concat(".").concat(
            arch,
        ).concat(".qcow2");
        let url = owned("https://download.fedoraproject.org/pub/fedora/linux/releases/").concat(
            major.as_str(),
        ).concat("/Cloud/").concat(arch).concat("/images/").concat(file.as_str());
        Ok((file, url))
    } else if same(os, "debian") {
        match debian_release(version) {
            None => Err(
                Error::new(owned("unsupported Debian release version: ").concat(version)),
            ),
            Some((number, codename)) => {
                let file = owned("debian-").concat(number.as_str()).concat("-generic-").concat(
                    arch,
                ).concat(".qcow2");
                let url = owned("https://cloud.debian.org/images/cloud/").concat(
                    codename.as_str(),
                ).concat("/latest/").concat(file.as_str());
                Ok((file, url))
            },
        }
    } else {
        let file = owned("FreeBSD-").concat(version).concat("-RELEASE-").concat(arch).concat(
            "-BASIC-CLOUDINIT-zfs.raw.xz",
        );
        let url = owned("https://download.freebsd.org/releases/VM-IMAGES/").concat(version).concat(
            "-RELEASE/",
        ).concat(arch).concat("/Latest/").concat(file.as_str());
        Ok((file, url))
    }
}

/// Where an image is kept.
pub open spec fn image_path(file: Seq<char>) -> Seq<char> {
    text::join_path_spec(IMAGE_BASE@, file)
}

/// How a disk gets its image: the image is fetched unless it is there already, and written
/// to the disk.
pub open spec fn image_plan(
    os: Seq<char>,
    version: Seq<char>,
    disk: Seq<char>,
    machine: Seq<char>,
    files: Snapshot,
) -> Result<PlanModel, Seq<char>> {
    match arch_spec(os, machine) {
        Err(error) => Err(error),
        Ok(arch) => match image_spec(os, version, arch) {
            Err(error) => Err(error),
            Ok((file, url)) => {
                let image = image_path(file);
                let fetched = if snapshot::exists_at(files, image) {
                    plan::no_steps()
                } else {
                    plan::no_steps().run(plan::line("fetch"@).arg("-o"@).arg(image).arg(url))
                };
                if os == "ubuntu"@ || os == "fedora"@ || os == "debian"@ {
                    Ok(
                        fetched.run(
                            plan::line("qemu-img"@).arg("convert"@).arg("-O"@).arg("raw"@).arg(
                                image,
                            ).arg(disk),
                        ),
                    )
                } else {
                    Ok(
                        fetched.must(
                            Act::RunTo {
                                command: plan::line("unxz"@).arg("-T0"@).arg("-c"@).arg(image),
                                path: disk,
                            },
                        ),
                    )
                }
            },
        },
    }
}

/// The path that decides whether an image has to be fetched, if there is an image.
pub fn image_probe(os: &str, version: &str, machine: &str) -> (result: Option<String>)
    ensures
        match result {
            Some(path) => arch_spec(os@, machine@) matches Ok(arch) && image_spec(
                os@,
                version@,
                arch,
            ) matches Ok(image) && path@ == image_path(image.0),
            None => match arch_spec(os@, machine@) {
                Err(_) => true,
                Ok(arch) => image_spec(os@, version@, arch) is Err,
            },
        },
{
    match cloud_image_arch(os, machine) {
        Err(_) => None,
        Ok(arch) => match cloud_image(os, version, arch.as_str()) {
            Err(_) => None,
            Ok((file, _)) => Some(join_path(IMAGE_BASE, file.as_str())),
        },
    }
}

/// Plans to put an image on a disk. The machine is what `uname -m` printed.
pub fn provision_cloud_image(
    os: &str,
    version: &str,
    disk: &str,
    machine: &str,
    files: &Snapshot,
) -> (result: Result<Plan, Error>)
    ensures
        jail::plan_result(result) == image_plan(os@, version@, disk@, machine@, *files),
{
    let arch = match cloud_image_arch(os, machine) {
        Ok(arch) => arch,
        Err(error) => {
            return Err(error);
        },
    };
    let (file, url) = match cloud_image(os, version, arch.as_str()) {
        Ok(image) => image,
        Err(error) => {
            return Err(error);
        },
    };
    let path = join_path(IMAGE_BASE, file.as_str());
    let image = path.as_str();
    let fetched = if files.present(image) {
        Plan::new()
    } else {
        Plan::new().run(command("fetch").arg("-o").arg(image).arg(url.as_str()))
    };
    if same(os, "ubuntu") || same(os, "fedora") || same(os, "debian") {
        Ok(
            fetched.run(
                command("qemu-img").arg("convert").arg("-O").arg("raw").arg(image).arg(disk),
            ),
        )
    } else {
        Ok(
            fetched.must(
                Action::RunTo {
                    command: command("unxz").arg("-T0").arg("-c").arg(image),
                    path: owned(disk),
                },
            ),
        )
    }
}

/// An image that is there is used again: nothing is fetched for a release and an
/// architecture whose image is kept.
pub proof fn law_kept_image_is_reused(
    os: Seq<char>,
    version: Seq<char>,
    disk: Seq<char>,
    machine: Seq<char>,
    files: Snapshot,
)
    requires
        arch_spec(os, machine) is Ok,
        image_spec(os, version, arch_spec(os, machine)->Ok_0) is Ok,
    ensures
        ({
            let file = image_spec(os, version, arch_spec(os, machine)->Ok_0)->Ok_0.0;
            image_plan(os, version, disk, machine, files) matches Ok(plan) && {
                &&& snapshot::exists_at(files, image_path(file)) ==> plan.steps.len() == 1
                &&& !snapshot::exists_at(files, image_path(file)) ==> (plan.steps.len() == 2
                    && plan.steps[0].action is Run && plan.steps[0].action->Run_0.program
                    == "fetch"@)
            }
        }),
{
}

/// The two names of an Ubuntu release give the same image, and so do those of a Debian
/// release.
pub proof fn law_release_names_give_one_image(os: Seq<char>, first: Seq<char>, second: Seq<char>, arch: Seq<char>)
    requires
        ({
            ||| os == "ubuntu"@ && ubuntu_spec(first) is Some && ubuntu_spec(first) == ubuntu_spec(
                second,
            )
            ||| os == "debian"@ && debian_spec(first) is Some && debian_spec(first) == debian_spec(
                second,
            )
        }),
    ensures
        image_spec(os, first, arch) == image_spec(os, second, arch),
        image_spec(os, first, arch) is Ok,
{
    lemma_os_names();
}

/// A version that was accepted has an image for every architecture.
pub proof fn law_accepted_version_has_an_image(
    os: Seq<char>,
    version: Option<Seq<char>>,
    host: Seq<char>,
    arch: Seq<char>,
)
    requires
        version_spec(os, version, host) is Ok,
    ensures
        image_spec(os, version_spec(os, version, host)->Ok_0, arch) is Ok,
{
}

/// An Ubuntu release has the image of its code name: a release that is given by its code name,
/// in whatever case, has that very code name in lower case, and the numbers stand for one code
/// name each. Nothing else is a release.
#[verifier::spinoff_prover]
#[verifier::rlimit(40)]
pub proof fn law_ubuntu_releases_have_their_images(version: Seq<char>, arch: Seq<char>)
    ensures
        ({
            let given = text::lowercase_spec(version);
            let image = image_spec("ubuntu"@, version, arch);
            &&& given == "26.04"@ || given == "resolute"@ ==> ubuntu_spec(version) == Some("resolute"@) && image
                == Ok::<(Seq<char>, Seq<char>), Seq<char>>(
                (
                    "resolute-server-cloudimg-"@ + arch + ".img"@,
                    "https://cloud-images.ubuntu.com/resolute/current/resolute-server-cloudimg-"@ + arch
                        + ".img"@,
                ),
            )
            &&& (given == "26.04"@ || given == "resolute"@) && arch == "amd64"@ ==> image->Ok_0.0
                == "resolute-server-cloudimg-amd64.img"@
            &&& given == "24.04"@ || given == "noble"@ ==> ubuntu_spec(version) == Some("noble"@) && image
                == Ok::<(Seq<char>, Seq<char>), Seq<char>>(
                (
                    "noble-server-cloudimg-"@ + arch + ".img"@,
                    "https://cloud-images.ubuntu.com/noble/current/noble-server-cloudimg-"@ + arch
                        + ".img"@,
                ),
            )
            &&& (given == "24.04"@ || given == "noble"@) && arch == "amd64"@ ==> image->Ok_0.0
                == "noble-server-cloudimg-amd64.img"@
            &&& given == "22.04"@ || given == "jammy"@ ==> ubuntu_spec(version) == Some("jammy"@) && image
                == Ok::<(Seq<char>, Seq<char>), Seq<char>>(
                (
                    "jammy-server-cloudimg-"@ + arch + ".img"@,
                    "https://cloud-images.ubuntu.com/jammy/current/jammy-server-cloudimg-"@ + arch
                        + ".img"@,
                ),
            )
            &&& (given == "22.04"@ || given == "jammy"@) && arch == "amd64"@ ==> image->Ok_0.0
                == "jammy-server-cloudimg-amd64.img"@
            &&& given == "20.04"@ || given == "focal"@ ==> ubuntu_spec(version) == Some("focal"@) && image
                == Ok::<(Seq<char>, Seq<char>), Seq<char>>(
                (
                    "focal-server-cloudimg-"@ + arch + ".img"@,
                    "https://cloud-images.ubuntu.com/focal/current/focal-server-cloudimg-"@ + arch
                        + ".img"@,
                ),
            )
            &&& (given == "20.04"@ || given == "focal"@) && arch == "amd64"@ ==> image->Ok_0.0
                == "focal-server-cloudimg-amd64.img"@
            &&& image is Ok <==> ubuntu_names().contains(given)
        }),
{
    lemma_os_names();
    lemma_ubuntu_names();
    let given = text::lowercase_spec(version);
    let image = image_spec("ubuntu"@, version, arch)->Ok_0;
    if ubuntu_names().contains(given) {
        let i = ubuntu_names().index_of(given);
        assert(0 <= i < 8 && ubuntu_names()[i] == given);
    }
    reveal_strlit("-server-cloudimg-");
    reveal_strlit("https://cloud-images.ubuntu.com/");
    reveal_strlit("/current/");
    reveal_strlit("amd64");
    reveal_strlit(".img");
    if given == "26.04"@ || given == "resolute"@ {
        reveal_strlit("resolute");
        reveal_strlit("resolute-server-cloudimg-");
        reveal_strlit("https://cloud-images.ubuntu.com/resolute/current/resolute-server-cloudimg-");
        reveal_strlit("resolute-server-cloudimg-amd64.img");
        assert("resolute"@ + "-server-cloudimg-"@ =~= "resolute-server-cloudimg-"@);
        assert(image.1 =~= "https://cloud-images.ubuntu.com/resolute/current/resolute-server-cloudimg-"@
            + arch + ".img"@);
        assert("resolute-server-cloudimg-"@ + "amd64"@ + ".img"@
            =~= "resolute-server-cloudimg-amd64.img"@);
    }
    if given == "24.04"@ || given == "noble"@ {
        reveal_strlit("noble");
        reveal_strlit("noble-server-cloudimg-");
        reveal_strlit("https://cloud-images.ubuntu.com/noble/current/noble-server-cloudimg-");
        reveal_strlit("noble-server-cloudimg-amd64.img");
        assert("noble"@ + "-server-cloudimg-"@ =~= "noble-server-cloudimg-"@);
        assert(image.1 =~= "https://cloud-images.ubuntu.com/noble/current/noble-server-cloudimg-"@
            + arch + ".img"@);
        assert("noble-server-cloudimg-"@ + "amd64"@ + ".img"@
            =~= "noble-server-cloudimg-amd64.img"@);
    }
    if given == "22.04"@ || given == "jammy"@ {
        reveal_strlit("jammy");
        reveal_strlit("jammy-server-cloudimg-");
        reveal_strlit("https://cloud-images.ubuntu.com/jammy/current/jammy-server-cloudimg-");
        reveal_strlit("jammy-server-cloudimg-amd64.img");
        assert("jammy"@ + "-server-cloudimg-"@ =~= "jammy-server-cloudimg-"@);
        assert(image.1 =~= "https://cloud-images.ubuntu.com/jammy/current/jammy-server-cloudimg-"@
            + arch + ".img"@);
        assert("jammy-server-cloudimg-"@ + "amd64"@ + ".img"@
            =~= "jammy-server-cloudimg-amd64.img"@);
    }
    if given == "20.04"@ || given == "focal"@ {
        reveal_strlit("focal");
        reveal_strlit("focal-server-cloudimg-");
        reveal_strlit("https://cloud-images.ubuntu.com/focal/current/focal-server-cloudimg-");
        reveal_strlit("focal-server-cloudimg-amd64.img");
        assert("focal"@ + "-server-cloudimg-"@ =~= "focal-server-cloudimg-"@);
        assert(image.1 =~= "https://cloud-images.ubuntu.com/focal/current/focal-server-cloudimg-"@
            + arch + ".img"@);
        assert("focal-server-cloudimg-"@ + "amd64"@ + ".img"@
            =~= "focal-server-cloudimg-amd64.img"@);
    }
}

proof fn lemma_ubuntu_names()
    ensures
        forall|i: int, j: int|
            0 <= i < j < 8 ==> #[trigger] ubuntu_names()[i] != #[trigger] ubuntu_names()[j],
        ubuntu_names()[0] == "26.04"@,
        ubuntu_names()[1] == "24.04"@,
        ubuntu_names()[2] == "22.04"@,
        ubuntu_names()[3] == "20.04"@,
        ubuntu_names()[4] == "resolute"@,
        ubuntu_names()[5] == "noble"@,
        ubuntu_names()[6] == "jammy"@,
        ubuntu_names()[7] == "focal"@,
{
    reveal_strlit("26.04");
    reveal_strlit("resolute");
    reveal_strlit("24.04");
    reveal_strlit("noble");
    reveal_strlit("22.04");
    reveal_strlit("jammy");
    reveal_strlit("20.04");
    reveal_strlit("focal");
    let names = ubuntu_names();
    assert(names[0][1] == '6' && names[1][1] == '4' && names[2][1] == '2' && names[3][1] == '0');
    assert(names[4][0] == 'r' && names[5][0] == 'n' && names[6][0] == 'j' && names[7][0] == 'f');
    assert(names[0][0] == '2' && names[1][0] == '2' && names[2][0] == '2' && names[3][0] == '2');
}

/// The numbers of the Ubuntu releases, and their code names.
pub open spec fn ubuntu_names() -> Seq<Seq<char>> {
    seq![
        "26.04"@,
        "24.04"@,
        "22.04"@,
        "20.04"@,
        "resolute"@,
        "noble"@,
        "jammy"@,
        "focal"@,
    ]
}

/// Different Ubuntu releases have different images: those of two code names, or of two
/// numbers, are never the same file.
pub proof fn law_ubuntu_images_differ(i: int, j: int, first: Seq<char>, second: Seq<char>, arch: Seq<char>)
    requires
        0 <= i < 4,
        0 <= j < 4,
        text::lowercase_spec(first) == ubuntu_names()[i] || text::lowercase_spec(first)
            == ubuntu_names()[i + 4],
        text::lowercase_spec(second) == ubuntu_names()[j] || text::lowercase_spec(second)
            == ubuntu_names()[j + 4],
    ensures
        ({
            let one = image_spec("ubuntu"@, first, arch);
            let other = image_spec("ubuntu"@, second, arch);
            &&& one is Ok && other is Ok
            &&& one->Ok_0.0 == other->Ok_0.0 <==> i == j
            &&& one->Ok_0.1 == other->Ok_0.1 <==> i == j
        }),
{
    law_ubuntu_releases_have_their_images(first, arch);
    law_ubuntu_releases_have_their_images(second, arch);
    lemma_ubuntu_names();
    reveal_strlit("resolute-server-cloudimg-");
    reveal_strlit("https://cloud-images.ubuntu.com/resolute/current/resolute-server-cloudimg-");
    reveal_strlit("noble-server-cloudimg-");
    reveal_strlit("https://cloud-images.ubuntu.com/noble/current/noble-server-cloudimg-");
    reveal_strlit("jammy-server-cloudimg-");
    reveal_strlit("https://cloud-images.ubuntu.com/jammy/current/jammy-server-cloudimg-");
    reveal_strlit("focal-server-cloudimg-");
    reveal_strlit("https://cloud-images.ubuntu.com/focal/current/focal-server-cloudimg-");
    let one = image_spec("ubuntu"@, first, arch)->Ok_0;
    let other = image_spec("ubuntu"@, second, arch)->Ok_0;
    let letters = seq!['r', 'n', 'j', 'f'];
    assert(one.0[0] == letters[i] && other.0[0] == letters[j]);
    assert(one.1[32] == letters[i] && other.1[32] == letters[j]);
}

/// A Debian release has the image of its number, in the directory of its code name, whichever
/// of the two it is given by. Nothing else is a release.
#[verifier::spinoff_prover]
#[verifier::rlimit(40)]
pub proof fn law_debian_releases_have_their_images(version: Seq<char>, arch: Seq<char>)
    ensures
        ({
            let given = text::lowercase_spec(version);
            let image = image_spec("debian"@, version, arch);
            &&& given == "13"@ || given == "trixie"@ ==> image == Ok::<
                (Seq<char>, Seq<char>),
                Seq<char>,
            >(
                (
                    "debian-13-generic-"@ + arch + ".qcow2"@,
                    "https://cloud.debian.org/images/cloud/trixie/latest/debian-13-generic-"@ + arch
                        + ".qcow2"@,
                ),
            )
            &&& given == "12"@ || given == "bookworm"@ ==> image == Ok::<
                (Seq<char>, Seq<char>),
                Seq<char>,
            >(
                (
                    "debian-12-generic-"@ + arch + ".qcow2"@,
                    "https://cloud.debian.org/images/cloud/bookworm/latest/debian-12-generic-"@ + arch
                        + ".qcow2"@,
                ),
            )
            &&& given == "11"@ || given == "bullseye"@ ==> image == Ok::<
                (Seq<char>, Seq<char>),
                Seq<char>,
            >(
                (
                    "debian-11-generic-"@ + arch + ".qcow2"@,
                    "https://cloud.debian.org/images/cloud/bullseye/latest/debian-11-generic-"@ + arch
                        + ".qcow2"@,
                ),
            )
            &&& image is Ok <==> given == "13"@ || given == "trixie"@ || given == "12"@ || given == "bookworm"@ || given == "11"@ || given == "bullseye"@
        }),
{
    lemma_os_names();
    let given = text::lowercase_spec(version);
    let image = image_spec("debian"@, version, arch)->Ok_0;
    reveal_strlit("debian-");
    reveal_strlit("-generic-");
    reveal_strlit("https://cloud.debian.org/images/cloud/");
    reveal_strlit("/latest/");
    reveal_strlit("13");
    reveal_strlit("trixie");
    reveal_strlit("12");
    reveal_strlit("bookworm");
    reveal_strlit("11");
    reveal_strlit("bullseye");
    assert("13"@[1] == '3' && "12"@[1] == '2' && "11"@[1] == '1');
    assert("trixie"@[0] == 't' && "bookworm"@[1] == 'o' && "bullseye"@[1] == 'u');
    assert("13"@.len() == 2 && "12"@.len() == 2 && "11"@.len() == 2 && "trixie"@.len() == 6);
    assert("bookworm"@.len() == 8 && "bullseye"@.len() == 8);
    if given == "13"@ || given == "trixie"@ {
        reveal_strlit("debian-13-generic-");
        reveal_strlit("https://cloud.debian.org/images/cloud/trixie/latest/debian-13-generic-");
        assert("debian-"@ + "13"@ + "-generic-"@ =~= "debian-13-generic-"@);
        assert(image.1
            =~= "https://cloud.debian.org/images/cloud/trixie/latest/debian-13-generic-"@ + arch
            + ".qcow2"@);
    }
    if given == "12"@ || given == "bookworm"@ {
        reveal_strlit("debian-12-generic-");
        reveal_strlit("https://cloud.debian.org/images/cloud/bookworm/latest/debian-12-generic-");
        assert("debian-"@ + "12"@ + "-generic-"@ =~= "debian-12-generic-"@);
        assert(image.1
            =~= "https://cloud.debian.org/images/cloud/bookworm/latest/debian-12-generic-"@ + arch
            + ".qcow2"@);
    }
    if given == "11"@ || given == "bullseye"@ {
        reveal_strlit("debian-11-generic-");
        reveal_strlit("https://cloud.debian.org/images/cloud/bullseye/latest/debian-11-generic-");
        assert("debian-"@ + "11"@ + "-generic-"@ =~= "debian-11-generic-"@);
        assert(image.1
            =~= "https://cloud.debian.org/images/cloud/bullseye/latest/debian-11-generic-"@ + arch
            + ".qcow2"@);
    }
}

/// A Fedora image is the one of exactly the version that is named, in the directory of what
/// stands before its dash, and a FreeBSD image the one of exactly the release that is named;
/// both are those of the architecture.
pub proof fn law_named_version_has_its_image(
    major: Seq<char>,
    rest: Seq<char>,
    version: Seq<char>,
    arch: Seq<char>,
)
    requires
        !major.contains('-'),
    ensures
        image_spec("fedora"@, major + "-"@ + rest, arch) == Ok::<
            (Seq<char>, Seq<char>),
            Seq<char>,
        >(
            (
                "Fedora-Cloud-Base-Generic-"@ + (major + "-"@ + rest) + "."@ + arch + ".qcow2"@,
                "https://download.fedoraproject.org/pub/fedora/linux/releases/"@ + major
                    + "/Cloud/"@ + arch + "/images/"@ + ("Fedora-Cloud-Base-Generic-"@ + (major
                    + "-"@ + rest) + "."@ + arch + ".qcow2"@),
            ),
        ),
        image_spec("freebsd"@, version, arch) == Ok::<(Seq<char>, Seq<char>), Seq<char>>(
            (
                "FreeBSD-"@ + version + "-RELEASE-"@ + arch + "-BASIC-CLOUDINIT-zfs.raw.xz"@,
                "https://download.freebsd.org/releases/VM-IMAGES/"@ + version + "-RELEASE/"@ + arch
                    + "/Latest/"@ + ("FreeBSD-"@ + version + "-RELEASE-"@ + arch
                    + "-BASIC-CLOUDINIT-zfs.raw.xz"@),
            ),
        ),
{
    lemma_os_names();
    reveal_strlit("-");
    assert("-"@ =~= seq!['-']);
    text::lemma_split_once_joined(major, '-', rest);
}

/// Where no version is named, Ubuntu, Fedora and Debian go by one of their own, which has an
/// image; FreeBSD goes by the release of the host, without what stands behind the dash.
pub proof fn law_unnamed_version_is_usable(host: Seq<char>, release: Seq<char>, rest: Seq<char>)
    requires
        text::trim_spec(host) == release + "-"@ + rest,
        !release.contains('-'),
    ensures
        version_spec("ubuntu"@, None, host) == Ok::<Seq<char>, Seq<char>>("resolute"@),
        version_spec("fedora"@, None, host) == Ok::<Seq<char>, Seq<char>>("44-1.7"@),
        version_spec("debian"@, None, host) == Ok::<Seq<char>, Seq<char>>("13"@),
        version_spec("freebsd"@, None, host) is Ok <==> release.contains('.') && text::all_digits(
            release,
            true,
        ),
        version_spec("freebsd"@, None, host) matches Ok(version) ==> version == release,
{
    lemma_os_names();
    reveal_strlit("-");
    assert("-"@ =~= seq!['-']);
    text::lemma_split_once_joined(release, '-', rest);
    text::lemma_find_contains(release, '.');
    reveal_strlit("resolute");
    reveal_strlit("44-1.7");
    reveal_strlit("13");
    assert(text::lowercase_spec("resolute"@) =~= "resolute"@);
    assert(text::lowercase_spec("13"@) =~= "13"@);
    let major = seq!['4', '4'];
    let point = seq!['1', '.', '7'];
    assert("44-1.7"@ =~= major + seq!['-'] + point);
    text::lemma_split_once_joined(major, '-', point);
}

/// Every system has the image of the architecture of the host, by the name that it has for
/// it: x86 machines are `amd64` to Ubuntu and Debian and `x86_64` to Fedora, ARM machines are
/// `arm64` and `aarch64`, and FreeBSD takes the name that the host has. The three have no
/// images for other machines.
pub proof fn law_images_match_the_machine(machine: Seq<char>)
    ensures
        ({
            let host = text::trim_spec(machine);
            let x86 = host == "amd64"@ || host == "x86_64"@;
            let arm = host == "arm64"@ || host == "aarch64"@;
            &&& x86 ==> arch_spec("ubuntu"@, machine) == Ok::<Seq<char>, Seq<char>>("amd64"@)
            &&& x86 ==> arch_spec("debian"@, machine) == Ok::<Seq<char>, Seq<char>>("amd64"@)
            &&& x86 ==> arch_spec("fedora"@, machine) == Ok::<Seq<char>, Seq<char>>("x86_64"@)
            &&& arm ==> arch_spec("ubuntu"@, machine) == Ok::<Seq<char>, Seq<char>>("arm64"@)
            &&& arm ==> arch_spec("debian"@, machine) == Ok::<Seq<char>, Seq<char>>("arm64"@)
            &&& arm ==> arch_spec("fedora"@, machine) == Ok::<Seq<char>, Seq<char>>("aarch64"@)
            &&& !x86 && !arm ==> arch_spec("ubuntu"@, machine) is Err && arch_spec(
                "debian"@,
                machine,
            ) is Err && arch_spec("fedora"@, machine) is Err
            &&& host.len() > 0 ==> arch_spec("freebsd"@, machine) == Ok::<Seq<char>, Seq<char>>(
                host,
            )
            &&& host.len() == 0 ==> arch_spec("freebsd"@, machine) is Err
        }),
{
    lemma_os_names();
    reveal_strlit("amd64");
    reveal_strlit("x86_64");
    reveal_strlit("arm64");
    reveal_strlit("aarch64");
    assert("amd64"@.len() == 5 && "arm64"@.len() == 5 && "x86_64"@.len() == 6);
    assert("aarch64"@.len() == 7 && "amd64"@[1] == 'm' && "arm64"@[1] == 'r');
}

/// The image that a disk gets is the one that was fetched: it is fetched from the address of
/// the image to the place of the image, unless it is there, and what is written to the disk is
/// read from that very place. A compressed raw image is unpacked onto the disk, the other kind
/// is converted.
pub proof fn law_fetched_image_is_written(
    os: Seq<char>,
    version: Seq<char>,
    disk: Seq<char>,
    machine: Seq<char>,
    files: Snapshot,
    arch: Seq<char>,
    file: Seq<char>,
    url: Seq<char>,
)
    requires
        is_supported_os(os),
        arch_spec(os, machine) == Ok::<Seq<char>, Seq<char>>(arch),
        image_spec(os, version, arch) == Ok::<(Seq<char>, Seq<char>), Seq<char>>((file, url)),
        file.len() > 0 && file[0] != '/',
    ensures
        ({
            let result = image_plan(os, version, disk, machine, files);
            let plan = result->Ok_0;
            let image = "/var/priosun/images/"@ + file;
            &&& result is Ok
            &&& !snapshot::exists_at(files, image) ==> plan.steps.len() == 2 && plan::is_call(
                plan.steps[0].action,
                "fetch"@,
                seq!["-o"@, image, url],
            )
            &&& snapshot::exists_at(files, image) ==> plan.steps.len() == 1
            &&& os != "freebsd"@ ==> plan::is_call(
                plan.steps.last().action,
                "qemu-img"@,
                seq!["convert"@, "-O"@, "raw"@, image, disk],
            )
            &&& os == "freebsd"@ ==> (plan.steps.last().action matches Act::RunTo {
                command,
                path,
            } && path == disk && command.program == "unxz"@ && command.args =~= seq![
                "-T0"@,
                "-c"@,
                image,
            ])
        }),
{
    lemma_os_names();
    reveal_strlit("/var/priosun/images");
    reveal_strlit("/var/priosun/images/");
    assert("/var/priosun/images"@.push('/') =~= "/var/priosun/images/"@);
}

// ---------------------------------------------------------------------------
// Creating a virtual machine
// ---------------------------------------------------------------------------

/// What a new virtual machine is to be.
pub struct VmCreateOptions<'a> {
    pub disk: &'a str,
    pub os: &'a str,
    pub version: Option<&'a str>,
    pub cloud_init: bool,
    pub ssh_key: Option<&'a str>,
    pub iso: Option<&'a str>,
    pub vnc_port: Option<u16>,
    pub vnc_bind: &'a str,
    pub vnc_width: u32,
    pub vnc_height: u32,
    pub tpm: bool,
    pub cpus: u32,
    pub memory: &'a str,
}

/// A property with its value, as characters.
pub type PropertyModel = (Seq<char>, Seq<char>);

/// Properties with their values, as characters.
pub open spec fn property_views(list: Seq<(String, String)>) -> Seq<PropertyModel> {
    list.map_values(|item: (String, String)| (item.0@, item.1@))
}

/// The properties that a new virtual machine is recorded with.
pub open spec fn recorded(options: VmCreateOptions<'_>, iso: Seq<char>, mac: Seq<char>) -> Seq<
    PropertyModel,
> {
    let list = Seq::empty().push(("os"@, options.os@));
    let list = if options.iso is Some {
        list.push(("iso"@, iso))
    } else {
        list
    };
    let list = match options.vnc_port {
        Some(port) => list.push(("vnc_port"@, text::decimal_spec(port as nat))),
        None => list,
    };
    list.push(("vnc_bind"@, text::trim_spec(options.vnc_bind@))).push(
        ("vnc_width"@, text::decimal_spec(options.vnc_width as nat)),
    ).push(("vnc_height"@, text::decimal_spec(options.vnc_height as nat))).push(
        ("tpm"@, text::bool_spec(options.tpm)),
    ).push(("cpus"@, text::decimal_spec(options.cpus as nat))).push(
        ("memory"@, text::trim_spec(options.memory@)),
    ).push(("dependencies"@, ""@)).push(("enabled"@, "true"@)).push(
        (mac_property(VIRTIO_NET_INTERFACE@), mac),
    )
}

fn note(list: Vec<(String, String)>, name: &str, value: String) -> (longer: Vec<(String, String)>)
    ensures
        property_views(longer@) == property_views(list@).push((name@, value@)),
{
    let mut longer = list;
    longer.push((owned(name), value));
    proof {
        assert(property_views(longer@) =~= property_views(list@).push((name@, value@)));
    }
    longer
}

fn record(options: &VmCreateOptions<'_>, iso: &str, mac: &str) -> (list: Vec<(String, String)>)
    ensures
        property_views(list@) == recorded(*options, iso@, mac@),
{
    let list: Vec<(String, String)> = Vec::new();
    proof {
        assert(property_views(list@) =~= Seq::empty());
    }
    let list = note(list, "os", owned(options.os));
    let list = if options.iso.is_some() {
        note(list, "iso", owned(iso))
    } else {
        list
    };
    let list = match options.vnc_port {
        Some(port) => note(list, "vnc_port", decimal(port as u64)),
        None => list,
    };
    let list = note(list, "vnc_bind", trim(options.vnc_bind));
    let list = note(list, "vnc_width", decimal(options.vnc_width as u64));
    let list = note(list, "vnc_height", decimal(options.vnc_height as u64));
    let list = note(list, "tpm", bool_text(options.tpm));
    let list = note(list, "cpus", decimal(options.cpus as u64));
    let list = note(list, "memory", trim(options.memory));
    let list = note(list, "dependencies", owned(""));
    let list = note(list, "enabled", owned("true"));
    note(list, interface_mac_property(VIRTIO_NET_INTERFACE).as_str(), owned(mac))
}

/// The plan that records properties.
pub open spec fn record_plan(start: PlanModel, dataset: Seq<char>, list: Seq<PropertyModel>) -> PlanModel
    decreases list.len(),
{
    if list.len() == 0 {
        start
    } else {
        record_plan(start, dataset, list.drop_last()).run(
            metadata::set_spec(dataset, list.last().0, list.last().1),
        )
    }
}

fn record_all(start: Plan, dataset: &str, list: &Vec<(String, String)>) -> (plan: Plan)
    ensures
        plan@ == record_plan(start@, dataset@, property_views(list@)),
{
    let mut plan = start;
    let mut index: usize = 0;
    proof {
        assert(property_views(list@).take(0) =~= Seq::empty());
    }
    while index < list.len()
        invariant
            index <= list@.len(),
            plan@ == record_plan(start@, dataset@, property_views(list@).take(index as int)),
        decreases list@.len() - index,
    {
        proof {
            let step = property_views(list@).take(index + 1);
            assert(step.drop_last() =~= property_views(list@).take(index as int));
            assert(step.last() == (list@[index as int].0@, list@[index as int].1@));
        }
        plan = plan.run(metadata::set(dataset, list[index].0.as_str(), list[index].1.as_str()));
        index += 1;
    }
    proof {
        assert(property_views(list@).take(index as int) =~= property_views(list@));
    }
    plan
}

/// Why a virtual machine cannot be created, if it cannot. The host's version is what
/// `uname -r` printed; `iso` is the real path of the installation image, or why there is
/// none.
pub open spec fn create_obstacle(
    name: Seq<char>,
    options: VmCreateOptions<'_>,
    host: Seq<char>,
    iso: Result<Seq<char>, Seq<char>>,
    files: Snapshot,
) -> Option<Seq<char>> {
    if !is_supported_os(options.os@) {
        Some("unsupported VM operating system: "@ + options.os@)
    } else if options.cloud_init && version_spec(options.os@, text::str_view(options.version), host) is Err {
        Some(version_spec(options.os@, text::str_view(options.version), host)->Err_0)
    } else if !jail::is_component(name) {
        Some(invalid_name(name))
    } else if snapshot::exists_at(files, vm_path(name)) {
        Some("VM already exists: "@ + name)
    } else if snapshot::exists_at(files, jail::jail_path(name)) {
        Some("a jail or jail configuration with this name already exists: "@ + name)
    } else if options.cpus == 0 || options.cpus > 256 {
        Some("VM CPU count must be between 1 and 256"@)
    } else if text::trim_spec(options.memory@).len() == 0 {
        Some("VM memory must not be empty"@)
    } else if options.vnc_port == Some(0u16) || options.vnc_width == 0 || options.vnc_height == 0 {
        Some("VNC port, width, and height must be greater than zero"@)
    } else if options.vnc_port is Some && text::trim_spec(options.vnc_bind@).len() == 0 {
        Some("VNC bind address must not be empty"@)
    } else {
        match (options.iso, iso) {
            (Some(path), Err(reason)) => Some(
                error::with_cause("ISO does not exist: "@ + path@, reason),
            ),
            _ => None,
        }
    }
}

/// A path or the reason why there is none, as characters.
pub open spec fn path_view(path: Result<String, String>) -> Result<Seq<char>, Seq<char>> {
    match path {
        Ok(path) => Ok(path@),
        Err(reason) => Err(reason@),
    }
}

fn check_create(
    name: &str,
    options: &VmCreateOptions<'_>,
    host: &str,
    iso: &Result<String, String>,
    files: &Snapshot,
) -> (result: Result<(), Error>)
    ensures
        match result {
            Ok(_) => create_obstacle(name@, *options, host@, path_view(*iso), *files) is None,
            Err(error) => create_obstacle(name@, *options, host@, path_view(*iso), *files) == Some(
                error@,
            ),
        },
{
    if let Err(error) = validate_os(options.os) {
        return Err(error);
    }
    if options.cloud_init {
        if let Err(error) = cloud_image_version(options.os, options.version, host) {
            return Err(error);
        }
    }
    if let Err(error) = validate_name(name) {
        return Err(error);
    }
    if files.present(vm_root_path(name).as_str()) {
        return Err(Error::new(owned("VM already exists: ").concat(name)));
    }
    if files.present(jail::root_path(name).as_str()) {
        return Err(
            Error::new(
                owned("a jail or jail configuration with this name already exists: ").concat(name),
            ),
        );
    }
    if options.cpus == 0 || options.cpus > 256 {
        return Err(Error::new(owned("VM CPU count must be between 1 and 256")));
    }
    if blank(options.memory) {
        return Err(Error::new(owned("VM memory must not be empty")));
    }
    let no_port = match options.vnc_port {
        Some(port) => port == 0,
        None => false,
    };
    if no_port || options.vnc_width == 0 || options.vnc_height == 0 {
        return Err(
            Error::new(owned("VNC port, width, and height must be greater than zero")),
        );
    }
    if options.vnc_port.is_some() && blank(options.vnc_bind) {
        return Err(Error::new(owned("VNC bind address must not be empty")));
    }
    match (options.iso, iso) {
        (Some(path), Err(reason)) => Err(
            caused(owned("ISO does not exist: ").concat(path), reason.as_str()),
        ),
        _ => Ok(()),
    }
}

/// The real path of the installation image, where there is one.
pub open spec fn iso_path(iso: Result<Seq<char>, Seq<char>>) -> Seq<char> {
    match iso {
        Ok(path) => path,
        Err(_) => ""@,
    }
}

/// How a virtual machine is created: its datasets, and what is recorded of it.
pub open spec fn create_spec(
    name: Seq<char>,
    options: VmCreateOptions<'_>,
    config: Config,
    host: Seq<char>,
    iso: Result<Seq<char>, Seq<char>>,
    mac: Seq<char>,
    files: Snapshot,
) -> Result<PlanModel, Seq<char>> {
    match create_obstacle(name, options, host, iso, files) {
        Some(reason) => Err(reason),
        None => {
            let dataset = vm_dataset_spec(config, name);
            let made = plan::no_steps().run(
                plan::line("zfs"@).arg("create"@).arg("-p"@).arg(dataset),
            ).run(
                plan::line("zfs"@).arg("create"@).arg("-V"@).arg(options.disk@).arg(
                    disk_dataset_spec(config, name),
                ),
            );
            Ok(record_plan(made, dataset, recorded(options, iso_path(iso), mac)))
        },
    }
}

/// Plans to create a virtual machine. Its image and its seed volume follow, where it is
/// initialised from the cloud.
pub fn create(
    name: &str,
    options: &VmCreateOptions<'_>,
    config: &Config,
    host: &str,
    iso: &Result<String, String>,
    mac: &str,
    files: &Snapshot,
) -> (result: Result<Plan, Error>)
    ensures
        jail::plan_result(result) == create_spec(
            name@,
            *options,
            *config,
            host@,
            path_view(*iso),
            mac@,
            *files,
        ),
{
    if let Err(error) = check_create(name, options, host, iso, files) {
        return Err(error);
    }
    let real_iso = match iso {
        Ok(path) => owned(path.as_str()),
        Err(_) => owned(""),
    };
    let dataset = vm_dataset(name, config);
    let made = Plan::new().run(
        command("zfs").arg("create").arg("-p").arg(dataset.as_str()),
    ).run(
        command("zfs").arg("create").arg("-V").arg(options.disk).arg(
            disk_dataset(name, config).as_str(),
        ),
    );
    let properties = record(options, real_iso.as_str(), mac);
    Ok(record_all(made, dataset.as_str(), &properties))
}

/// A stage of creating a virtual machine.
#[derive(Debug, Clone, Copy, PartialEq, Eq, Structural)]
pub enum VmStage {
    /// The version of the host is asked for with `release_command`.
    HostVersion,
    /// What `create` plans.
    Machine,
    /// What `provision_cloud_image` plans, once the machine of the host is known from
    /// `machine_command`.
    Image,
    /// What `create_seed` plans.
    Seed,
}

/// The stages of creating a virtual machine. One that is initialised from the cloud gets an
/// image and a seed; only then the version of the host can count.
pub open spec fn create_stages_spec(options: VmCreateOptions<'_>) -> Seq<VmStage> {
    if !options.cloud_init {
        seq![VmStage::Machine]
    } else if is_supported_os(options.os@) && takes_host_version(
        options.os@,
        text::str_view(options.version),
    ) {
        seq![VmStage::HostVersion, VmStage::Machine, VmStage::Image, VmStage::Seed]
    } else {
        seq![VmStage::Machine, VmStage::Image, VmStage::Seed]
    }
}

/// The stages of creating a virtual machine, in their order. A stage that fails is the last.
pub fn create_stages(options: &VmCreateOptions<'_>) -> (stages: Vec<VmStage>)
    ensures
        stages@ == create_stages_spec(*options),
{
    let mut stages: Vec<VmStage> = Vec::new();
    if options.cloud_init && validate_os(options.os).is_ok() && needs_host_version(
        options.os,
        options.version,
    ) {
        stages.push(VmStage::HostVersion);
    }
    stages.push(VmStage::Machine);
    if options.cloud_init {
        stages.push(VmStage::Image);
        stages.push(VmStage::Seed);
    }
    proof {
        assert(stages@ =~= create_stages_spec(*options));
    }
    stages
}

/// The command that prints the version of the host.
pub fn release_command() -> (result: Command)
    ensures
        result@ == plan::line("uname"@).arg("-r"@),
{
    command("uname").arg("-r")
}

/// The command that prints what machine the host is.
pub fn machine_command() -> (result: Command)
    ensures
        result@ == plan::line("uname"@).arg("-m"@),
{
    command("uname").arg("-m")
}

/// The paths that decide whether a virtual machine can be created.
pub fn create_probes(name: &str) -> (paths: Vec<String>)
    ensures
        text::views(paths@) == seq![vm_path(name@), jail::jail_path(name@)],
{
    let mut paths: Vec<String> = Vec::new();
    paths.push(vm_root_path(name));
    paths.push(jail::root_path(name));
    proof {
        assert(text::views(paths@) =~= seq![vm_path(name@), jail::jail_path(name@)]);
    }
    paths
}

// ---------------------------------------------------------------------------
// The seed volume
// ---------------------------------------------------------------------------

/// How the user data of an Ubuntu machine begins.
pub const UBUNTU_USERS: &'static str = r#"#cloud-config
package_update: true
package_upgrade: true
users:
  - default
  - name: provision
    plain_text_passwd: "provision"
    lock_passwd: false
    groups: [adm, sudo]
    sudo: ["ALL=(ALL) NOPASSWD:ALL"]
    shell: /bin/bash
"#;

/// How the user data of a Debian machine begins.
pub const DEBIAN_USERS: &'static str = r#"#cloud-config
package_update: true
package_upgrade: true
users:
  - default
  - name: provision
    plain_text_passwd: provision
    lock_passwd: false
    groups: [sudo]
    sudo: ["ALL=(ALL) NOPASSWD:ALL"]
    shell: /bin/bash
"#;

/// How the user data of a Fedora machine begins.
pub const FEDORA_USERS: &'static str = r#"#cloud-config
package_update: true
package_upgrade: true
users:
  - default
  - name: provision
    plain_text_passwd: provision
    lock_passwd: false
    groups: [wheel]
    sudo: ["ALL=(ALL) NOPASSWD:ALL"]
    shell: /bin/bash
"#;

/// How the user data of a FreeBSD machine begins.
pub const FREEBSD_USERS: &'static str = r#"#cloud-config
users:
  - default
  - name: provision
    plain_text_passwd: "provision"
    lock_passwd: false
    groups: "wheel"
    shell: "/bin/sh"
"#;

/// What comes before the root password.
pub const BEFORE_PASSWORD: &'static str = r#"ssh_pwauth: true
chpasswd:
  list: |
    root:"#;

/// What comes behind the root password of an Ubuntu or Debian machine: its serial console
/// and its updates.
pub const GRUB_CONSOLE: &'static str = r#"
  expire: false
write_files:
  - path: /etc/default/grub.d/99-priosun-serial.cfg
    content: |
      GRUB_TERMINAL="serial"
      GRUB_SERIAL_COMMAND="serial --speed=115200 --unit=0 --word=8 --parity=no --stop=1"
      GRUB_CMDLINE_LINUX_DEFAULT="$GRUB_CMDLINE_LINUX_DEFAULT console=ttyS0,115200"
runcmd:
  - update-grub
  - systemctl enable --now serial-getty@ttyS0.service
power_state:
  mode: reboot
  message: Rebooting after package updates
  timeout: 30
"#;

/// What comes behind the root password of a Fedora machine: its serial console and its
/// updates.
pub const GRUBBY_CONSOLE: &'static str = r#"
  expire: false
runcmd:
  - grubby --update-kernel=ALL --args=console=ttyS0,115200
  - systemctl enable --now serial-getty@ttyS0.service
power_state:
  mode: reboot
  message: Rebooting after package updates
  timeout: 30
"#;

/// How the user data of a FreeBSD machine ends.
pub const FREEBSD_SETTINGS: &'static str = r#"ssh_pwauth: true
chpasswd:
  expire: false
  users:
    - name: root
      password: "RANDOM"
write_files:
  - path: /etc/rc.conf.d/kld
    append: true
    content: |
      kld_list="mac_do"
  - path: /etc/sysctl.conf
    append: true
    content: |
      security.mac.do.rules=gid=0:any
"#;

/// The script that checks whether its input is YAML.
pub const YAML_CHECK: &'static str = r#"
local yaml = require("lyaml")
local content = io.read("*a")
assert(yaml.load(content))
"#;

/// The lines that give the provision user a key to log in with.
pub open spec fn keys_text(key: Option<Seq<char>>) -> Seq<char> {
    match key {
        Some(key) => "    ssh_authorized_keys:\n      - '"@ + text::replace_spec(key, "'"@, "''"@)
            + "'\n"@,
        None => ""@,
    }
}

fn authorized_keys(key: Option<&str>) -> (result: String)
    ensures
        result@ == keys_text(text::str_view(key)),
{
    match key {
        Some(key) => {
            proof {
                reveal_strlit("'");
            }
            owned("    ssh_authorized_keys:\n      - '").concat(
                replace(key, "'", "''").as_str(),
            ).concat("'\n")
        },
        None => owned(""),
    }
}

/// What a new virtual machine is told about its users and settings.
pub open spec fn user_data_spec(os: Seq<char>, key: Option<Seq<char>>, password: Seq<char>) -> Option<
    Seq<char>,
> {
    let keys = keys_text(key);
    if os == "ubuntu"@ {
        Some(UBUNTU_USERS@ + keys + BEFORE_PASSWORD@ + password + GRUB_CONSOLE@)
    } else if os == "debian"@ {
        Some(DEBIAN_USERS@ + keys + BEFORE_PASSWORD@ + password + GRUB_CONSOLE@)
    } else if os == "fedora"@ {
        Some(FEDORA_USERS@ + keys + BEFORE_PASSWORD@ + password + GRUBBY_CONSOLE@)
    } else if os == "freebsd"@ {
        Some(FREEBSD_USERS@ + keys + FREEBSD_SETTINGS@)
    } else {
        None
    }
}

/// What a new virtual machine is told about its users and settings.
pub fn user_data(os: &str, key: Option<&str>, password: &str) -> (result: Option<String>)
    ensures
        text::optional_view(result) == user_data_spec(os@, text::str_view(key), password@),
{
    let keys = authorized_keys(key);
    if same(os, "ubuntu") {
        Some(
            owned(UBUNTU_USERS).concat(keys.as_str()).concat(BEFORE_PASSWORD).concat(
                password,
            ).concat(GRUB_CONSOLE),
        )
    } else if same(os, "debian") {
        Some(
            owned(DEBIAN_USERS).concat(keys.as_str()).concat(BEFORE_PASSWORD).concat(
                password,
            ).concat(GRUB_CONSOLE),
        )
    } else if same(os, "fedora") {
        Some(
            owned(FEDORA_USERS).concat(keys.as_str()).concat(BEFORE_PASSWORD).concat(
                password,
            ).concat(GRUBBY_CONSOLE),
        )
    } else if same(os, "freebsd") {
        Some(owned(FREEBSD_USERS).concat(keys.as_str()).concat(FREEBSD_SETTINGS))
    } else {
        None
    }
}

/// What is undone when the seed volume cannot be filled: it is unmounted.
pub open spec fn undo_mount(mountpoint: Seq<char>) -> Seq<Seq<Act>> {
    plan::no_recovery().push(plan::one(Act::Run(jail::umount_spec(mountpoint))))
}

fn undo_seed(mountpoint: &str) -> (recovery: Recovery)
    ensures
        recovery@ == undo_mount(mountpoint@),
{
    Recovery::new().also(Action::Run(jail::umount(mountpoint)))
}

/// The step that checks whether a file is YAML.
pub open spec fn yaml_plan(start: PlanModel, mountpoint: Seq<char>, path: Seq<char>) -> PlanModel {
    start.must_for_or(
        Act::RunFile {
            command: plan::line("/usr/libexec/flua"@).arg("-e"@).arg(YAML_CHECK@),
            path,
        },
        "invalid cloud-init YAML: "@ + path,
        undo_mount(mountpoint),
    )
}

fn validate_yaml(start: Plan, mountpoint: &str, path: &str) -> (plan: Plan)
    ensures
        plan@ == yaml_plan(start@, mountpoint@, path@),
{
    start.must_for_or(
        Action::RunFile {
            command: command("/usr/libexec/flua").arg("-e").arg(YAML_CHECK),
            path: owned(path),
        },
        owned("invalid cloud-init YAML: ").concat(path),
        undo_seed(mountpoint),
    )
}

/// How the seed volume of a virtual machine is made: a small file system with what the
/// machine is told, which is mounted only while it is written.
pub open spec fn seed_plan(
    name: Seq<char>,
    os: Seq<char>,
    key: Option<Seq<char>>,
    config: Config,
    password: Seq<char>,
) -> Result<PlanModel, Seq<char>> {
    if key matches Some(key) && !jail::is_key(key) {
        Err("SSH public key must be a single non-empty line"@)
    } else if !jail::is_component(name) {
        Err(invalid_name(name))
    } else {
        let dataset = seed_dataset_spec(config, name);
        let volume = device_spec(dataset);
        let mountpoint = vm_file(name, "seed"@);
        let meta = text::join_path_spec(mountpoint, "meta-data"@);
        let user = text::join_path_spec(mountpoint, "user-data"@);
        let mounted = plan::no_steps().run(
            plan::line("zfs"@).arg("create"@).arg("-V"@).arg("256M"@).arg(dataset),
        ).run(
            plan::line("newfs_msdos"@).arg("-F"@).arg("32"@).arg("-c"@).arg("4"@).arg("-L"@).arg(
                "cidata"@,
            ).arg(volume),
        ).must(Act::CreateDir(mountpoint)).run(jail::mount_spec("msdosfs"@, volume, mountpoint));
        let described = mounted.must_or(
            Act::Write {
                path: meta,
                text: "instance-id: "@ + name + "\nlocal-hostname: "@ + name + "\n"@,
            },
            undo_mount(mountpoint),
        );
        let told = match user_data_spec(os, key, password) {
            Some(data) => described.must_or(
                Act::Write { path: user, text: data },
                undo_mount(mountpoint),
            ),
            None => described,
        };
        let checked = yaml_plan(yaml_plan(told, mountpoint, meta), mountpoint, user);
        Ok(checked.run(jail::umount_spec(mountpoint)).must(Act::RemoveDir(mountpoint)))
    }
}

/// Plans to make the seed volume of a virtual machine.
pub fn create_seed(
    name: &str,
    os: &str,
    key: Option<&str>,
    config: &Config,
    password: &str,
) -> (result: Result<Plan, Error>)
    ensures
        jail::plan_result(result) == seed_plan(name@, os@, text::str_view(key), *config, password@),
{
    if let Some(key) = key {
        if !jail::valid_key(key) {
            return Err(
                Error::new(owned("SSH public key must be a single non-empty line")),
            );
        }
    }
    if let Err(error) = validate_name(name) {
        return Err(error);
    }
    let dataset = seed_dataset(name, config);
    let volume = device(dataset.as_str());
    let directory = join_path(vm_root_path(name).as_str(), "seed");
    let mountpoint = directory.as_str();
    let meta = join_path(mountpoint, "meta-data");
    let user = join_path(mountpoint, "user-data");
    let mounted = Plan::new().run(
        command("zfs").arg("create").arg("-V").arg("256M").arg(dataset.as_str()),
    ).run(
        command("newfs_msdos").arg("-F").arg("32").arg("-c").arg("4").arg("-L").arg("cidata").arg(
            volume.as_str(),
        ),
    ).must(Action::CreateDir(owned(mountpoint))).run(
        jail::mount("msdosfs", volume.as_str(), mountpoint),
    );
    let described = mounted.must_or(
        Action::Write {
            path: owned(meta.as_str()),
            text: owned("instance-id: ").concat(name).concat("\nlocal-hostname: ").concat(
                name,
            ).concat("\n"),
        },
        undo_seed(mountpoint),
    );
    let told = match user_data(os, key, password) {
        Some(data) => described.must_or(
            Action::Write { path: owned(user.as_str()), text: data },
            undo_seed(mountpoint),
        ),
        None => described,
    };
    let checked = validate_yaml(
        validate_yaml(told, mountpoint, meta.as_str()),
        mountpoint,
        user.as_str(),
    );
    Ok(checked.run(jail::umount(mountpoint)).must(Action::RemoveDir(owned(mountpoint))))
}

// ---------------------------------------------------------------------------
// What is recorded of a virtual machine
// ---------------------------------------------------------------------------

/// A virtual machine as it is recorded.
#[derive(Debug, Clone)]
pub struct VmConfig {
    pub name: String,
    pub disk: String,
    pub os: String,
    pub iso: Option<String>,
    pub vnc_port: Option<u16>,
    pub vnc_bind: String,
    pub vnc_width: u32,
    pub vnc_height: u32,
    pub tpm: bool,
    pub cpus: u32,
    pub memory: String,
    pub dependencies: Vec<String>,
    pub enabled: bool,
    /// The addresses of its interfaces, by their names.
    pub interface_macs: Vec<(String, String)>,
}

/// A virtual machine as it is recorded, as plain values.
pub struct VmModel {
    pub name: Seq<char>,
    pub disk: Seq<char>,
    pub os: Seq<char>,
    pub iso: Option<Seq<char>>,
    pub vnc_port: Option<u16>,
    pub vnc_bind: Seq<char>,
    pub vnc_width: u32,
    pub vnc_height: u32,
    pub tpm: bool,
    pub cpus: u32,
    pub memory: Seq<char>,
    pub dependencies: Seq<Seq<char>>,
    pub enabled: bool,
    pub interface_macs: Seq<PropertyModel>,
}

impl View for VmConfig {
    type V = VmModel;

    open spec fn view(&self) -> VmModel {
        VmModel {
            name: self.name@,
            disk: self.disk@,
            os: self.os@,
            iso: text::optional_view(self.iso),
            vnc_port: self.vnc_port,
            vnc_bind: self.vnc_bind@,
            vnc_width: self.vnc_width,
            vnc_height: self.vnc_height,
            tpm: self.tpm,
            cpus: self.cpus,
            memory: self.memory@,
            dependencies: text::views(self.dependencies@),
            enabled: self.enabled,
            interface_macs: property_views(self.interface_macs@),
        }
    }
}

/// The value of a property; of two with one name the later counts.
pub open spec fn value_of(list: Seq<PropertyModel>, name: Seq<char>) -> Option<Seq<char>>
    decreases list.len(),
{
    if list.len() == 0 {
        None
    } else if list.last().0 == name {
        Some(list.last().1)
    } else {
        value_of(list.drop_last(), name)
    }
}

fn lookup(list: &Vec<(String, String)>, name: &str) -> (value: Option<String>)
    ensures
        text::optional_view(value) == value_of(property_views(list@), name@),
{
    let mut index: usize = list.len();
    proof {
        assert(property_views(list@).take(index as int) =~= property_views(list@));
    }
    while index > 0
        invariant
            index <= list@.len(),
            value_of(property_views(list@), name@) == value_of(
                property_views(list@).take(index as int),
                name@,
            ),
        decreases index,
    {
        proof {
            let step = property_views(list@).take(index as int);
            assert(step.drop_last() =~= property_views(list@).take(index - 1));
            assert(step.last() == (list@[index - 1].0@, list@[index - 1].1@));
        }
        if same(list[index - 1].0.as_str(), name) {
            return Some(list[index - 1].1.clone());
        }
        index -= 1;
    }
    None
}

/// The value of a property that must be set.
pub open spec fn needed(dataset: Seq<char>, list: Seq<PropertyModel>, name: Seq<char>) -> Result<
    Seq<char>,
    Seq<char>,
> {
    match value_of(list, name) {
        Some(value) => Ok(value),
        None => Err(metadata::missing_message(dataset, name)),
    }
}

/// The number that a property must give.
pub open spec fn needed_number(
    dataset: Seq<char>,
    list: Seq<PropertyModel>,
    name: Seq<char>,
) -> Result<u32, Seq<char>> {
    match needed(dataset, list, name) {
        Err(error) => Err(error),
        Ok(value) => match text::number_spec(value, u32::MAX as nat) {
            Ok(number) => Ok(number as u32),
            Err(error) => Err(text::number_error_text(error)),
        },
    }
}

/// The port that a property may give.
pub open spec fn port_spec(list: Seq<PropertyModel>) -> Result<Option<u16>, Seq<char>> {
    match value_of(list, "vnc_port"@) {
        None => Ok(None),
        Some(value) => match text::number_spec(value, u16::MAX as nat) {
            Ok(number) => Ok(Some(number as u16)),
            Err(error) => Err(text::number_error_text(error)),
        },
    }
}

/// The list that a property may give.
pub open spec fn dependencies_spec(list: Seq<PropertyModel>) -> Seq<Seq<char>> {
    match value_of(list, "dependencies"@) {
        Some(value) => text::list_items(value),
        None => text::list_items(""@),
    }
}

/// A virtual machine, from the properties that are set.
pub open spec fn config_spec(name: Seq<char>, config: Config, list: Seq<PropertyModel>) -> Result<
    VmModel,
    Seq<char>,
> {
    let dataset = vm_dataset_spec(config, name);
    if !jail::is_component(name) {
        Err(invalid_name(name))
    } else {
        match needed(dataset, list, "os"@) {
            Err(error) => Err(error),
            Ok(os) => match port_spec(list) {
                Err(error) => Err(error),
                Ok(vnc_port) => match needed(dataset, list, "vnc_bind"@) {
                    Err(error) => Err(error),
                    Ok(vnc_bind) => match needed_number(dataset, list, "vnc_width"@) {
                        Err(error) => Err(error),
                        Ok(vnc_width) => match needed_number(dataset, list, "vnc_height"@) {
                            Err(error) => Err(error),
                            Ok(vnc_height) => match metadata::bool_spec(
                                "tpm"@,
                                value_of(list, "tpm"@),
                                false,
                            ) {
                                Err(error) => Err(error),
                                Ok(tpm) => match needed_number(dataset, list, "cpus"@) {
                                    Err(error) => Err(error),
                                    Ok(cpus) => match needed(dataset, list, "memory"@) {
                                        Err(error) => Err(error),
                                        Ok(memory) => match metadata::bool_spec(
                                            "enabled"@,
                                            value_of(list, "enabled"@),
                                            true,
                                        ) {
                                            Err(error) => Err(error),
                                            Ok(enabled) => Ok(
                                                VmModel {
                                                    name,
                                                    disk: disk_spec(config, name),
                                                    os,
                                                    iso: value_of(list, "iso"@),
                                                    vnc_port,
                                                    vnc_bind,
                                                    vnc_width,
                                                    vnc_height,
                                                    tpm,
                                                    cpus,
                                                    memory,
                                                    dependencies: dependencies_spec(list),
                                                    enabled,
                                                    interface_macs: macs_spec(list),
                                                },
                                            ),
                                        },
                                    },
                                },
                            },
                        },
                    },
                },
            },
        }
    }
}

/// The addresses of the interfaces, from the properties that are set.
pub open spec fn macs_spec(list: Seq<PropertyModel>) -> Seq<PropertyModel> {
    match value_of(list, mac_property(VIRTIO_NET_INTERFACE@)) {
        Some(mac) => Seq::empty().push((VIRTIO_NET_INTERFACE@, mac)),
        None => Seq::empty(),
    }
}

/// What a result holds, as plain values.
pub open spec fn vm_result(result: Result<VmConfig, Error>) -> Result<VmModel, Seq<char>> {
    match result {
        Ok(vm) => Ok(vm@),
        Err(error) => Err(error@),
    }
}

fn need(dataset: &str, list: &Vec<(String, String)>, name: &str) -> (result: Result<String, Error>)
    ensures
        error::text_outcome(result) == needed(dataset@, property_views(list@), name@),
{
    metadata::get_required(dataset, name, lookup(list, name))
}

fn need_number(dataset: &str, list: &Vec<(String, String)>, name: &str) -> (result: Result<
    u32,
    Error,
>)
    ensures
        error::outcome(result) == needed_number(dataset@, property_views(list@), name@),
{
    match need(dataset, list, name) {
        Err(error) => Err(error),
        Ok(value) => match parse_number(value.as_str(), 4294967295) {
            Ok(number) => Ok(number as u32),
            Err(error) => Err(Error::new(error.message())),
        },
    }
}

fn read_port(list: &Vec<(String, String)>) -> (result: Result<Option<u16>, Error>)
    ensures
        error::outcome(result) == port_spec(property_views(list@)),
{
    match lookup(list, "vnc_port") {
        None => Ok(None),
        Some(value) => match parse_number(value.as_str(), 65535) {
            Ok(number) => Ok(Some(number as u16)),
            Err(error) => Err(Error::new(error.message())),
        },
    }
}

/// Reads a virtual machine from the properties that are set.
pub fn read_config(name: &str, config: &Config, list: &Vec<(String, String)>) -> (result: Result<
    VmConfig,
    Error,
>)
    ensures
        vm_result(result) == config_spec(name@, *config, property_views(list@)),
{
    if let Err(error) = validate_name(name) {
        return Err(error);
    }
    let own = vm_dataset(name, config);
    let dataset = own.as_str();
    let os = match need(dataset, list, "os") {
        Ok(os) => os,
        Err(error) => {
            return Err(error);
        },
    };
    let vnc_port = match read_port(list) {
        Ok(vnc_port) => vnc_port,
        Err(error) => {
            return Err(error);
        },
    };
    let vnc_bind = match need(dataset, list, "vnc_bind") {
        Ok(vnc_bind) => vnc_bind,
        Err(error) => {
            return Err(error);
        },
    };
    let vnc_width: u32 = match need_number(dataset, list, "vnc_width") {
        Ok(vnc_width) => vnc_width,
        Err(error) => {
            return Err(error);
        },
    };
    let vnc_height: u32 = match need_number(dataset, list, "vnc_height") {
        Ok(vnc_height) => vnc_height,
        Err(error) => {
            return Err(error);
        },
    };
    let tpm = match metadata::get_bool("tpm", &lookup(list, "tpm"), false) {
        Ok(tpm) => tpm,
        Err(error) => {
            return Err(error);
        },
    };
    let cpus: u32 = match need_number(dataset, list, "cpus") {
        Ok(cpus) => cpus,
        Err(error) => {
            return Err(error);
        },
    };
    let memory = match need(dataset, list, "memory") {
        Ok(memory) => memory,
        Err(error) => {
            return Err(error);
        },
    };
    let dependencies = dependency::dependency_list(&lookup(list, "dependencies"));
    let enabled = match metadata::get_bool("enabled", &lookup(list, "enabled"), true) {
        Ok(enabled) => enabled,
        Err(error) => {
            return Err(error);
        },
    };
    let mut interface_macs: Vec<(String, String)> = Vec::new();
    proof {
        assert(property_views(interface_macs@) =~= Seq::empty());
    }
    if let Some(mac) = lookup(list, interface_mac_property(VIRTIO_NET_INTERFACE).as_str()) {
        interface_macs = note(interface_macs, VIRTIO_NET_INTERFACE, mac);
    }
    Ok(
        VmConfig {
            name: owned(name),
            disk: disk_path(name, config),
            os,
            iso: lookup(list, "iso"),
            vnc_port,
            vnc_bind,
            vnc_width,
            vnc_height,
            tpm,
            cpus,
            memory,
            dependencies,
            enabled,
            interface_macs,
        },
    )
}

proof fn lemma_property_names()
    ensures
        "os"@.len() == 2 && "iso"@.len() == 3 && "tpm"@.len() == 3,
        "vnc_port"@.len() == 8 && "vnc_bind"@.len() == 8 && "vnc_width"@.len() == 9,
        "vnc_height"@.len() == 10 && "cpus"@.len() == 4 && "memory"@.len() == 6,
        "dependencies"@.len() == 12 && "enabled"@.len() == 7,
        mac_property(VIRTIO_NET_INTERFACE@).len() == 15,
        "iso"@ != "tpm"@ && "vnc_port"@ != "vnc_bind"@,
{
    reveal_strlit("os");
    reveal_strlit("iso");
    reveal_strlit("tpm");
    reveal_strlit("vnc_port");
    reveal_strlit("vnc_bind");
    reveal_strlit("vnc_width");
    reveal_strlit("vnc_height");
    reveal_strlit("cpus");
    reveal_strlit("memory");
    reveal_strlit("dependencies");
    reveal_strlit("enabled");
    reveal_strlit("mac_");
    reveal_strlit("virtio-net0");
    assert("iso"@[0] == 'i' && "tpm"@[0] == 't');
    assert("vnc_port"@[4] == 'p' && "vnc_bind"@[4] == 'b');
}

proof fn lemma_pushed_value(list: Seq<PropertyModel>, name: Seq<char>, value: Seq<char>)
    ensures
        value_of(list.push((name, value)), name) == Some(value),
        forall|other: Seq<char>|
            other != name ==> #[trigger] value_of(list.push((name, value)), other) == value_of(
                list,
                other,
            ),
{
    assert(list.push((name, value)).drop_last() =~= list);
}

proof fn lemma_recorded(options: VmCreateOptions<'_>, iso: Seq<char>, mac: Seq<char>)
    ensures
        ({
            let list = recorded(options, iso, mac);
            &&& value_of(list, "os"@) == Some(options.os@)
            &&& value_of(list, "iso"@) == if options.iso is Some {
                Some(iso)
            } else {
                None
            }
            &&& value_of(list, "vnc_port"@) == match options.vnc_port {
                Some(port) => Some(text::decimal_spec(port as nat)),
                None => None,
            }
            &&& value_of(list, "vnc_bind"@) == Some(text::trim_spec(options.vnc_bind@))
            &&& value_of(list, "vnc_width"@) == Some(text::decimal_spec(options.vnc_width as nat))
            &&& value_of(list, "vnc_height"@) == Some(
                text::decimal_spec(options.vnc_height as nat),
            )
            &&& value_of(list, "tpm"@) == Some(text::bool_spec(options.tpm))
            &&& value_of(list, "cpus"@) == Some(text::decimal_spec(options.cpus as nat))
            &&& value_of(list, "memory"@) == Some(text::trim_spec(options.memory@))
            &&& value_of(list, "dependencies"@) == Some(""@)
            &&& value_of(list, "enabled"@) == Some("true"@)
            &&& value_of(list, mac_property(VIRTIO_NET_INTERFACE@)) == Some(mac)
        }),
{
    lemma_property_names();
    let none: Seq<PropertyModel> = Seq::empty();
    let a = none.push(("os"@, options.os@));
    lemma_pushed_value(none, "os"@, options.os@);
    let b = if options.iso is Some {
        lemma_pushed_value(a, "iso"@, iso);
        a.push(("iso"@, iso))
    } else {
        a
    };
    let c = match options.vnc_port {
        Some(port) => {
            lemma_pushed_value(b, "vnc_port"@, text::decimal_spec(port as nat));
            b.push(("vnc_port"@, text::decimal_spec(port as nat)))
        },
        None => b,
    };
    let d = c.push(("vnc_bind"@, text::trim_spec(options.vnc_bind@)));
    lemma_pushed_value(c, "vnc_bind"@, text::trim_spec(options.vnc_bind@));
    let e = d.push(("vnc_width"@, text::decimal_spec(options.vnc_width as nat)));
    lemma_pushed_value(d, "vnc_width"@, text::decimal_spec(options.vnc_width as nat));
    let f = e.push(("vnc_height"@, text::decimal_spec(options.vnc_height as nat)));
    lemma_pushed_value(e, "vnc_height"@, text::decimal_spec(options.vnc_height as nat));
    let g = f.push(("tpm"@, text::bool_spec(options.tpm)));
    lemma_pushed_value(f, "tpm"@, text::bool_spec(options.tpm));
    let h = g.push(("cpus"@, text::decimal_spec(options.cpus as nat)));
    lemma_pushed_value(g, "cpus"@, text::decimal_spec(options.cpus as nat));
    let i = h.push(("memory"@, text::trim_spec(options.memory@)));
    lemma_pushed_value(h, "memory"@, text::trim_spec(options.memory@));
    let j = i.push(("dependencies"@, ""@));
    lemma_pushed_value(i, "dependencies"@, ""@);
    let k = j.push(("enabled"@, "true"@));
    lemma_pushed_value(j, "enabled"@, "true"@);
    lemma_pushed_value(k, mac_property(VIRTIO_NET_INTERFACE@), mac);
}

/// A virtual machine is read as it was created: what is recorded of it gives back what
/// was asked for.
pub proof fn law_created_vm_reads_back(
    name: Seq<char>,
    options: VmCreateOptions<'_>,
    config: Config,
    iso: Seq<char>,
    mac: Seq<char>,
)
    requires
        jail::is_component(name),
    ensures
        config_spec(name, config, recorded(options, iso, mac)) == Ok::<VmModel, Seq<char>>(
            VmModel {
                name,
                disk: disk_spec(config, name),
                os: options.os@,
                iso: if options.iso is Some {
                    Some(iso)
                } else {
                    None
                },
                vnc_port: options.vnc_port,
                vnc_bind: text::trim_spec(options.vnc_bind@),
                vnc_width: options.vnc_width,
                vnc_height: options.vnc_height,
                tpm: options.tpm,
                cpus: options.cpus,
                memory: text::trim_spec(options.memory@),
                dependencies: Seq::empty(),
                enabled: true,
                interface_macs: Seq::empty().push((VIRTIO_NET_INTERFACE@, mac)),
            },
        ),
{
    lemma_recorded(options, iso, mac);
    text::law_decimal_reads_back(options.vnc_width as nat, u32::MAX as nat);
    text::law_decimal_reads_back(options.vnc_height as nat, u32::MAX as nat);
    text::law_decimal_reads_back(options.cpus as nat, u32::MAX as nat);
    if let Some(port) = options.vnc_port {
        text::law_decimal_reads_back(port as nat, u16::MAX as nat);
    }
    text::law_bool_reads_back(options.tpm);
    text::law_bool_reads_back(true);
    text::law_list_reads_back(seq![]);
    reveal_strlit("");
    assert(""@ =~= text::join_spec(seq![], ","@));
    assert(dependencies_spec(recorded(options, iso, mac)) =~= Seq::empty());
}

/// A virtual machine has its places by its name alone: its directory, its dataset in the pool,
/// its disk below that and its seed beside it. The disk is the device of its dataset.
pub proof fn law_vms_have_their_places(name: Seq<char>, config: Config)
    requires
        jail::is_component(name),
    ensures
        vm_path(name) == "/var/priosun/vm/"@ + name,
        vm_dataset_spec(config, name) == config.zfs_pool@ + ("/var/priosun/vm/"@ + name),
        disk_dataset_spec(config, name) == config.zfs_pool@ + ("/var/priosun/vm/"@ + name)
            + "/disk.vol"@,
        disk_spec(config, name) == "/dev/zvol/"@ + disk_dataset_spec(config, name),
        seed_dataset_spec(config, name) == config.zfs_pool@ + ("/var/priosun/seed/"@ + name),
        vm_file(name, "bhyve.pid"@) == "/var/priosun/vm/"@ + name + "/bhyve.pid"@,
        vm_file(name, "tpm.pid"@) == "/var/priosun/vm/"@ + name + "/tpm.pid"@,
        vm_file(name, "tap"@) == "/var/priosun/vm/"@ + name + "/tap"@,
        vm_file(name, "seed"@) == "/var/priosun/vm/"@ + name + "/seed"@,
{
    reveal_strlit("/var/priosun/vm");
    reveal_strlit("/var/priosun/vm/");
    reveal_strlit("/var/priosun/seed");
    reveal_strlit("/var/priosun/seed/");
    reveal_strlit("/");
    reveal_strlit("bhyve.pid");
    reveal_strlit("/bhyve.pid");
    reveal_strlit("tpm.pid");
    reveal_strlit("/tpm.pid");
    reveal_strlit("tap");
    reveal_strlit("/tap");
    reveal_strlit("seed");
    reveal_strlit("/seed");
    assert("/var/priosun/vm"@.push('/') =~= "/var/priosun/vm/"@);
    let place = "/var/priosun/vm/"@ + name;
    assert(vm_path(name) == place);
    assert(place.last() == name.last());
    assert(name.contains(name.last()));
    assert(place.push('/') + "bhyve.pid"@ =~= place + "/bhyve.pid"@);
    assert(place.push('/') + "tpm.pid"@ =~= place + "/tpm.pid"@);
    assert(place.push('/') + "tap"@ =~= place + "/tap"@);
    assert(place.push('/') + "seed"@ =~= place + "/seed"@);
    assert(config.zfs_pool@ + "/var/priosun/seed"@ + "/"@ + name =~= config.zfs_pool@ + (
    "/var/priosun/seed/"@ + name));
}

proof fn lemma_record_plan(start: PlanModel, dataset: Seq<char>, list: Seq<PropertyModel>)
    ensures
        forall|program: Seq<char>, args: Seq<Seq<char>>|
            start.calls(program, args) ==> #[trigger] record_plan(start, dataset, list).calls(
                program,
                args,
            ),
        forall|i: int|
            0 <= i < list.len() ==> record_plan(start, dataset, list).calls(
                "zfs"@,
                seq!["set"@, "priosun:"@ + (#[trigger] list[i]).0 + "="@ + list[i].1, dataset],
            ),
    decreases list.len(),
{
    broadcast use plan::group_plan_contents;

    if list.len() > 0 {
        let front = list.drop_last();
        lemma_record_plan(start, dataset, front);
        metadata::law_properties_are_told_apart(
            dataset,
            list.last().0,
            list.last().0,
            list.last().1,
        );
        assert forall|i: int| 0 <= i < list.len() implies record_plan(start, dataset, list).calls(
            "zfs"@,
            seq!["set"@, "priosun:"@ + (#[trigger] list[i]).0 + "="@ + list[i].1, dataset],
        ) by {
            if i < front.len() {
                assert(front[i] == list[i]);
            }
        }
    }
}

/// A virtual machine that is created gets a dataset and a disk of the size that was asked for,
/// and everything that is to be remembered of it is recorded on its dataset.
#[verifier::spinoff_prover]
#[verifier::rlimit(40)]
pub proof fn law_created_vm_is_recorded(
    name: Seq<char>,
    options: VmCreateOptions<'_>,
    config: Config,
    host: Seq<char>,
    iso: Result<Seq<char>, Seq<char>>,
    mac: Seq<char>,
    files: Snapshot,
    plan: PlanModel,
)
    requires
        create_spec(name, options, config, host, iso, mac, files) == Ok::<PlanModel, Seq<char>>(plan),
    ensures
        ({
            let dataset = config.zfs_pool@ + ("/var/priosun/vm/"@ + name);
            let list = recorded(options, iso_path(iso), mac);
            &&& plan.calls("zfs"@, seq!["create"@, "-p"@, dataset])
            &&& plan.calls(
                "zfs"@,
                seq!["create"@, "-V"@, options.disk@, dataset + "/disk.vol"@],
            )
            &&& forall|i: int|
                0 <= i < list.len() ==> plan.calls(
                    "zfs"@,
                    seq!["set"@, "priosun:"@ + (#[trigger] list[i]).0 + "="@ + list[i].1, dataset],
                )
            &&& value_of(list, "cpus"@) == Some(text::decimal_spec(options.cpus as nat))
            &&& value_of(list, "memory"@) == Some(text::trim_spec(options.memory@))
            &&& value_of(list, "os"@) == Some(options.os@)
            &&& value_of(list, "mac_virtio-net0"@) == Some(mac)
            &&& value_of(list, "enabled"@) == Some("true"@)
            &&& value_of(list, "dependencies"@) == Some(""@)
        }),
{
    broadcast use plan::group_plan_contents;

    law_vms_have_their_places(name, config);
    let dataset = vm_dataset_spec(config, name);
    let made = plan::no_steps().run(
        plan::line("zfs"@).arg("create"@).arg("-p"@).arg(dataset),
    ).run(
        plan::line("zfs"@).arg("create"@).arg("-V"@).arg(options.disk@).arg(
            disk_dataset_spec(config, name),
        ),
    );
    lemma_record_plan(made, dataset, recorded(options, iso_path(iso), mac));
    lemma_recorded(options, iso_path(iso), mac);
    reveal_strlit("mac_");
    reveal_strlit("virtio-net0");
    reveal_strlit("mac_virtio-net0");
    assert("mac_"@ + "virtio-net0"@ =~= "mac_virtio-net0"@);
}

/// A virtual machine can be created exactly if its system is supported, in a version that has
/// an image where cloud-init is to set it up; if neither a machine nor a jail has its name; if
/// it has between one and 256 CPUs, some memory and a screen of some size with a port and an
/// address if it has one; and if the installation image that it names is there.
pub proof fn law_good_vms_are_created(
    name: Seq<char>,
    options: VmCreateOptions<'_>,
    config: Config,
    host: Seq<char>,
    iso: Result<Seq<char>, Seq<char>>,
    mac: Seq<char>,
    files: Snapshot,
)
    ensures
        create_spec(name, options, config, host, iso, mac, files) is Ok <==> {
            &&& is_supported_os(options.os@)
            &&& options.cloud_init ==> version_spec(
                options.os@,
                text::str_view(options.version),
                host,
            ) is Ok
            &&& jail::is_component(name)
            &&& !snapshot::exists_at(files, "/var/priosun/vm/"@ + name)
            &&& !snapshot::exists_at(files, "/var/priosun/jail/"@ + name)
            &&& 1 <= options.cpus <= 256
            &&& text::trim_spec(options.memory@).len() > 0
            &&& options.vnc_width > 0 && options.vnc_height > 0
            &&& options.vnc_port matches Some(port) ==> port > 0 && text::trim_spec(
                options.vnc_bind@,
            ).len() > 0
            &&& options.iso is Some ==> iso is Ok
        },
{
    if jail::is_component(name) {
        law_vms_have_their_places(name, config);
        jail::law_jails_have_their_places(name, config);
    }
}

/// A made-up address is six bytes of two digits with colons between them: the digits give the
/// bytes back, but for the two bits of the first that make the address a local one.
pub proof fn law_made_up_address_holds_its_bytes(bytes: Seq<u8>, i: int)
    requires
        bytes.len() == 6,
        0 <= i < 6,
    ensures
        ({
            let address = mac_spec(bytes);
            let value = text::hex_value(address[3 * i]) * 16 + text::hex_value(address[3 * i + 1]);
            &&& address.len() == 17
            &&& i > 0 ==> value == bytes[i] && address[3 * i - 1] == ':'
            &&& i == 0 ==> value / 4 == bytes[0] / 4 && value % 4 == 2
        }),
{
    reveal_strlit(":");
    let first = local_byte(bytes[0]) as nat;
    assert(first < 256 && first / 4 == bytes[0] / 4 && first % 4 == 2);
    lemma_byte(first);
    lemma_byte(bytes[1] as nat);
    lemma_byte(bytes[2] as nat);
    lemma_byte(bytes[3] as nat);
    lemma_byte(bytes[4] as nat);
    lemma_byte(bytes[5] as nat);
    let address = mac_spec(bytes);
    assert(address.len() == 17);
    let byte = if i == 0 {
        first
    } else {
        bytes[i] as nat
    };
    assert(address[3 * i] == text::hex_spec(byte, 2)[0]);
    assert(address[3 * i + 1] == text::hex_spec(byte, 2)[1]);
}

proof fn lemma_byte(n: nat)
    requires
        n < 256,
    ensures
        text::hex_spec(n, 2).len() == 2,
        text::hex_value(text::hex_spec(n, 2)[0]) * 16 + text::hex_value(text::hex_spec(n, 2)[1])
            == n,
{
    reveal_with_fuel(text::hex_spec, 3);
    assert(text::hex_spec(n, 2)[1] == text::hex_char(n % 16));
    assert(text::hex_spec(n, 2)[0] == text::hex_char(n / 16 % 16));
}

/// Every machine that cloud-init sets up has a user for provisioning, who may log in with a
/// password and with the key that was given, which stands in quotation marks of which those in
/// the key are no end. Linux machines have the root password that was made up for them, and
/// those of Ubuntu and Debian become root in another group than those of Fedora.
#[verifier::spinoff_prover]
#[verifier::rlimit(40)]
pub proof fn law_user_data_sets_the_machine_up(
    os: Seq<char>,
    key: Option<Seq<char>>,
    password: Seq<char>,
)
    requires
        is_supported_os(os),
    ensures
        ({
            let result = user_data_spec(os, key, password);
            let data = result->Some_0;
            let entry = "    ssh_authorized_keys:\n      - '"@ + text::replace_spec(
                key->Some_0,
                "'"@,
                "''"@,
            ) + "'\n"@;
            &&& result is Some
            &&& text::starts_with_spec(data, "#cloud-config\n"@)
            &&& text::contains_spec(data, "  - name: provision\n"@)
            &&& text::contains_spec(data, "\nssh_pwauth: true\n"@)
            &&& key is Some ==> text::contains_spec(data, entry)
            &&& os != "freebsd"@ ==> text::contains_spec(
                data,
                "chpasswd:\n  list: |\n    root:"@ + password + "\n  expire: false\n"@,
            )
            &&& os == "ubuntu"@ ==> text::contains_spec(data, "    groups: [adm, sudo]\n"@)
            &&& os == "debian"@ ==> text::contains_spec(data, "    groups: [sudo]\n"@)
            &&& os == "fedora"@ ==> text::contains_spec(data, "    groups: [wheel]\n"@)
            &&& os == "freebsd"@ ==> text::contains_spec(data, "    groups: \"wheel\"\n"@)
            &&& os == "ubuntu"@ || os == "debian"@ ==> text::contains_spec(
                data,
                "  - update-grub\n"@,
            )
            &&& os == "fedora"@ ==> text::contains_spec(
                data,
                "  - grubby --update-kernel=ALL --args=console=ttyS0,115200\n"@,
            )
        }),
{
    broadcast use text::group_texts_within;

    lemma_os_names();
    let none: Seq<char> = Seq::empty();
    reveal_strlit("#cloud-config\n");
    reveal_strlit("  - name: provision\n");
    reveal_strlit("\nssh_pwauth: true\n");
    reveal_strlit("ssh_pwauth: true\n");
    reveal_strlit("\n");
    reveal_strlit("chpasswd:\n  list: |\n    root:");
    reveal_strlit("\n  expire: false\n");
    reveal_strlit("    groups: [adm, sudo]\n");
    reveal_strlit("    groups: [sudo]\n");
    reveal_strlit("    groups: [wheel]\n");
    reveal_strlit("    groups: \"wheel\"\n");
    reveal_strlit("  - update-grub\n");
    reveal_strlit("  - grubby --update-kernel=ALL --args=console=ttyS0,115200\n");
    reveal_strlit("'\n");
    reveal_strlit("");
    reveal_strlit("    ssh_authorized_keys:\n      - '");
    let keys = keys_text(key);
    assert(key is Some ==> keys.skip(keys.len() - 1) =~= "\n"@);
    if os == "ubuntu"@ {
        reveal_strlit("#cloud-config\npackage_update: true\npackage_upgrade: true\nusers:\n  - default\n  - name: provision\n    plain_text_passwd: \"provision\"\n    lock_passwd: false\n    groups: [adm, sudo]\n    sudo: [\"ALL=(ALL) NOPASSWD:ALL\"]\n    shell: /bin/bash\n");
        reveal_strlit("\n  expire: false\nwrite_files:\n  - path: /etc/default/grub.d/99-priosun-serial.cfg\n    content: |\n      GRUB_TERMINAL=\"serial\"\n      GRUB_SERIAL_COMMAND=\"serial --speed=115200 --unit=0 --word=8 --parity=no --stop=1\"\n      GRUB_CMDLINE_LINUX_DEFAULT=\"$GRUB_CMDLINE_LINUX_DEFAULT console=ttyS0,115200\"\nruncmd:\n  - update-grub\n  - systemctl enable --now serial-getty@ttyS0.service\npower_state:\n  mode: reboot\n  message: Rebooting after package updates\n  timeout: 30\n");
        assert(UBUNTU_USERS@.take(14) =~= "#cloud-config\n"@);
        assert(UBUNTU_USERS@.skip(76).take(20) =~= "  - name: provision\n"@);
        assert(text::starts_with_spec(UBUNTU_USERS@.skip(76), "  - name: provision\n"@));
        assert(UBUNTU_USERS@.skip(154).take(24) =~= "    groups: [adm, sudo]\n"@);
        assert(text::starts_with_spec(UBUNTU_USERS@.skip(154), "    groups: [adm, sudo]\n"@));
        assert(UBUNTU_USERS@.skip(235) =~= "\n"@);
        assert(GRUB_CONSOLE@.skip(307).take(16) =~= "  - update-grub\n"@);
        assert(text::starts_with_spec(GRUB_CONSOLE@.skip(307), "  - update-grub\n"@));
        reveal_strlit("ssh_pwauth: true\nchpasswd:\n  list: |\n    root:");
        assert(BEFORE_PASSWORD@.take(17) =~= "ssh_pwauth: true\n"@);
        assert(BEFORE_PASSWORD@.skip(17) =~= "chpasswd:\n  list: |\n    root:"@);
        assert(GRUB_CONSOLE@.take(17) =~= "\n  expire: false\n"@);
        let front = UBUNTU_USERS@ + keys;
        assert(front.skip(front.len() - 1) =~= "\n"@);
        text::lemma_contains_across(front, none, BEFORE_PASSWORD@, "\n"@, "ssh_pwauth: true\n"@);
        assert(front + none + BEFORE_PASSWORD@ =~= front + BEFORE_PASSWORD@);
        assert("\n"@ + none + "ssh_pwauth: true\n"@ =~= "\nssh_pwauth: true\n"@);
        text::lemma_contains_across(
            front + BEFORE_PASSWORD@,
            password,
            GRUB_CONSOLE@,
            "chpasswd:\n  list: |\n    root:"@,
            "\n  expire: false\n"@,
        );
    } else if os == "debian"@ {
        reveal_strlit("#cloud-config\npackage_update: true\npackage_upgrade: true\nusers:\n  - default\n  - name: provision\n    plain_text_passwd: provision\n    lock_passwd: false\n    groups: [sudo]\n    sudo: [\"ALL=(ALL) NOPASSWD:ALL\"]\n    shell: /bin/bash\n");
        reveal_strlit("\n  expire: false\nwrite_files:\n  - path: /etc/default/grub.d/99-priosun-serial.cfg\n    content: |\n      GRUB_TERMINAL=\"serial\"\n      GRUB_SERIAL_COMMAND=\"serial --speed=115200 --unit=0 --word=8 --parity=no --stop=1\"\n      GRUB_CMDLINE_LINUX_DEFAULT=\"$GRUB_CMDLINE_LINUX_DEFAULT console=ttyS0,115200\"\nruncmd:\n  - update-grub\n  - systemctl enable --now serial-getty@ttyS0.service\npower_state:\n  mode: reboot\n  message: Rebooting after package updates\n  timeout: 30\n");
        assert(DEBIAN_USERS@.take(14) =~= "#cloud-config\n"@);
        assert(DEBIAN_USERS@.skip(76).take(20) =~= "  - name: provision\n"@);
        assert(text::starts_with_spec(DEBIAN_USERS@.skip(76), "  - name: provision\n"@));
        assert(DEBIAN_USERS@.skip(152).take(19) =~= "    groups: [sudo]\n"@);
        assert(text::starts_with_spec(DEBIAN_USERS@.skip(152), "    groups: [sudo]\n"@));
        assert(DEBIAN_USERS@.skip(228) =~= "\n"@);
        assert(GRUB_CONSOLE@.skip(307).take(16) =~= "  - update-grub\n"@);
        assert(text::starts_with_spec(GRUB_CONSOLE@.skip(307), "  - update-grub\n"@));
        reveal_strlit("ssh_pwauth: true\nchpasswd:\n  list: |\n    root:");
        assert(BEFORE_PASSWORD@.take(17) =~= "ssh_pwauth: true\n"@);
        assert(BEFORE_PASSWORD@.skip(17) =~= "chpasswd:\n  list: |\n    root:"@);
        assert(GRUB_CONSOLE@.take(17) =~= "\n  expire: false\n"@);
        let front = DEBIAN_USERS@ + keys;
        assert(front.skip(front.len() - 1) =~= "\n"@);
        text::lemma_contains_across(front, none, BEFORE_PASSWORD@, "\n"@, "ssh_pwauth: true\n"@);
        assert(front + none + BEFORE_PASSWORD@ =~= front + BEFORE_PASSWORD@);
        assert("\n"@ + none + "ssh_pwauth: true\n"@ =~= "\nssh_pwauth: true\n"@);
        text::lemma_contains_across(
            front + BEFORE_PASSWORD@,
            password,
            GRUB_CONSOLE@,
            "chpasswd:\n  list: |\n    root:"@,
            "\n  expire: false\n"@,
        );
    } else if os == "fedora"@ {
        reveal_strlit("#cloud-config\npackage_update: true\npackage_upgrade: true\nusers:\n  - default\n  - name: provision\n    plain_text_passwd: provision\n    lock_passwd: false\n    groups: [wheel]\n    sudo: [\"ALL=(ALL) NOPASSWD:ALL\"]\n    shell: /bin/bash\n");
        reveal_strlit("\n  expire: false\nruncmd:\n  - grubby --update-kernel=ALL --args=console=ttyS0,115200\n  - systemctl enable --now serial-getty@ttyS0.service\npower_state:\n  mode: reboot\n  message: Rebooting after package updates\n  timeout: 30\n");
        assert(FEDORA_USERS@.take(14) =~= "#cloud-config\n"@);
        assert(FEDORA_USERS@.skip(76).take(20) =~= "  - name: provision\n"@);
        assert(text::starts_with_spec(FEDORA_USERS@.skip(76), "  - name: provision\n"@));
        assert(FEDORA_USERS@.skip(152).take(20) =~= "    groups: [wheel]\n"@);
        assert(text::starts_with_spec(FEDORA_USERS@.skip(152), "    groups: [wheel]\n"@));
        assert(FEDORA_USERS@.skip(229) =~= "\n"@);
        assert(GRUBBY_CONSOLE@.skip(25).take(59) =~= "  - grubby --update-kernel=ALL --args=console=ttyS0,115200\n"@);
        assert(text::starts_with_spec(GRUBBY_CONSOLE@.skip(25), "  - grubby --update-kernel=ALL --args=console=ttyS0,115200\n"@));
        reveal_strlit("ssh_pwauth: true\nchpasswd:\n  list: |\n    root:");
        assert(BEFORE_PASSWORD@.take(17) =~= "ssh_pwauth: true\n"@);
        assert(BEFORE_PASSWORD@.skip(17) =~= "chpasswd:\n  list: |\n    root:"@);
        assert(GRUBBY_CONSOLE@.take(17) =~= "\n  expire: false\n"@);
        let front = FEDORA_USERS@ + keys;
        assert(front.skip(front.len() - 1) =~= "\n"@);
        text::lemma_contains_across(front, none, BEFORE_PASSWORD@, "\n"@, "ssh_pwauth: true\n"@);
        assert(front + none + BEFORE_PASSWORD@ =~= front + BEFORE_PASSWORD@);
        assert("\n"@ + none + "ssh_pwauth: true\n"@ =~= "\nssh_pwauth: true\n"@);
        text::lemma_contains_across(
            front + BEFORE_PASSWORD@,
            password,
            GRUBBY_CONSOLE@,
            "chpasswd:\n  list: |\n    root:"@,
            "\n  expire: false\n"@,
        );
    } else if os == "freebsd"@ {
        reveal_strlit("#cloud-config\nusers:\n  - default\n  - name: provision\n    plain_text_passwd: \"provision\"\n    lock_passwd: false\n    groups: \"wheel\"\n    shell: \"/bin/sh\"\n");
        reveal_strlit("ssh_pwauth: true\nchpasswd:\n  expire: false\n  users:\n    - name: root\n      password: \"RANDOM\"\nwrite_files:\n  - path: /etc/rc.conf.d/kld\n    append: true\n    content: |\n      kld_list=\"mac_do\"\n  - path: /etc/sysctl.conf\n    append: true\n    content: |\n      security.mac.do.rules=gid=0:any\n");
        assert(FREEBSD_USERS@.take(14) =~= "#cloud-config\n"@);
        assert(FREEBSD_USERS@.skip(33).take(20) =~= "  - name: provision\n"@);
        assert(text::starts_with_spec(FREEBSD_USERS@.skip(33), "  - name: provision\n"@));
        assert(FREEBSD_USERS@.skip(111).take(20) =~= "    groups: \"wheel\"\n"@);
        assert(text::starts_with_spec(FREEBSD_USERS@.skip(111), "    groups: \"wheel\"\n"@));
        assert(FREEBSD_USERS@.skip(151) =~= "\n"@);
        assert(FREEBSD_SETTINGS@.take(17) =~= "ssh_pwauth: true\n"@);
        let front = FREEBSD_USERS@ + keys;
        assert(front.skip(front.len() - 1) =~= "\n"@);
        text::lemma_contains_across(front, none, FREEBSD_SETTINGS@, "\n"@, "ssh_pwauth: true\n"@);
        assert(front + none + FREEBSD_SETTINGS@ =~= front + FREEBSD_SETTINGS@);
        assert("\n"@ + none + "ssh_pwauth: true\n"@ =~= "\nssh_pwauth: true\n"@);
    }
}

/// The seed of a machine is a volume that cloud-init finds by its label; it holds the name of
/// the machine and what the machine is told, and it is mounted only while that is written and
/// checked.
#[verifier::spinoff_prover]
#[verifier::rlimit(40)]
pub proof fn law_seed_holds_the_user_data(
    name: Seq<char>,
    os: Seq<char>,
    key: Option<Seq<char>>,
    config: Config,
    password: Seq<char>,
)
    requires
        jail::is_component(name),
        is_supported_os(os),
        key matches Some(key) ==> jail::is_key(key),
    ensures
        ({
            let result = seed_plan(name, os, key, config, password);
            let plan = result->Ok_0;
            let dataset = config.zfs_pool@ + ("/var/priosun/seed/"@ + name);
            let volume = "/dev/zvol/"@ + dataset;
            let place = "/var/priosun/vm/"@ + name + "/seed"@;
            let last = plan.steps.len() - 1;
            &&& result is Ok
            &&& plan::is_call(
                plan.steps[0].action,
                "zfs"@,
                seq!["create"@, "-V"@, "256M"@, dataset],
            )
            &&& plan::is_call(
                plan.steps[1].action,
                "newfs_msdos"@,
                seq!["-F"@, "32"@, "-c"@, "4"@, "-L"@, "cidata"@, volume],
            )
            &&& plan.steps[2].action == Act::CreateDir(place)
            &&& plan::is_call(
                plan.steps[3].action,
                "mount"@,
                seq!["-t"@, "msdosfs"@, volume, place],
            )
            &&& plan.steps[4].action == (Act::Write {
                path: place + "/meta-data"@,
                text: "instance-id: "@ + name + "\nlocal-hostname: "@ + name + "\n"@,
            })
            &&& plan.steps[5].action == (Act::Write {
                path: place + "/user-data"@,
                text: user_data_spec(os, key, password)->Some_0,
            })
            &&& plan.steps[6].action is RunFile && plan.steps[6].action->RunFile_path == place
                + "/meta-data"@
            &&& plan.steps[7].action is RunFile && plan.steps[7].action->RunFile_path == place
                + "/user-data"@
            &&& last == 9
            &&& plan::is_call(plan.steps[8].action, "umount"@, seq![place])
            &&& plan.steps[9].action == Act::RemoveDir(place)
            &&& forall|i: int|
                4 <= i < 8 ==> jail::recovers(
                    (#[trigger] plan.steps[i]).recovery,
                    Act::Run(jail::umount_spec(place)),
                )
        }),
{
    law_vms_have_their_places(name, config);
    reveal_strlit("meta-data");
    reveal_strlit("/meta-data");
    reveal_strlit("user-data");
    reveal_strlit("/user-data");
    reveal_strlit("/seed");
    let place = "/var/priosun/vm/"@ + name + "/seed"@;
    assert(place.last() == 'd');
    assert(place.push('/') + "meta-data"@ =~= place + "/meta-data"@);
    assert(place.push('/') + "user-data"@ =~= place + "/user-data"@);
    let plan = seed_plan(name, os, key, config, password)->Ok_0;
    let undo = undo_mount(place);
    assert(undo[0][0] == Act::Run(jail::umount_spec(place)));
    assert(plan.steps[4].recovery == undo && plan.steps[5].recovery == undo);
    assert(plan.steps[6].recovery == undo && plan.steps[7].recovery == undo);
}

/// A seed is refused exactly if the key is no single line or the name no component.
pub proof fn law_seed_needs_a_good_key(
    name: Seq<char>,
    os: Seq<char>,
    key: Option<Seq<char>>,
    config: Config,
    password: Seq<char>,
)
    ensures
        seed_plan(name, os, key, config, password) is Ok <==> jail::is_component(name) && (key matches Some(
            key,
        ) ==> !key.contains('\n') && !key.contains('\r') && text::trim_spec(key).len() > 0),
{
}

/// The properties that are recorded of a virtual machine.
pub open spec fn recorded_names() -> Seq<Seq<char>> {
    seq![
        "os"@,
        "iso"@,
        "vnc_port"@,
        "vnc_bind"@,
        "vnc_width"@,
        "vnc_height"@,
        "tpm"@,
        "cpus"@,
        "memory"@,
        "dependencies"@,
        "enabled"@,
        mac_property(VIRTIO_NET_INTERFACE@),
    ]
}

/// The names of the properties that a virtual machine is read from.
pub fn property_names() -> (names: Vec<String>)
    ensures
        text::views(names@) == recorded_names(),
{
    let mut names: Vec<String> = Vec::new();
    names.push(owned("os"));
    names.push(owned("iso"));
    names.push(owned("vnc_port"));
    names.push(owned("vnc_bind"));
    names.push(owned("vnc_width"));
    names.push(owned("vnc_height"));
    names.push(owned("tpm"));
    names.push(owned("cpus"));
    names.push(owned("memory"));
    names.push(owned("dependencies"));
    names.push(owned("enabled"));
    names.push(interface_mac_property(VIRTIO_NET_INTERFACE));
    proof {
        assert(text::views(names@) =~= recorded_names());
    }
    names
}

/// Plans to record what a virtual machine depends on, if that leaves no dependency missing
/// and no cycle.
pub fn set_dependencies(
    name: &str,
    dependencies: Vec<String>,
    config: &Config,
    stored: &Vec<Stored>,
) -> (result: Result<Plan, Error>)
    ensures
        jail::is_component(name@) ==> jail::stores_dependencies(
            result,
            vm_dataset_spec(*config, name@),
            name@,
            text::views(dependencies@),
            stored@,
        ),
        !jail::is_component(name@) ==> (result matches Err(error) && if dependency::is_valid(
            dependency::stored_graph(stored@).insert(name@, text::views(dependencies@)),
        ) {
            error@ == invalid_name(name@)
        } else {
            dependency::is_verdict(
                dependency::stored_graph(stored@).insert(name@, text::views(dependencies@)),
                Err(error),
            )
        }),
{
    if let Err(error) = dependency::validate(name, &dependencies, stored) {
        return Err(error);
    }
    if let Err(error) = validate_name(name) {
        return Err(error);
    }
    Ok(
        Plan::new().run(
            metadata::set(
                vm_dataset(name, config).as_str(),
                "dependencies",
                join(&dependencies, ",").as_str(),
            ),
        ),
    )
}

/// Plans to record whether a virtual machine is started with the daemon.
pub fn set_enabled(name: &str, enabled: bool, config: &Config) -> (result: Result<Plan, Error>)
    ensures
        jail::plan_result(result) == if jail::is_component(name@) {
            Ok::<PlanModel, Seq<char>>(
                jail::enable_plan(vm_dataset_spec(*config, name@), enabled),
            )
        } else {
            Err(invalid_name(name@))
        },
{
    if let Err(error) = validate_name(name) {
        return Err(error);
    }
    Ok(
        Plan::new().run(
            metadata::set(
                vm_dataset(name, config).as_str(),
                "enabled",
                bool_text(enabled).as_str(),
            ),
        ),
    )
}

// ---------------------------------------------------------------------------
// Starting a virtual machine
// ---------------------------------------------------------------------------

/// Begins to start a virtual machine after everything that it depends on.
pub fn start(name: &str) -> (launch: Launch)
    ensures
        launch@ == launch::begin(ResourceKind::Vm, name@, false),
{
    Launch::new(ResourceKind::Vm, name, false)
}

/// Begins to start a virtual machine, with its seed volume, after everything that it
/// depends on.
pub fn start_with_seed(name: &str) -> (launch: Launch)
    ensures
        launch@ == launch::begin(ResourceKind::Vm, name@, true),
{
    Launch::new(ResourceKind::Vm, name, true)
}

/// The directory of the sockets of TPM emulators.
pub const TPM_BASE: &'static str = "/var/run/swtpm";

/// The socket of the TPM emulator of a virtual machine.
pub open spec fn tpm_socket_spec(name: Seq<char>) -> Seq<char> {
    text::join_path_spec(TPM_BASE@, name)
}

/// The socket of the TPM emulator of a virtual machine.
pub fn tpm_socket_path(name: &str) -> (path: String)
    ensures
        path@ == tpm_socket_spec(name@),
{
    join_path(TPM_BASE, name)
}

/// The shell command that starts a TPM emulator.
pub open spec fn tpm_script(name: Seq<char>) -> Seq<char> {
    "exec swtpm socket --tpmstate dir="@ + TPM_BASE@ + " --tpm2 --ctrl type=unixio,path="@
        + tpm_socket_spec(name)
}

/// The first part of starting a virtual machine: checks, and its TPM emulator.
pub open spec fn prepare_spec(vm: VmModel, running: bool, files: Snapshot) -> Result<
    PlanModel,
    Seq<char>,
> {
    if !is_supported_os(vm.os) {
        Err("unsupported VM operating system: "@ + vm.os)
    } else if running {
        Err("VM is already running: "@ + vm.name)
    } else if !vm.tpm {
        Ok(plan::no_steps())
    } else if !jail::is_component(vm.name) {
        Err(invalid_name(vm.name))
    } else if snapshot::exists_at(files, tpm_socket_spec(vm.name)) {
        Err("TPM socket already exists: "@ + tpm_socket_spec(vm.name))
    } else {
        Ok(
            plan::no_steps().must_for(
                Act::TpmStart { name: vm.name, script: tpm_script(vm.name) },
                "failed to start swtpm"@,
            ),
        )
    }
}

/// Plans the first part of starting a virtual machine. An interface is to be created next.
pub fn start_prepare(vm: &VmConfig, running: bool, files: &Snapshot) -> (result: Result<
    Plan,
    Error,
>)
    ensures
        jail::plan_result(result) == prepare_spec(vm@, running, *files),
{
    if let Err(error) = validate_os(vm.os.as_str()) {
        return Err(error);
    }
    let name = vm.name.as_str();
    if running {
        return Err(Error::new(owned("VM is already running: ").concat(name)));
    }
    if !vm.tpm {
        return Ok(Plan::new());
    }
    if let Err(error) = validate_name(name) {
        return Err(error);
    }
    let socket = tpm_socket_path(name);
    if files.present(socket.as_str()) {
        return Err(Error::new(owned("TPM socket already exists: ").concat(socket.as_str())));
    }
    let script = owned("exec swtpm socket --tpmstate dir=").concat(TPM_BASE).concat(
        " --tpm2 --ctrl type=unixio,path=",
    ).concat(socket.as_str());
    Ok(
        Plan::new().must_for(
            Action::TpmStart { name: owned(name), script },
            owned("failed to start swtpm"),
        ),
    )
}

/// What is done when no interface can be created.
pub open spec fn abandon_spec(vm: VmModel) -> PlanModel {
    if vm.tpm {
        plan::no_steps().may(Act::TpmStop(vm.name))
    } else {
        plan::no_steps()
    }
}

/// Plans what is done when no interface can be created: the TPM emulator is stopped.
pub fn start_abandon(vm: &VmConfig) -> (plan: Plan)
    ensures
        plan@ == abandon_spec(vm@),
{
    if vm.tpm {
        Plan::new().may(Action::TpmStop(owned(vm.name.as_str())))
    } else {
        Plan::new()
    }
}

/// A stage of starting a virtual machine.
#[derive(Debug, Clone, Copy, PartialEq, Eq, Structural)]
pub enum StartStage {
    /// What `start_prepare` plans.
    Prepare,
    /// An interface is created.
    Interface,
    /// What `start_abandon` plans.
    Abandon,
    /// An address is made up.
    Address,
    /// It is looked up whether the seed exists.
    Seed,
    /// What `start_inner` plans.
    Machine,
    /// The machine is watched in the background; at its end, what `after_exit` plans is done.
    Watch,
    /// The machine runs.
    Started,
    /// The machine does not run.
    Failed,
}

/// Where the start of a virtual machine stands, and why it fails if it does.
pub struct StartModel {
    pub stage: StartStage,
    pub failure: Option<Seq<char>>,
}

/// What follows a stage that went well. An address is made up only where none is recorded,
/// and the seed is looked up only where it is to be used.
pub open spec fn after_success(vm: VmModel, use_seed: bool, stage: StartStage) -> StartStage {
    match stage {
        StartStage::Prepare => StartStage::Interface,
        StartStage::Interface => if value_of(vm.interface_macs, VIRTIO_NET_INTERFACE@) is None {
            StartStage::Address
        } else if use_seed {
            StartStage::Seed
        } else {
            StartStage::Machine
        },
        StartStage::Address => if use_seed {
            StartStage::Seed
        } else {
            StartStage::Machine
        },
        StartStage::Seed => StartStage::Machine,
        StartStage::Machine => StartStage::Watch,
        StartStage::Watch => StartStage::Started,
        StartStage::Started => StartStage::Started,
        StartStage::Abandon => StartStage::Failed,
        StartStage::Failed => StartStage::Failed,
    }
}

/// How the start of a virtual machine goes on. Where no interface can be created, what was
/// prepared is abandoned; whatever comes of that, the reason stays that there is none. A seed
/// that cannot be looked up counts as missing.
pub open spec fn start_step(
    vm: VmModel,
    use_seed: bool,
    now: StartModel,
    outcome: Result<(), Seq<char>>,
) -> StartModel {
    match (now.stage, outcome) {
        (StartStage::Interface, Err(reason)) => StartModel {
            stage: StartStage::Abandon,
            failure: Some(reason),
        },
        (StartStage::Prepare, Err(reason)) => StartModel {
            stage: StartStage::Failed,
            failure: Some(reason),
        },
        (StartStage::Address, Err(reason)) => StartModel {
            stage: StartStage::Failed,
            failure: Some(reason),
        },
        (StartStage::Machine, Err(reason)) => StartModel {
            stage: StartStage::Failed,
            failure: Some(reason),
        },
        _ => StartModel { stage: after_success(vm, use_seed, now.stage), failure: now.failure },
    }
}

/// The beginning of the start of a virtual machine.
pub open spec fn start_begun() -> StartModel {
    StartModel { stage: StartStage::Prepare, failure: None }
}

/// The start of a virtual machine, stage by stage.
#[derive(Debug)]
pub struct Starting {
    pub stage: StartStage,
    pub failure: Option<Error>,
}

impl View for Starting {
    type V = StartModel;

    open spec fn view(&self) -> StartModel {
        StartModel {
            stage: self.stage,
            failure: match self.failure {
                Some(error) => Some(error@),
                None => None,
            },
        }
    }
}

impl Starting {
    /// Begins the start of a virtual machine.
    pub fn new() -> (starting: Starting)
        ensures
            starting@ == start_begun(),
    {
        Starting { stage: StartStage::Prepare, failure: None }
    }

    /// Goes on from how a stage went.
    pub fn next(self, vm: &VmConfig, use_seed: bool, outcome: Result<(), Error>) -> (starting:
        Starting)
        ensures
            starting@ == start_step(vm@, use_seed, self@, error::outcome(outcome)),
    {
        if let Err(error) = outcome {
            match self.stage {
                StartStage::Interface => {
                    return Starting { stage: StartStage::Abandon, failure: Some(error) };
                },
                StartStage::Prepare | StartStage::Address | StartStage::Machine => {
                    return Starting { stage: StartStage::Failed, failure: Some(error) };
                },
                _ => {},
            }
        }
        let stage = match self.stage {
            StartStage::Prepare => StartStage::Interface,
            StartStage::Interface => if lookup(&vm.interface_macs, VIRTIO_NET_INTERFACE).is_none() {
                StartStage::Address
            } else if use_seed {
                StartStage::Seed
            } else {
                StartStage::Machine
            },
            StartStage::Address => if use_seed {
                StartStage::Seed
            } else {
                StartStage::Machine
            },
            StartStage::Seed => StartStage::Machine,
            StartStage::Machine => StartStage::Watch,
            StartStage::Watch => StartStage::Started,
            StartStage::Started => StartStage::Started,
            StartStage::Abandon => StartStage::Failed,
            StartStage::Failed => StartStage::Failed,
        };
        Starting { stage, failure: self.failure }
    }
}

/// Where the start of a virtual machine stands after these outcomes.
pub open spec fn start_after(
    vm: VmModel,
    use_seed: bool,
    outcomes: Seq<Result<(), Seq<char>>>,
) -> StartModel
    decreases outcomes.len(),
{
    if outcomes.len() == 0 {
        start_begun()
    } else {
        start_step(
            vm,
            use_seed,
            start_after(vm, use_seed, outcomes.drop_last()),
            outcomes.last(),
        )
    }
}

/// How many stages are still to come at most.
spec fn stages_left(stage: StartStage) -> int {
    match stage {
        StartStage::Prepare => 6,
        StartStage::Interface => 5,
        StartStage::Address => 4,
        StartStage::Seed => 3,
        StartStage::Machine => 2,
        StartStage::Watch => 1,
        StartStage::Abandon => 1,
        _ => 0,
    }
}

/// Whether the start of a virtual machine can stand there after these outcomes.
spec fn is_course(vm: VmModel, use_seed: bool, outcomes: Seq<Result<(), Seq<char>>>) -> bool {
    let now = start_after(vm, use_seed, outcomes);
    let stage = now.stage;
    let begun = outcomes.len() > 0 && outcomes[0] is Ok;
    let attached = begun && outcomes.len() > 1 && outcomes[1] is Ok;
    &&& stages_left(stage) == 0 || stages_left(stage) + outcomes.len() <= 6
    &&& now.failure is Some <==> stage == StartStage::Failed || stage == StartStage::Abandon
    &&& stage == StartStage::Prepare <==> outcomes.len() == 0
    &&& stage == StartStage::Interface <==> outcomes.len() == 1 && begun
    &&& stage == StartStage::Abandon <==> outcomes.len() == 2 && begun && outcomes[1] is Err
    &&& stage == StartStage::Address || stage == StartStage::Seed || stage == StartStage::Machine
        || stage == StartStage::Watch || stage == StartStage::Started ==> attached
    &&& begun && outcomes.len() > 1 && outcomes[1] is Err ==> now.failure == Some(
        outcomes[1]->Err_0,
    )
}

proof fn lemma_course(vm: VmModel, use_seed: bool, outcomes: Seq<Result<(), Seq<char>>>)
    ensures
        is_course(vm, use_seed, outcomes),
    decreases outcomes.len(),
{
    if outcomes.len() > 0 {
        let earlier = outcomes.drop_last();
        lemma_course(vm, use_seed, earlier);
        assert(forall|i: int| 0 <= i < earlier.len() ==> earlier[i] == outcomes[i]);
        assert(outcomes.last() == outcomes[outcomes.len() - 1]);
    }
}

/// The start of a virtual machine is decided after six outcomes at the latest, and it has a
/// reason exactly if it fails or is about to. The machine is started only once it is prepared
/// and has an interface; without an interface the start is abandoned and fails for that reason.
pub proof fn law_start_is_decided(
    vm: VmModel,
    use_seed: bool,
    outcomes: Seq<Result<(), Seq<char>>>,
)
    ensures
        ({
            let now = start_after(vm, use_seed, outcomes);
            &&& outcomes.len() >= 6 ==> now.stage == StartStage::Started || now.stage
                == StartStage::Failed
            &&& now.failure is Some <==> now.stage == StartStage::Failed || now.stage
                == StartStage::Abandon
            &&& now.stage == StartStage::Machine || now.stage == StartStage::Started
                ==> outcomes.len() > 1 && outcomes[0] is Ok && outcomes[1] is Ok
            &&& outcomes.len() > 1 && outcomes[0] is Ok && outcomes[1] is Err ==> now.failure
                == Some(outcomes[1]->Err_0) && now.stage == if outcomes.len() == 2 {
                StartStage::Abandon
            } else {
                StartStage::Failed
            }
        }),
{
    lemma_course(vm, use_seed, outcomes);
}

/// How bhyve is called for a virtual machine: `disk` is what stands in its fourth slot, if
/// anything, and `firmware` what it boots from.
pub open spec fn vm_command_spec(
    vm: VmModel,
    tap: Seq<char>,
    mac: Seq<char>,
    disk: Option<Seq<char>>,
    firmware: Option<Seq<char>>,
) -> CommandLine {
    let line = plan::line("bhyve"@).arg("-c"@).arg(text::decimal_spec(vm.cpus as nat)).arg("-m"@).arg(
        vm.memory,
    ).arg("-A"@).arg("-H"@).arg("-P"@).arg("-s"@).arg("0,hostbridge"@).arg("-s"@).arg(
        "3,nvme,"@ + vm.disk,
    ).arg("-s"@).arg("2,virtio-net,"@ + tap + ",mac="@ + mac).arg("-s"@).arg("31,lpc"@).arg(
        "-l"@,
    ).arg("com1,stdio"@);
    let line = match disk {
        Some(disk) => line.arg("-s"@).arg(disk),
        None => line,
    };
    let line = match vm.vnc_port {
        Some(port) => line.arg("-s"@).arg(
            "29,fbuf,tcp="@ + vm.vnc_bind + ":"@ + text::decimal_spec(port as nat) + ",w="@
                + text::decimal_spec(vm.vnc_width as nat) + ",h="@ + text::decimal_spec(
                vm.vnc_height as nat,
            ),
        ),
        None => line,
    };
    let line = if vm.tpm {
        line.arg("-s"@).arg("31,lpc,tpm,path="@ + tpm_socket_spec(vm.name))
    } else {
        line
    };
    let line = match firmware {
        Some(firmware) => line.arg("-l"@).arg("bootrom,"@ + firmware),
        None => line,
    };
    line.arg(vm.name)
}

fn vm_command(
    vm: &VmConfig,
    tap: &str,
    mac: &str,
    disk: Option<String>,
    firmware: Option<String>,
) -> (result: Command)
    ensures
        result@ == vm_command_spec(
            vm@,
            tap@,
            mac@,
            text::optional_view(disk),
            text::optional_view(firmware),
        ),
{
    let line = command("bhyve").arg("-c").arg(decimal(vm.cpus as u64).as_str()).arg("-m").arg(
        vm.memory.as_str(),
    ).arg("-A").arg("-H").arg("-P").arg("-s").arg("0,hostbridge").arg("-s").arg(
        owned("3,nvme,").concat(vm.disk.as_str()).as_str(),
    ).arg("-s").arg(
        owned("2,virtio-net,").concat(tap).concat(",mac=").concat(mac).as_str(),
    ).arg("-s").arg("31,lpc").arg("-l").arg("com1,stdio");
    let line = match disk {
        Some(disk) => line.arg("-s").arg(disk.as_str()),
        None => line,
    };
    let line = match vm.vnc_port {
        Some(port) => {
            let screen = owned("29,fbuf,tcp=").concat(vm.vnc_bind.as_str()).concat(":").concat(
                decimal(port as u64).as_str(),
            ).concat(",w=").concat(decimal(vm.vnc_width as u64).as_str()).concat(",h=").concat(
                decimal(vm.vnc_height as u64).as_str(),
            );
            line.arg("-s").arg(screen.as_str())
        },
        None => line,
    };
    let line = if vm.tpm {
        line.arg("-s").arg(
            owned("31,lpc,tpm,path=").concat(
                tpm_socket_path(vm.name.as_str()).as_str(),
            ).as_str(),
        )
    } else {
        line
    };
    let line = match firmware {
        Some(firmware) => line.arg("-l").arg(
            owned("bootrom,").concat(firmware.as_str()).as_str(),
        ),
        None => line,
    };
    line.arg(vm.name.as_str())
}

/// What stands in the fourth slot: the seed volume, where it is used and there is one, or
/// else the installation image.
pub open spec fn fourth_slot(vm: VmModel, config: Config, use_seed: bool, seed_exists: bool) -> Option<
    Seq<char>,
> {
    if use_seed && seed_exists {
        Some("4,nvme,"@ + device_spec(seed_dataset_spec(config, vm.name)))
    } else {
        match vm.iso {
            Some(iso) => Some("4,ahci-cd,"@ + iso),
            None => None,
        }
    }
}

/// The address of the interface of a virtual machine: the recorded one, or else a new one.
pub open spec fn chosen_mac(vm: VmModel, fresh: Seq<char>) -> Seq<char> {
    match value_of(vm.interface_macs, VIRTIO_NET_INTERFACE@) {
        Some(mac) => mac,
        None => fresh,
    }
}

/// What is undone when a virtual machine fails to start: the TPM emulator is stopped.
pub open spec fn undo_tpm(start: Seq<Seq<Act>>, vm: VmModel) -> Seq<Seq<Act>> {
    if vm.tpm {
        start.push(plan::one(Act::TpmStop(vm.name)))
    } else {
        start
    }
}

fn undo_tpm_start(start: Recovery, vm: &VmConfig) -> (recovery: Recovery)
    ensures
        recovery@ == undo_tpm(start@, vm@),
{
    if vm.tpm {
        start.also(Action::TpmStop(owned(vm.name.as_str())))
    } else {
        start
    }
}

/// What takes an interface away: out of its bridge, and then, whether that succeeded or
/// not, away.
pub open spec fn undo_tap(start: Seq<Seq<Act>>, tap: Seq<char>, bridge: Seq<char>) -> Seq<Seq<Act>> {
    start.push(plan::one(Act::BridgeDelete { bridge, member: tap })).push(
        plan::one(Act::InterfaceDestroy(tap)),
    )
}

fn undo_tap_start(start: Recovery, tap: &str, bridge: &str) -> (recovery: Recovery)
    ensures
        recovery@ == undo_tap(start@, tap@, bridge@),
{
    start.also(Action::BridgeDelete { bridge: owned(bridge), member: owned(tap) }).also(
        Action::InterfaceDestroy(owned(tap)),
    )
}

/// How a virtual machine is started once its interface exists.
pub open spec fn start_spec(
    vm: VmModel,
    config: Config,
    tap: Seq<char>,
    fresh_mac: Seq<char>,
    use_seed: bool,
    seed_exists: bool,
    files: Snapshot,
) -> PlanModel {
    let bridge = config.bridge@;
    let tap_file = vm_file(vm.name, "tap"@);
    let begun = if tap.len() == 0 {
        plan::no_steps().must_or(
            Act::Fail("tap creation returned an empty interface name"@),
            undo_tpm(plan::no_recovery(), vm),
        )
    } else {
        plan::no_steps()
    };
    let attached = begun.must_or(
        Act::InterfaceUp(tap),
        undo_tpm(plan::no_recovery(), vm),
    ).must_or(
        Act::BridgeAdd { bridge, member: tap },
        undo_tpm(plan::no_recovery(), vm),
    ).must_or(
        Act::Write { path: tap_file, text: tap },
        undo_tpm(undo_tap(plan::no_recovery(), tap, bridge), vm),
    );
    let addressed = if value_of(vm.interface_macs, VIRTIO_NET_INTERFACE@) is Some {
        attached
    } else {
        attached.run(
            metadata::set_spec(
                vm_dataset_spec(config, vm.name),
                mac_property(VIRTIO_NET_INTERFACE@),
                fresh_mac,
            ),
        )
    };
    if use_seed && vm.iso is Some {
        addressed.fail("VM cannot use both cloud-init and an installation ISO"@)
    } else {
        let line = vm_command_spec(
            vm,
            tap,
            chosen_mac(vm, fresh_mac),
            fourth_slot(vm, config, use_seed, seed_exists),
            if snapshot::exists_at(files, config.vm_firmware@) {
                Some(config.vm_firmware@)
            } else {
                None
            },
        );
        let started = addressed.must(Act::Announce(line)).must(
            Act::ConsoleOpen(vm.name),
        ).must_for_or(
            Act::VmStart { name: vm.name, command: line },
            "failed to start bhyve; is bhyve installed and virtualization enabled?"@,
            undo_tpm(
                undo_tap(plan::no_recovery(), tap, bridge).push(
                    plan::one(Act::RemoveFile(tap_file)),
                ),
                vm,
            ).push(plan::one(Act::ConsoleClose(vm.name))),
        ).must(Act::VmPid { name: vm.name, path: vm_file(vm.name, "bhyve.pid"@) });
        if vm.tpm {
            started.must(Act::TpmPid { name: vm.name, path: vm_file(vm.name, "tpm.pid"@) })
        } else {
            started
        }
    }
}

/// Plans to start a virtual machine once its interface exists. The new address is used,
/// and recorded, where none is recorded yet.
pub fn start_inner(
    vm: &VmConfig,
    config: &Config,
    tap: &str,
    fresh_mac: &str,
    use_seed: bool,
    seed_exists: bool,
    files: &Snapshot,
) -> (plan: Plan)
    ensures
        plan@ == start_spec(
            vm@,
            *config,
            tap@,
            fresh_mac@,
            use_seed,
            seed_exists,
            *files,
        ),
{
    let name = vm.name.as_str();
    let bridge = config.bridge.as_str();
    let tap_file = tap_path(name);
    let begun = if tap.is_empty() {
        Plan::new().must_or(
            Action::Fail(owned("tap creation returned an empty interface name")),
            undo_tpm_start(Recovery::new(), vm),
        )
    } else {
        Plan::new()
    };
    let attached = begun.must_or(
        Action::InterfaceUp(owned(tap)),
        undo_tpm_start(Recovery::new(), vm),
    ).must_or(
        Action::BridgeAdd { bridge: owned(bridge), member: owned(tap) },
        undo_tpm_start(Recovery::new(), vm),
    ).must_or(
        Action::Write { path: owned(tap_file.as_str()), text: owned(tap) },
        undo_tpm_start(undo_tap_start(Recovery::new(), tap, bridge), vm),
    );
    let known = lookup(&vm.interface_macs, VIRTIO_NET_INTERFACE);
    let (addressed, mac) = match known {
        Some(mac) => (attached, mac),
        None => (
            attached.run(
                metadata::set(
                    vm_dataset(name, config).as_str(),
                    interface_mac_property(VIRTIO_NET_INTERFACE).as_str(),
                    fresh_mac,
                ),
            ),
            owned(fresh_mac),
        ),
    };
    if use_seed && vm.iso.is_some() {
        return addressed.fail(owned("VM cannot use both cloud-init and an installation ISO"));
    }
    let disk = if use_seed && seed_exists {
        Some(owned("4,nvme,").concat(device(seed_dataset(name, config).as_str()).as_str()))
    } else {
        match &vm.iso {
            Some(iso) => Some(owned("4,ahci-cd,").concat(iso.as_str())),
            None => None,
        }
    };
    let firmware = if files.present(config.vm_firmware.as_str()) {
        Some(owned(config.vm_firmware.as_str()))
    } else {
        None
    };
    let line = vm_command(vm, tap, mac.as_str(), disk, firmware);
    let shown = line.copy();
    let recovery = undo_tpm_start(
        undo_tap_start(Recovery::new(), tap, bridge).also(Action::RemoveFile(tap_file)),
        vm,
    ).also(Action::ConsoleClose(owned(name)));
    let started = addressed.must(Action::Announce(shown)).must(
        Action::ConsoleOpen(owned(name)),
    ).must_for_or(
        Action::VmStart { name: owned(name), command: line },
        owned("failed to start bhyve; is bhyve installed and virtualization enabled?"),
        recovery,
    ).must(Action::VmPid { name: owned(name), path: pid_path(name) });
    if vm.tpm {
        started.must(Action::TpmPid { name: owned(name), path: tpm_pid_path(name) })
    } else {
        started
    }
}

/// A virtual machine is started exactly once, unless it is to use its seed beside an
/// installation image, in which case it is not started at all. The command that starts it is
/// the one that the user is shown.
pub proof fn law_vm_is_started_once(
    vm: VmModel,
    config: Config,
    tap: Seq<char>,
    fresh_mac: Seq<char>,
    use_seed: bool,
    seed_exists: bool,
    files: Snapshot,
)
    ensures
        ({
            let plan = start_spec(vm, config, tap, fresh_mac, use_seed, seed_exists, files);
            &&& use_seed && vm.iso is Some <==> forall|i: int|
                0 <= i < plan.steps.len() ==> !((#[trigger] plan.steps[i]).action is VmStart)
            &&& forall|i: int, j: int|
                0 <= i < plan.steps.len() && 0 <= j < plan.steps.len() && (
                #[trigger] plan.steps[i]).action is VmStart && (
                #[trigger] plan.steps[j]).action is VmStart ==> i == j
            &&& forall|i: int|
                0 <= i < plan.steps.len() && (#[trigger] plan.steps[i]).action is VmStart
                    ==> plan.steps[i].action->VmStart_name == vm.name && plan.performs(
                    Act::Announce(plan.steps[i].action->VmStart_command),
                )
        }),
{
    broadcast use plan::group_plan_contents;

    let plan = start_spec(vm, config, tap, fresh_mac, use_seed, seed_exists, files);
    if !(use_seed && vm.iso is Some) {
        let from: int = if tap.len() == 0 {
            1
        } else {
            0
        };
        let later: int = if value_of(vm.interface_macs, VIRTIO_NET_INTERFACE@) is Some {
            from + 3
        } else {
            from + 4
        };
        assert(plan.steps[later + 2].action is VmStart);
    }
}

/// A virtual machine is started as it is recorded. The argument behind `-c` reads back as its
/// number of CPUs, the one behind `-m` is its memory and the last one is its name. Its disk,
/// its interface with the recorded address, or the new one where none is recorded, its
/// screen, its TPM and its firmware are there exactly if it has them; beside its disk it has
/// the seed where that is used and there is one, or else its installation image.
#[verifier::spinoff_prover]
#[verifier::rlimit(40)]
pub proof fn law_vm_is_started_as_recorded(
    vm: VmModel,
    config: Config,
    tap: Seq<char>,
    fresh_mac: Seq<char>,
    use_seed: bool,
    seed_exists: bool,
    files: Snapshot,
    index: int,
)
    requires
        ({
            let plan = start_spec(vm, config, tap, fresh_mac, use_seed, seed_exists, files);
            0 <= index < plan.steps.len() && plan.steps[index].action is VmStart
        }),
    ensures
        ({
            let plan = start_spec(vm, config, tap, fresh_mac, use_seed, seed_exists, files);
            let command = plan.steps[index].action->VmStart_command;
            let seeded = use_seed && seed_exists;
            let booted = snapshot::exists_at(files, config.vm_firmware@);
            let mac = match value_of(vm.interface_macs, "virtio-net0"@) {
                Some(mac) => mac,
                None => fresh_mac,
            };
            &&& command.program == "bhyve"@
            &&& command.args[0] == "-c"@
            &&& text::number_spec(command.args[1], u32::MAX as nat) == Ok::<nat, text::NumberError>(
                vm.cpus as nat,
            )
            &&& command.args[2] == "-m"@
            &&& command.args[3] == vm.memory
            &&& command.names("-A"@) && command.names("-H"@) && command.names("-P"@)
            &&& command.has("-s"@, "0,hostbridge"@)
            &&& command.has("-s"@, "31,lpc"@)
            &&& command.has("-l"@, "com1,stdio"@)
            &&& command.has("-s"@, "3,nvme,"@ + vm.disk)
            &&& command.has("-s"@, "2,virtio-net,"@ + tap + ",mac="@ + mac)
            &&& seeded ==> command.has(
                "-s"@,
                "4,nvme,/dev/zvol/"@ + seed_dataset_spec(config, vm.name),
            )
            &&& !seeded && vm.iso is Some ==> command.has("-s"@, "4,ahci-cd,"@ + vm.iso->Some_0)
            &&& vm.vnc_port is Some ==> command.has(
                "-s"@,
                "29,fbuf,tcp="@ + vm.vnc_bind + ":"@ + text::decimal_spec(
                    vm.vnc_port->Some_0 as nat,
                ) + ",w="@ + text::decimal_spec(vm.vnc_width as nat) + ",h="@ + text::decimal_spec(
                    vm.vnc_height as nat,
                ),
            )
            &&& vm.tpm ==> command.has("-s"@, "31,lpc,tpm,path="@ + tpm_socket_spec(vm.name))
            &&& booted ==> command.has("-l"@, "bootrom,"@ + config.vm_firmware@)
            &&& command.args.last() == vm.name
            &&& command.args.len() == 18 + (if seeded || vm.iso is Some {
                2int
            } else {
                0
            }) + (if vm.vnc_port is Some {
                2int
            } else {
                0
            }) + (if vm.tpm {
                2int
            } else {
                0
            }) + (if booted {
                2int
            } else {
                0
            })
        }),
{
    broadcast use plan::group_plan_contents;

    text::law_decimal_reads_back(vm.cpus as nat, u32::MAX as nat);
    reveal_strlit("4,nvme,");
    reveal_strlit("/dev/zvol/");
    reveal_strlit("4,nvme,/dev/zvol/");
    assert("4,nvme,"@ + device_spec(seed_dataset_spec(config, vm.name)) =~= "4,nvme,/dev/zvol/"@
        + seed_dataset_spec(config, vm.name));
}

/// A virtual machine that was created with a number of CPUs and an amount of memory is started
/// with those, with the disk that it was given, with the address that was made up for it and
/// with the installation image that was put beside it.
pub proof fn law_vm_is_started_as_created(
    name: Seq<char>,
    options: VmCreateOptions<'_>,
    config: Config,
    iso: Seq<char>,
    mac: Seq<char>,
    tap: Seq<char>,
    fresh_mac: Seq<char>,
    files: Snapshot,
    index: int,
)
    requires
        jail::is_component(name),
        ({
            let vm = config_spec(name, config, recorded(options, iso, mac))->Ok_0;
            let plan = start_spec(vm, config, tap, fresh_mac, false, false, files);
            0 <= index < plan.steps.len() && plan.steps[index].action is VmStart
        }),
    ensures
        ({
            let vm = config_spec(name, config, recorded(options, iso, mac))->Ok_0;
            let plan = start_spec(vm, config, tap, fresh_mac, false, false, files);
            let command = plan.steps[index].action->VmStart_command;
            &&& config_spec(name, config, recorded(options, iso, mac)) is Ok
            &&& command.args[0] == "-c"@
            &&& text::number_spec(command.args[1], u32::MAX as nat) == Ok::<nat, text::NumberError>(
                options.cpus as nat,
            )
            &&& command.args[2] == "-m"@
            &&& command.args[3] == text::trim_spec(options.memory@)
            &&& command.has("-s"@, "3,nvme,"@ + disk_spec(config, name))
            &&& command.has("-s"@, "2,virtio-net,"@ + tap + ",mac="@ + mac)
            &&& options.iso is Some ==> command.has("-s"@, "4,ahci-cd,"@ + iso)
            &&& command.args.last() == name
        }),
{
    law_created_vm_reads_back(name, options, config, iso, mac);
    let vm = config_spec(name, config, recorded(options, iso, mac))->Ok_0;
    law_vm_is_started_as_recorded(vm, config, tap, fresh_mac, false, false, files, index);
    let none: Seq<PropertyModel> = Seq::empty();
    lemma_pushed_value(none, VIRTIO_NET_INTERFACE@, mac);
}

proof fn lemma_command_parts(
    vm: VmModel,
    tap: Seq<char>,
    mac: Seq<char>,
    slot: Option<Seq<char>>,
    firmware: Option<Seq<char>>,
)
    ensures
        ({
            let args = vm_command_spec(vm, tap, mac, slot, firmware).args;
            &&& args.len() > 11
            &&& args[1] == text::decimal_spec(vm.cpus as nat)
            &&& args[3] == vm.memory
            &&& args[10] == "3,nvme,"@ + vm.disk
            &&& args.last() == vm.name
        }),
{
}

/// Two virtual machines that differ in their CPUs, their memory, their disk or their name are
/// started by different commands.
pub proof fn law_different_vms_are_started_differently(
    first: VmModel,
    second: VmModel,
    config: Config,
    tap: Seq<char>,
    fresh_mac: Seq<char>,
    files: Snapshot,
    i: int,
    j: int,
)
    requires
        first.cpus != second.cpus || first.memory != second.memory || first.disk != second.disk
            || first.name != second.name,
        ({
            let one = start_spec(first, config, tap, fresh_mac, false, false, files);
            let other = start_spec(second, config, tap, fresh_mac, false, false, files);
            &&& 0 <= i < one.steps.len() && one.steps[i].action is VmStart
            &&& 0 <= j < other.steps.len() && other.steps[j].action is VmStart
        }),
    ensures
        start_spec(first, config, tap, fresh_mac, false, false, files).steps[i].action->VmStart_command
            != start_spec(
            second,
            config,
            tap,
            fresh_mac,
            false,
            false,
            files,
        ).steps[j].action->VmStart_command,
{
    let firmware = if snapshot::exists_at(files, config.vm_firmware@) {
        Some(config.vm_firmware@)
    } else {
        None
    };
    lemma_command_parts(
        first,
        tap,
        chosen_mac(first, fresh_mac),
        fourth_slot(first, config, false, false),
        firmware,
    );
    lemma_command_parts(
        second,
        tap,
        chosen_mac(second, fresh_mac),
        fourth_slot(second, config, false, false),
        firmware,
    );
    text::law_decimal_reads_back(first.cpus as nat, u32::MAX as nat);
    text::law_decimal_reads_back(second.cpus as nat, u32::MAX as nat);
    let start = "3,nvme,"@;
    assert((start + first.disk).skip(start.len() as int) =~= first.disk);
    assert((start + second.disk).skip(start.len() as int) =~= second.disk);
}

/// The TPM emulator of a virtual machine listens where the virtual machine looks for it: in a
/// place of its own name. It is started before the machine, and only for a machine that has a
/// TPM, is supported and does not run yet.
pub proof fn law_tpm_is_found(vm: VmModel, running: bool, files: Snapshot)
    requires
        jail::is_component(vm.name),
    ensures
        ({
            let socket = "/var/run/swtpm/"@ + vm.name;
            let result = prepare_spec(vm, running, files);
            &&& tpm_socket_spec(vm.name) == socket
            &&& result is Ok <==> is_supported_os(vm.os) && !running && !(vm.tpm
                && snapshot::exists_at(files, socket))
            &&& result matches Ok(plan) ==> plan.steps.len() == if vm.tpm {
                1int
            } else {
                0
            }
            &&& result is Ok && vm.tpm ==> !result->Ok_0.steps[0].optional
                && result->Ok_0.steps[0].action == (Act::TpmStart {
                name: vm.name,
                script: "exec swtpm socket --tpmstate dir=/var/run/swtpm --tpm2 --ctrl type=unixio,path="@
                    + socket,
            })
        }),
{
    reveal_strlit("/var/run/swtpm");
    reveal_strlit("/var/run/swtpm/");
    reveal_strlit("exec swtpm socket --tpmstate dir=");
    reveal_strlit(" --tpm2 --ctrl type=unixio,path=");
    reveal_strlit("exec swtpm socket --tpmstate dir=/var/run/swtpm --tpm2 --ctrl type=unixio,path=");
    assert("/var/run/swtpm"@.push('/') =~= "/var/run/swtpm/"@);
    assert("exec swtpm socket --tpmstate dir="@ + "/var/run/swtpm"@
        + " --tpm2 --ctrl type=unixio,path="@
        =~= "exec swtpm socket --tpmstate dir=/var/run/swtpm --tpm2 --ctrl type=unixio,path="@);
}

/// A virtual machine that bhyve does not start leaves nothing behind: its interface, the
/// file that names it, its TPM emulator and its console are taken away.
pub proof fn law_unstarted_vm_leaves_nothing(
    vm: VmModel,
    config: Config,
    tap: Seq<char>,
    fresh_mac: Seq<char>,
    use_seed: bool,
    seed_exists: bool,
    files: Snapshot,
    index: int,
)
    requires
        ({
            let plan = start_spec(vm, config, tap, fresh_mac, use_seed, seed_exists, files);
            0 <= index < plan.steps.len() && plan.steps[index].action is VmStart
        }),
    ensures
        ({
            let plan = start_spec(vm, config, tap, fresh_mac, use_seed, seed_exists, files);
            let recovery = plan.steps[index].recovery;
            &&& jail::recovers(recovery, Act::BridgeDelete { bridge: config.bridge@, member: tap })
            &&& jail::recovers(recovery, Act::InterfaceDestroy(tap))
            &&& jail::recovers(recovery, Act::RemoveFile(vm_file(vm.name, "tap"@)))
            &&& jail::recovers(recovery, Act::ConsoleClose(vm.name))
            &&& vm.tpm ==> jail::recovers(recovery, Act::TpmStop(vm.name))
        }),
{
    let plan = start_spec(vm, config, tap, fresh_mac, use_seed, seed_exists, files);
    let recovery = plan.steps[index].recovery;
    assert(recovery[0][0] == (Act::BridgeDelete { bridge: config.bridge@, member: tap }));
    assert(recovery[1][0] == Act::InterfaceDestroy(tap));
    assert(recovery[2][0] == Act::RemoveFile(vm_file(vm.name, "tap"@)));
    if vm.tpm {
        assert(recovery[3][0] == Act::TpmStop(vm.name));
        assert(recovery[4][0] == Act::ConsoleClose(vm.name));
    } else {
        assert(recovery[3][0] == Act::ConsoleClose(vm.name));
    }
}

/// What is cleared away when a virtual machine has come to its end.
pub open spec fn exit_spec(
    name: Seq<char>,
    tpm: bool,
    tap: Seq<char>,
    config: Config,
    use_seed: bool,
) -> PlanModel {
    let closed = plan::no_steps().may(Act::ConsoleClose(name)).may(
        Act::Run(plan::line("bhyvectl"@).arg("--destroy"@).arg("--vm="@ + name)),
    );
    let stopped = if tpm {
        closed.may(Act::TpmStop(name))
    } else {
        closed
    };
    let cleared = stopped.may(
        Act::BridgeDelete { bridge: config.bridge@, member: tap },
    ).may(Act::InterfaceDestroy(tap)).may(Act::RemoveFile(vm_file(name, "bhyve.pid"@))).may(
        Act::RemoveFile(vm_file(name, "tpm.pid"@)),
    ).may(Act::RemoveFile(vm_file(name, "tap"@)));
    if use_seed && jail::is_component(name) {
        cleared.may(
            Act::Run(
                plan::line("zfs"@).arg("destroy"@).arg("-f"@).arg(seed_dataset_spec(config, name)),
            ),
        )
    } else {
        cleared
    }
}

/// Plans what is cleared away when a virtual machine has come to its end. Nothing of it
/// stands in the way of the rest.
pub fn after_exit(vm: &VmConfig, tap: &str, config: &Config, use_seed: bool) -> (plan: Plan)
    ensures
        plan@ == exit_spec(vm.name@, vm.tpm, tap@, *config, use_seed),
        forall|i: int| 0 <= i < plan@.steps.len() ==> (#[trigger] plan@.steps[i]).optional,
{
    let name = vm.name.as_str();
    let closed = Plan::new().may(Action::ConsoleClose(owned(name))).may(
        Action::Run(
            command("bhyvectl").arg("--destroy").arg(owned("--vm=").concat(name).as_str()),
        ),
    );
    let stopped = if vm.tpm {
        closed.may(Action::TpmStop(owned(name)))
    } else {
        closed
    };
    let cleared = stopped.may(
        Action::BridgeDelete {
            bridge: owned(config.bridge.as_str()),
            member: owned(tap),
        },
    ).may(Action::InterfaceDestroy(owned(tap))).may(Action::RemoveFile(pid_path(name))).may(
        Action::RemoveFile(tpm_pid_path(name)),
    ).may(Action::RemoveFile(tap_path(name)));
    if use_seed && jail::is_single_component(name) {
        cleared.may(
            Action::Run(
                command("zfs").arg("destroy").arg("-f").arg(seed_dataset(name, config).as_str()),
            ),
        )
    } else {
        cleared
    }
}

/// What the start of a virtual machine sets up is cleared away when it has come to its end:
/// its interface, its console, its TPM emulator and its files.
pub proof fn law_exit_undoes_start(
    vm: VmModel,
    config: Config,
    tap: Seq<char>,
    fresh_mac: Seq<char>,
    use_seed: bool,
    seed_exists: bool,
    files: Snapshot,
)
    requires
        !(use_seed && vm.iso is Some),
    ensures
        ({
            let start = start_spec(vm, config, tap, fresh_mac, use_seed, seed_exists, files);
            let exit = exit_spec(vm.name, vm.tpm, tap, config, use_seed);
            &&& start.performs(Act::BridgeAdd { bridge: config.bridge@, member: tap })
                && exit.performs(Act::BridgeDelete { bridge: config.bridge@, member: tap })
            &&& exit.performs(Act::InterfaceDestroy(tap))
            &&& start.performs(Act::Write { path: vm_file(vm.name, "tap"@), text: tap })
                && exit.performs(Act::RemoveFile(vm_file(vm.name, "tap"@)))
            &&& start.performs(Act::ConsoleOpen(vm.name)) && exit.performs(
                Act::ConsoleClose(vm.name),
            )
            &&& start.performs(
                Act::VmPid { name: vm.name, path: vm_file(vm.name, "bhyve.pid"@) },
            ) && exit.performs(Act::RemoveFile(vm_file(vm.name, "bhyve.pid"@)))
            &&& vm.tpm ==> exit.performs(Act::TpmStop(vm.name)) && exit.performs(
                Act::RemoveFile(vm_file(vm.name, "tpm.pid"@)),
            )
        }),
{
    let bridge = config.bridge@;
    let start = start_spec(vm, config, tap, fresh_mac, use_seed, seed_exists, files);
    let exit = exit_spec(vm.name, vm.tpm, tap, config, use_seed);
    let from: int = if tap.len() == 0 {
        1
    } else {
        0
    };
    let later: int = if value_of(vm.interface_macs, VIRTIO_NET_INTERFACE@) is Some {
        from + 3
    } else {
        from + 4
    };
    assert(start.steps[from + 1].action == (Act::BridgeAdd { bridge, member: tap }));
    assert(start.steps[from + 2].action == (Act::Write {
        path: vm_file(vm.name, "tap"@),
        text: tap,
    }));
    assert(start.steps[later + 1].action == Act::ConsoleOpen(vm.name));
    assert(start.steps[later + 3].action == (Act::VmPid {
        name: vm.name,
        path: vm_file(vm.name, "bhyve.pid"@),
    }));
    let cleared: int = if vm.tpm {
        assert(exit.steps[2].action == Act::TpmStop(vm.name));
        3
    } else {
        2
    };
    assert(exit.steps[0].action == Act::ConsoleClose(vm.name));
    assert(exit.steps[cleared].action == (Act::BridgeDelete { bridge, member: tap }));
    assert(exit.steps[cleared + 1].action == Act::InterfaceDestroy(tap));
    assert(exit.steps[cleared + 2].action == Act::RemoveFile(vm_file(vm.name, "bhyve.pid"@)));
    assert(exit.steps[cleared + 3].action == Act::RemoveFile(vm_file(vm.name, "tpm.pid"@)));
    assert(exit.steps[cleared + 4].action == Act::RemoveFile(vm_file(vm.name, "tap"@)));
}

// ---------------------------------------------------------------------------
// Stopping and destroying a virtual machine
// ---------------------------------------------------------------------------

/// How a virtual machine is brought to its end: its process, whose number its file holds,
/// is ended, and its cleaning up is awaited.
pub open spec fn stop_spec(name: Seq<char>, pid: Option<Seq<char>>) -> PlanModel {
    match pid {
        Some(pid) => match text::signed_number_spec(text::trim_spec(pid)) {
            Some(number) => plan::no_steps().must(
                Act::Terminate { name, pid: number as i32 },
            ).must(Act::AwaitRemoval { name, path: vm_file(name, "bhyve.pid"@) }),
            None => plan::no_steps(),
        },
        None => plan::no_steps(),
    }
}

/// Plans to bring a virtual machine to its end, which must be one that can be read. `pid`
/// is what the file of its process holds, if it can be read. `stop_finish` plans what is
/// done then.
pub fn stop(
    name: &str,
    config: &Config,
    properties: &Vec<(String, String)>,
    pid: Option<&str>,
) -> (result: Result<Plan, Error>)
    ensures
        jail::plan_result(result) == match config_spec(
            name@,
            *config,
            property_views(properties@),
        ) {
            Ok(_) => Ok::<PlanModel, Seq<char>>(stop_spec(name@, text::str_view(pid))),
            Err(error) => Err(error),
        },
{
    if let Err(error) = read_config(name, config, properties) {
        return Err(error);
    }
    match pid {
        Some(pid) => match parse_signed(trim(pid).as_str()) {
            Some(number) => Ok(
                Plan::new().must(Action::Terminate { name: owned(name), pid: number }).must(
                    Action::AwaitRemoval { name: owned(name), path: pid_path(name) },
                ),
            ),
            None => Ok(Plan::new()),
        },
        None => Ok(Plan::new()),
    }
}

/// What may be left of a virtual machine that came to its end, and is cleared away.
pub open spec fn stop_finish_spec(
    name: Seq<char>,
    config: Config,
    tpm_pid: Option<Seq<char>>,
    tap: Option<Seq<char>>,
) -> PlanModel {
    let stopped = match tpm_pid {
        Some(pid) => plan::no_steps().may(
            Act::Run(plan::line("kill"@).arg("-TERM"@).arg(text::trim_spec(pid))),
        ),
        None => plan::no_steps(),
    };
    let detached = match tap {
        Some(tap) => stopped.may(
            Act::BridgeDelete { bridge: config.bridge@, member: text::trim_spec(tap) },
        ).may(Act::InterfaceDestroy(text::trim_spec(tap))),
        None => stopped,
    };
    detached.may(Act::RemoveFile(vm_file(name, "bhyve.pid"@))).may(
        Act::RemoveFile(vm_file(name, "tpm.pid"@)),
    ).may(Act::RemoveFile(vm_file(name, "tap"@)))
}

/// Plans to clear away what may be left of a virtual machine: `tpm_pid` and `tap` are what
/// its files hold, if they can be read.
pub fn stop_finish(name: &str, config: &Config, tpm_pid: Option<&str>, tap: Option<&str>) -> (plan:
    Plan)
    ensures
        plan@ == stop_finish_spec(
            name@,
            *config,
            text::str_view(tpm_pid),
            text::str_view(tap),
        ),
{
    let stopped = match tpm_pid {
        Some(pid) => Plan::new().may(
            Action::Run(command("kill").arg("-TERM").arg(trim(pid).as_str())),
        ),
        None => Plan::new(),
    };
    let detached = match tap {
        Some(tap) => stopped.may(
            Action::BridgeDelete { bridge: owned(config.bridge.as_str()), member: trim(tap) },
        ).may(Action::InterfaceDestroy(trim(tap))),
        None => stopped,
    };
    detached.may(Action::RemoveFile(pid_path(name))).may(
        Action::RemoveFile(tpm_pid_path(name)),
    ).may(Action::RemoveFile(tap_path(name)))
}

/// How long the end of a virtual machine is awaited, in milliseconds.
pub const STOP_LIMIT: u64 = 30000;

/// What follows from a look at something that is awaited.
#[derive(Debug)]
pub enum Await {
    /// It has come about.
    Done,
    /// It is to be looked at again after a pause.
    Again,
    /// It has been awaited too long.
    Failed(Error),
}

/// Decides what follows from a look at a process that is to end.
pub fn wait_for_exit(name: &str, gone: bool, waited: u64) -> (next: Await)
    ensures
        match next {
            Await::Done => gone,
            Await::Again => !gone && waited < STOP_LIMIT,
            Await::Failed(error) => !gone && waited >= STOP_LIMIT && error@ == "VM "@ + name@
                + " did not stop within 30 seconds"@,
        },
{
    if gone {
        Await::Done
    } else if waited >= STOP_LIMIT {
        Await::Failed(
            Error::new(owned("VM ").concat(name).concat(" did not stop within 30 seconds")),
        )
    } else {
        Await::Again
    }
}

/// Decides what follows from a look at a file that is to be removed.
pub fn wait_for_cleanup(name: &str, gone: bool, waited: u64) -> (next: Await)
    ensures
        match next {
            Await::Done => gone,
            Await::Again => !gone && waited < STOP_LIMIT,
            Await::Failed(error) => !gone && waited >= STOP_LIMIT && error@ == "cleanup of VM "@
                + name@ + " did not complete within 30 seconds"@,
        },
{
    if gone {
        Await::Done
    } else if waited >= STOP_LIMIT {
        Await::Failed(
            Error::new(
                owned("cleanup of VM ").concat(name).concat(
                    " did not complete within 30 seconds",
                ),
            ),
        )
    } else {
        Await::Again
    }
}

/// A virtual machine is stopped by ending the very process whose number was written when it
/// was started, and it counts as stopped once the file of the number is gone. Without a number
/// nothing is ended.
pub proof fn law_stop_ends_the_process(name: Seq<char>, pid: nat, printed: Seq<char>)
    requires
        pid <= i32::MAX,
        text::trim_spec(printed) == text::decimal_spec(pid),
    ensures
        ({
            let plan = stop_spec(name, Some(printed));
            &&& plan.steps.len() == 2
            &&& plan.steps[0] == plan::must(Act::Terminate { name, pid: pid as i32 })
            &&& plan.steps[1] == plan::must(
                Act::AwaitRemoval { name, path: vm_file(name, "bhyve.pid"@) },
            )
            &&& stop_spec(name, None).steps.len() == 0
        }),
{
    text::law_decimal_reads_back(pid, i32::MAX as nat);
    assert(text::is_digit(text::decimal_spec(pid)[0]));
}

/// What is left of a machine that was stopped is cleared away whatever else fails: its TPM
/// emulator is ended, its interface leaves the bridge and is destroyed, and its files are
/// removed.
pub proof fn law_stop_clears_away(
    name: Seq<char>,
    config: Config,
    tpm_pid: Option<Seq<char>>,
    tap: Option<Seq<char>>,
)
    ensures
        ({
            let plan = stop_finish_spec(name, config, tpm_pid, tap);
            &&& forall|i: int| 0 <= i < plan.steps.len() ==> (#[trigger] plan.steps[i]).optional
            &&& tpm_pid matches Some(pid) ==> plan.calls(
                "kill"@,
                seq!["-TERM"@, text::trim_spec(pid)],
            )
            &&& tap matches Some(tap) ==> plan.performs(
                Act::BridgeDelete { bridge: config.bridge@, member: text::trim_spec(tap) },
            ) && plan.performs(Act::InterfaceDestroy(text::trim_spec(tap)))
            &&& plan.performs(Act::RemoveFile(vm_file(name, "bhyve.pid"@)))
            &&& plan.performs(Act::RemoveFile(vm_file(name, "tpm.pid"@)))
            &&& plan.performs(Act::RemoveFile(vm_file(name, "tap"@)))
            &&& plan.steps.len() == 3 + (if tpm_pid is Some {
                1int
            } else {
                0
            }) + (if tap is Some {
                2int
            } else {
                0
            })
        }),
{
    broadcast use plan::group_plan_contents;

}

/// A machine that could not get an interface leaves no TPM emulator behind.
pub proof fn law_abandoned_start_stops_the_tpm(vm: VmModel)
    ensures
        vm.tpm ==> abandon_spec(vm).steps =~= seq![plan::may(Act::TpmStop(vm.name))],
        !vm.tpm ==> abandon_spec(vm).steps.len() == 0,
{
}

/// Whoever stops waits for thirty seconds at most.
pub proof fn law_stop_is_awaited_for_thirty_seconds()
    ensures
        STOP_LIMIT == 30 * 1000,
{
}

/// The console of a machine can be had exactly if the machine has a good name, runs and has a
/// console; and whether it runs is asked of the process whose number its file holds.
pub proof fn law_console_needs_a_running_machine(
    name: Seq<char>,
    running: bool,
    present: bool,
    pid: Seq<char>,
)
    ensures
        console_obstacle(name, running, present) is None <==> jail::is_component(name) && running
            && present,
        plan::is_call(Act::Run(alive_spec(pid)), "kill"@, seq!["-0"@, text::trim_spec(pid)]),
{
}

/// A machine that cloud-init is to set up gets its image and its seed after it was made, in
/// this order; no other machine gets either. The version of the host is looked up first where
/// it counts.
pub proof fn law_cloud_init_needs_image_and_seed(options: VmCreateOptions<'_>)
    ensures
        ({
            let stages = create_stages_spec(options);
            let count = stages.len() as int;
            &&& !options.cloud_init ==> stages =~= seq![VmStage::Machine]
            &&& options.cloud_init ==> count >= 3 && stages[count - 3] == VmStage::Machine
                && stages[count - 2] == VmStage::Image && stages[count - 1] == VmStage::Seed
            &&& options.cloud_init && options.os@ == "freebsd"@ && options.version is None <==> count
                == 4
            &&& count == 4 ==> stages[0] == VmStage::HostVersion
            &&& count <= 4
        }),
{
    lemma_os_names();
}

/// A stage of stopping or destroying a virtual machine.
#[derive(Debug, Clone, Copy, PartialEq, Eq, Structural)]
pub enum EndStage {
    /// What `stop` plans, or `destroy` where the machine is destroyed.
    Terminate,
    /// What `stop_finish` plans.
    Clear,
    /// What `destroy_finish` plans.
    Dataset,
    /// What `destroy_seed` plans, once it is known whether the seed exists.
    Seed,
}

/// The stages of stopping a virtual machine.
pub open spec fn stop_stages_spec() -> Seq<EndStage> {
    seq![EndStage::Terminate, EndStage::Clear]
}

/// The stages of stopping a virtual machine, in their order. A stage that fails is the last.
pub fn stop_stages() -> (stages: Vec<EndStage>)
    ensures
        stages@ == stop_stages_spec(),
{
    let mut stages: Vec<EndStage> = Vec::new();
    stages.push(EndStage::Terminate);
    stages.push(EndStage::Clear);
    proof {
        assert(stages@ =~= stop_stages_spec());
    }
    stages
}

/// The stages of destroying a virtual machine, in their order: it is stopped, and then it
/// goes. A stage that fails is the last.
pub fn destroy_stages() -> (stages: Vec<EndStage>)
    ensures
        stages@ == stop_stages_spec() + seq![EndStage::Dataset, EndStage::Seed],
{
    let mut stages = stop_stages();
    stages.push(EndStage::Dataset);
    stages.push(EndStage::Seed);
    proof {
        assert(stages@ =~= stop_stages_spec() + seq![EndStage::Dataset, EndStage::Seed]);
    }
    stages
}

/// How the destruction of a virtual machine begins: it is brought to its end.
pub open spec fn destroy_spec(
    name: Seq<char>,
    config: Config,
    properties: Seq<PropertyModel>,
    pid: Option<Seq<char>>,
    files: Snapshot,
) -> Result<PlanModel, Seq<char>> {
    if !jail::is_component(name) {
        Err(invalid_name(name))
    } else if !snapshot::exists_at(files, vm_path(name)) {
        Err("VM does not exist: "@ + name)
    } else {
        match config_spec(name, config, properties) {
            Err(error) => Err(error),
            Ok(_) => Ok(stop_spec(name, pid)),
        }
    }
}

/// Plans the first part of destroying a virtual machine: it is brought to its end, which
/// `stop_finish` completes. `destroy_finish` and `destroy_seed` plan the rest.
pub fn destroy(
    name: &str,
    config: &Config,
    properties: &Vec<(String, String)>,
    pid: Option<&str>,
    files: &Snapshot,
) -> (result: Result<Plan, Error>)
    ensures
        jail::plan_result(result) == destroy_spec(
            name@,
            *config,
            property_views(properties@),
            text::str_view(pid),
            *files,
        ),
{
    if let Err(error) = validate_name(name) {
        return Err(error);
    }
    if !files.present(vm_root_path(name).as_str()) {
        return Err(Error::new(owned("VM does not exist: ").concat(name)));
    }
    stop(name, config, properties, pid)
}

/// How the dataset of a virtual machine goes: no resource depends on the machine any more.
pub open spec fn removal_spec(name: Seq<char>, config: Config, stored: Seq<Stored>) -> PlanModel {
    dependency::removal_plan(name, stored).run(
        jail::destroy_dataset_spec(vm_dataset_spec(config, name)),
    )
}

/// Plans the second part of destroying a virtual machine: no resource depends on it any
/// more, and its dataset goes.
pub fn destroy_finish(name: &str, config: &Config, stored: &Vec<Stored>) -> (plan: Plan)
    ensures
        plan@ == removal_spec(name@, *config, stored@),
{
    dependency::remove_references(name, stored).run(
        jail::destroy_dataset(vm_dataset(name, config).as_str()),
    )
}

/// The command that destroys the seed of a virtual machine.
pub open spec fn drop_seed_spec(name: Seq<char>, config: Config) -> CommandLine {
    plan::line("zfs"@).arg("destroy"@).arg("-f"@).arg(seed_dataset_spec(config, name))
}

/// How the seed of a virtual machine goes, if it is still there.
pub open spec fn seed_removal_spec(name: Seq<char>, config: Config, seed_exists: bool) -> PlanModel {
    if seed_exists {
        plan::no_steps().run(drop_seed_spec(name, config))
    } else {
        plan::no_steps()
    }
}

/// Plans the last part of destroying a virtual machine: its seed goes, if it is still there.
pub fn destroy_seed(name: &str, config: &Config, seed_exists: bool) -> (plan: Plan)
    ensures
        plan@ == seed_removal_spec(name@, *config, seed_exists),
{
    if seed_exists {
        Plan::new().run(
            command("zfs").arg("destroy").arg("-f").arg(seed_dataset(name, config).as_str()),
        )
    } else {
        Plan::new()
    }
}

/// A valid stored graph stays valid when a virtual machine is destroyed, and nothing that is
/// left depends on the machine. Its dataset goes with all below it, its seed goes if it is
/// there, and no other dataset does.
pub proof fn law_destroyed_vm_leaves_a_valid_graph(
    name: Seq<char>,
    config: Config,
    seed_exists: bool,
    before: Seq<Stored>,
    after: Seq<Stored>,
)
    requires
        dependency::is_valid(dependency::stored_graph(before)),
        dependency::owns(before, name, vm_dataset_spec(config, name)),
        dependency::have_own_datasets(before),
        forall|i: int|
            0 <= i < before.len() ==> dependency::names_are_trimmed(#[trigger] before[i]),
        dependency::are_left_after(
            removal_spec(name, config, before).steps,
            vm_dataset_spec(config, name),
            before,
            after,
        ),
    ensures
        dependency::is_valid(dependency::stored_graph(after)),
        forall|i: int|
            0 <= i < after.len() ==> !dependency::stored_list((#[trigger] after[i]).value).contains(
                name,
            ),
        removal_spec(name, config, before).performs(
            Act::Run(jail::destroy_dataset_spec(vm_dataset_spec(config, name))),
        ),
        seed_exists ==> seed_removal_spec(name, config, seed_exists).performs(
            Act::Run(drop_seed_spec(name, config)),
        ),
        forall|action: Act| #[trigger]
            removal_spec(name, config, before).performs(action) && dependency::is_destruction(action)
                ==> action == Act::Run(jail::destroy_dataset_spec(vm_dataset_spec(config, name))),
        forall|action: Act| #[trigger]
            seed_removal_spec(name, config, seed_exists).performs(action) ==> seed_exists && action
                == Act::Run(drop_seed_spec(name, config)),
{
    let dataset = vm_dataset_spec(config, name);
    let removal = dependency::removal_plan(name, before);
    let whole = removal_spec(name, config, before);
    let last = plan::must(Act::Run(jail::destroy_dataset_spec(dataset)));
    let none = plan::no_steps().steps;
    dependency::lemma_removal_sets(name, before);
    assert(!dependency::is_setting(last.action));
    assert forall|other: Seq<char>, value: Option<Seq<char>>| #[trigger]
        dependency::value_after(whole.steps, other, value) == dependency::value_after(
            removal.steps,
            other,
            value,
        ) by {
        dependency::lemma_other_steps(none, removal.steps, seq![last], other, value);
        assert(none + removal.steps + seq![last] =~= whole.steps);
    }
    dependency::lemma_removed_resource(name, dataset, whole.steps, before, after);
    assert(whole.steps[removal.steps.len() as int].action == last.action);
    assert forall|action: Act| #[trigger]
        whole.performs(action) && dependency::is_destruction(action) implies action
        == last.action by {
        let i = choose|i: int|
            0 <= i < whole.steps.len() && (#[trigger] whole.steps[i]).action == action;
        if i < removal.steps.len() {
            assert(whole.steps[i] == removal.steps[i]);
        }
    }
    let seed = seed_removal_spec(name, config, seed_exists);
    if seed_exists {
        assert(seed.steps[0].action == Act::Run(drop_seed_spec(name, config)));
    }
}

/// The command that succeeds exactly if the process with a number runs.
pub open spec fn alive_spec(pid: Seq<char>) -> CommandLine {
    plan::line("kill"@).arg("-0"@).arg(text::trim_spec(pid))
}

/// The command that tells whether a virtual machine runs, if it has a process at all: it
/// succeeds exactly if the process runs whose number its file holds.
pub fn is_running(pid: Option<&str>) -> (result: Option<Command>)
    ensures
        match (pid, result) {
            (Some(pid), Some(command)) => command@ == alive_spec(pid@),
            (None, None) => true,
            _ => false,
        },
{
    match pid {
        Some(pid) => Some(command("kill").arg("-0").arg(trim(pid).as_str())),
        None => None,
    }
}

/// What keeps a client from the serial console of a virtual machine, if something does.
pub open spec fn console_obstacle(name: Seq<char>, running: bool, present: bool) -> Option<
    Seq<char>,
> {
    if !jail::is_component(name) {
        Some(invalid_name(name))
    } else if !running {
        Some("VM is not running: "@ + name)
    } else if !present {
        Some("serial console is unavailable for VM "@ + name)
    } else {
        None
    }
}

/// Fails if a client cannot have the serial console of a virtual machine; `present` says
/// whether there is one.
pub fn serial_console(name: &str, running: bool, present: bool) -> (result: Result<(), Error>)
    ensures
        match (console_obstacle(name@, running, present), result) {
            (None, Ok(_)) => true,
            (Some(reason), Err(error)) => error@ == reason,
            _ => false,
        },
{
    match validate_name(name) {
        Err(error) => {
            return Err(error);
        },
        Ok(_) => {},
    }
    if !running {
        Err(Error::new(owned("VM is not running: ").concat(name)))
    } else if !present {
        Err(Error::new(owned("serial console is unavailable for VM ").concat(name)))
    } else {
        Ok(())
    }
}

impl Named for (String, bool) {
    open spec fn key(&self) -> Seq<char> {
        self.0@
    }

    fn name(&self) -> &str {
        self.0.as_str()
    }
}

/// An entry of the directory that holds the virtual machines.
#[derive(Debug)]
pub struct VmEntry {
    pub name: String,
    /// Whether the entry is a directory.
    pub directory: bool,
    /// Whether the virtual machine runs.
    pub running: bool,
}

/// Whether an entry is a virtual machine: a directory that is managed under its name.
pub open spec fn is_listed_vm(entry: VmEntry, files: Snapshot) -> bool {
    entry.directory && is_managed(entry.name@, files)
}

/// The virtual machines among entries, with whether they run.
pub open spec fn listed_vms(entries: Seq<VmEntry>, files: Snapshot) -> Seq<(Seq<char>, bool)>
    decreases entries.len(),
{
    if entries.len() == 0 {
        seq![]
    } else if is_listed_vm(entries.last(), files) {
        listed_vms(entries.drop_last(), files).push((entries.last().name@, entries.last().running))
    } else {
        listed_vms(entries.drop_last(), files)
    }
}

/// Virtual machines with whether they run, as plain values.
pub open spec fn vm_views(vms: Seq<(String, bool)>) -> Seq<(Seq<char>, bool)> {
    vms.map_values(|vm: (String, bool)| (vm.0@, vm.1))
}

/// Whether a list holds virtual machines in the order of their names, each as often as it is
/// found.
pub open spec fn is_vm_list(list: Seq<(String, bool)>, found: Seq<(Seq<char>, bool)>) -> bool {
    sort::is_sorted(list) && exists|vms: Seq<(String, bool)>| #[trigger]
        vm_views(vms) == found && list.to_multiset() == vms.to_multiset()
}

/// The list of the virtual machines among the entries of a directory, with whether they run,
/// ordered by name.
pub fn list(entries: &Vec<VmEntry>, files: &Snapshot) -> (sorted: Vec<(String, bool)>)
    ensures
        is_vm_list(sorted@, listed_vms(entries@, *files)),
{
    let mut vms: Vec<(String, bool)> = Vec::new();
    let mut index: usize = 0;
    proof {
        assert(vm_views(vms@) =~= listed_vms(entries@.take(0), *files));
    }
    while index < entries.len()
        invariant
            index <= entries@.len(),
            vm_views(vms@) == listed_vms(entries@.take(index as int), *files),
        decreases entries@.len() - index,
    {
        let ghost before = vms@;
        proof {
            assert(entries@.take(index + 1).drop_last() =~= entries@.take(index as int));
        }
        if entries[index].directory && path_exists(entries[index].name.as_str(), files) {
            vms.push((owned(entries[index].name.as_str()), entries[index].running));
            proof {
                assert(vm_views(vms@) =~= vm_views(before).push(
                    (entries@[index as int].name@, entries@[index as int].running),
                ));
            }
        }
        index += 1;
    }
    proof {
        assert(entries@.take(index as int) =~= entries@);
    }
    let ghost found = vms@;
    let sorted = sort_by_name(vms);
    assert(vm_views(found) == listed_vms(entries@, *files));
    sorted
}

/// Whether no two entries share a name.
pub open spec fn have_own_names(entries: Seq<VmEntry>) -> bool {
    forall|i: int, j: int|
        0 <= i < j < entries.len() ==> (#[trigger] entries[i]).name@ != (#[trigger] entries[j]).name@
}

proof fn lemma_listed_vms(entries: Seq<VmEntry>, files: Snapshot)
    ensures
        forall|vm: (Seq<char>, bool)| #[trigger]
            listed_vms(entries, files).contains(vm) <==> exists|i: int|
                0 <= i < entries.len() && is_listed_vm(#[trigger] entries[i], files) && vm == (
                    entries[i].name@,
                    entries[i].running,
                ),
    decreases entries.len(),
{
    let list = listed_vms(entries, files);
    if entries.len() > 0 {
        let front = entries.drop_last();
        let before = listed_vms(front, files);
        lemma_listed_vms(front, files);
        assert forall|vm: (Seq<char>, bool)| #[trigger] list.contains(vm) <==> exists|i: int|
            0 <= i < entries.len() && is_listed_vm(#[trigger] entries[i], files) && vm == (
                entries[i].name@,
                entries[i].running,
            ) by {
            if list.contains(vm) {
                let k = list.index_of(vm);
                if k < before.len() {
                    assert(before[k] == vm);
                    assert(before.contains(vm));
                    let i = choose|i: int|
                        0 <= i < front.len() && is_listed_vm(#[trigger] front[i], files) && vm == (
                            front[i].name@,
                            front[i].running,
                        );
                    assert(is_listed_vm(entries[i], files));
                } else {
                    assert(is_listed_vm(entries[entries.len() - 1], files));
                }
            }
            if exists|i: int|
                0 <= i < entries.len() && is_listed_vm(#[trigger] entries[i], files) && vm == (
                    entries[i].name@,
                    entries[i].running,
                ) {
                let i = choose|i: int|
                    0 <= i < entries.len() && is_listed_vm(#[trigger] entries[i], files) && vm == (
                        entries[i].name@,
                        entries[i].running,
                    );
                if i < front.len() {
                    assert(is_listed_vm(front[i], files));
                    assert(before.contains(vm));
                    assert(list[before.index_of(vm)] == vm);
                } else {
                    assert(list[before.len() as int] == vm);
                }
            }
        }
    }
}

proof fn lemma_listed_once(entries: Seq<VmEntry>, files: Snapshot)
    requires
        have_own_names(entries),
    ensures
        forall|i: int, j: int|
            0 <= i < j < listed_vms(entries, files).len() ==> (#[trigger] listed_vms(
                entries,
                files,
            )[i]).0 != (#[trigger] listed_vms(entries, files)[j]).0,
    decreases entries.len(),
{
    if entries.len() > 0 {
        let front = entries.drop_last();
        let before = listed_vms(front, files);
        let list = listed_vms(entries, files);
        assert(have_own_names(front)) by {
            assert forall|i: int, j: int| 0 <= i < j < front.len() implies (
            #[trigger] front[i]).name@ != (#[trigger] front[j]).name@ by {
                assert(entries[i].name@ != entries[j].name@);
            }
        }
        lemma_listed_once(front, files);
        lemma_listed_vms(front, files);
        assert forall|i: int, j: int| 0 <= i < j < list.len() implies (#[trigger] list[i]).0 != (
        #[trigger] list[j]).0 by {
            if j < before.len() {
                assert(before[i].0 != before[j].0);
            } else {
                assert(before.contains(before[i]));
                let k = choose|k: int|
                    0 <= k < front.len() && is_listed_vm(#[trigger] front[k], files) && before[i]
                        == (front[k].name@, front[k].running);
                assert(entries[k].name@ != entries[entries.len() - 1].name@);
            }
        }
    }
}

/// The virtual machines that are listed are exactly the directories that are managed, each
/// once and with whether it runs, in the order of their names.
pub proof fn law_vms_are_listed_once(
    entries: Seq<VmEntry>,
    files: Snapshot,
    list: Seq<(String, bool)>,
)
    requires
        have_own_names(entries),
        is_vm_list(list, listed_vms(entries, files)),
    ensures
        forall|i: int, j: int|
            0 <= i < j < list.len() ==> sort::not_after(
                (#[trigger] list[i]).0@,
                (#[trigger] list[j]).0@,
            ) && list[i].0@ != list[j].0@,
        forall|vm: (Seq<char>, bool)| #[trigger]
            vm_views(list).contains(vm) <==> exists|i: int|
                0 <= i < entries.len() && is_listed_vm(#[trigger] entries[i], files) && vm == (
                    entries[i].name@,
                    entries[i].running,
                ),
{
    let found = listed_vms(entries, files);
    let vms = choose|vms: Seq<(String, bool)>| #[trigger]
        vm_views(vms) == found && list.to_multiset() == vms.to_multiset();
    lemma_listed_vms(entries, files);
    lemma_listed_once(entries, files);
    assert forall|i: int, j: int| 0 <= i < j < vms.len() implies (#[trigger] vms[i]).key() != (
    #[trigger] vms[j]).key() by {
        assert(found[i].0 != found[j].0);
    }
    sort::law_names_stay_apart(vms, list);
    assert forall|i: int, j: int| 0 <= i < j < list.len() implies sort::not_after(
        (#[trigger] list[i]).0@,
        (#[trigger] list[j]).0@,
    ) && list[i].0@ != list[j].0@ by {
        assert(list[i].key() != list[j].key());
    }
    assert forall|vm: (Seq<char>, bool)| #[trigger] vm_views(list).contains(vm) <==> found.contains(
        vm,
    ) by {
        if vm_views(list).contains(vm) {
            let i = vm_views(list).index_of(vm);
            assert(list.contains(list[i]));
            sort::lemma_same_things(vms, list, list[i]);
            let j = vms.index_of(list[i]);
            assert(found[j] == vm);
        }
        if found.contains(vm) {
            let j = found.index_of(vm);
            assert(vms.contains(vms[j]));
            sort::lemma_same_things(vms, list, vms[j]);
            let i = list.index_of(vms[j]);
            assert(vm_views(list)[i] == vm);
        }
    }
}

/// A version of Fedora is a number, a dash and a release of digits and dots, and the number
/// before the dash is the one that its image is filed under.
pub proof fn law_fedora_versions_have_two_parts(major: Seq<char>, release: Seq<char>, other: Seq<char>)
    ensures
        text::all_digits(major, false) && major.len() > 0 && text::all_digits(release, true)
            && release.len() > 0 ==> is_fedora_version(major + "-"@ + release) && before_dash(
            major + "-"@ + release,
        ) == major,
        is_fedora_version(other) ==> {
            &&& other.len() >= 3
            &&& '0' <= other[0] <= '9'
            &&& other.last() != '-'
            &&& other.contains('-')
            &&& forall|i: int|
                0 <= i < other.len() ==> '0' <= #[trigger] other[i] <= '9' || other[i] == '.'
                    || other[i] == '-'
        },
        !other.contains('-') ==> !is_fedora_version(other) && before_dash(other) == other,
{
    reveal_strlit("-");
    let whole = major + "-"@ + release;
    if text::all_digits(major, false) && major.len() > 0 && text::all_digits(release, true)
        && release.len() > 0 {
        assert(!major.contains('-'));
        text::lemma_split_once_joined(major, '-', release);
        assert(whole =~= major + seq!['-'] + release);
    }
    text::law_text_is_cut_at_the_first(other, '-');
    if let Some((first, rest)) = text::split_once_spec(other, '-') {
        assert(other =~= first + seq!['-'] + rest);
        assert(other[first.len() as int] == '-');
        if is_fedora_version(other) {
            assert(other[0] == first[0]);
            assert(other.last() == rest.last());
            assert forall|i: int| 0 <= i < other.len() implies '0' <= #[trigger] other[i] <= '9'
                || other[i] == '.' || other[i] == '-' by {
                if i < first.len() {
                    assert(other[i] == first[i]);
                } else if i > first.len() {
                    assert(other[i] == rest[i - first.len() - 1]);
                }
            }
        }
    }
}

/// How far a start has come.
pub open spec fn start_rank(stage: StartStage) -> int {
    match stage {
        StartStage::Prepare => 0,
        StartStage::Interface => 1,
        StartStage::Address => 2,
        StartStage::Seed => 3,
        StartStage::Machine => 4,
        StartStage::Watch => 5,
        StartStage::Started => 6,
        StartStage::Abandon => 5,
        StartStage::Failed => 6,
    }
}

/// A start goes on with each success, through the interface and the machine, to its end. An
/// address is made up exactly where none is recorded, and the seed is looked for exactly
/// where it is used.
pub proof fn law_start_goes_on(vm: VmModel, use_seed: bool, now: StartModel)
    ensures
        ({
            let after = start_step(vm, use_seed, now, Ok(()));
            let recorded = value_of(vm.interface_macs, VIRTIO_NET_INTERFACE@) is Some;
            &&& after.failure == now.failure
            &&& start_rank(now.stage) < 6 ==> start_rank(after.stage) > start_rank(now.stage)
            &&& start_rank(now.stage) < 1 ==> start_rank(after.stage) <= 1
            &&& start_rank(now.stage) < 4 ==> start_rank(after.stage) <= 4
            &&& start_rank(now.stage) < 5 ==> after.stage !is Abandon && after.stage !is Failed
            &&& now.stage is Machine ==> after.stage is Watch
            &&& now.stage is Interface ==> (after.stage is Address <==> !recorded)
            &&& now.stage is Address || (now.stage is Interface && recorded) ==> (
            after.stage is Seed <==> use_seed)
        }),
{
}

/// A start that fails tells why, and stays a failure whatever comes: an interface that
/// cannot be created is given up first, and without one, without an address or without the
/// machine nothing is started. A seed that cannot be looked for stops nothing.
pub proof fn law_start_fails_for_a_reason(
    vm: VmModel,
    use_seed: bool,
    now: StartModel,
    reason: Seq<char>,
    later: Result<(), Seq<char>>,
)
    ensures
        ({
            let after = start_step(vm, use_seed, now, Err(reason));
            &&& now.stage is Prepare || now.stage is Address || now.stage is Machine ==> after == (
            StartModel { stage: StartStage::Failed, failure: Some(reason) })
            &&& now.stage is Interface ==> after == (StartModel {
                stage: StartStage::Abandon,
                failure: Some(reason),
            })
            &&& now.stage is Interface ==> start_step(vm, use_seed, after, later) == (StartModel {
                stage: StartStage::Failed,
                failure: Some(reason),
            })
            &&& now.stage is Failed ==> start_step(vm, use_seed, now, later) == now
            &&& now.stage is Seed || now.stage is Watch ==> after == start_step(
                vm,
                use_seed,
                now,
                Ok(()),
            )
        }),
{
}

/// Everything that a virtual machine is started by is read back from what is recorded.
pub proof fn law_settings_are_read_back()
    ensures
        recorded_names().contains("os"@),
        recorded_names().contains("iso"@),
        recorded_names().contains("vnc_port"@),
        recorded_names().contains("vnc_bind"@),
        recorded_names().contains("vnc_width"@),
        recorded_names().contains("vnc_height"@),
        recorded_names().contains("tpm"@),
        recorded_names().contains("cpus"@),
        recorded_names().contains("memory"@),
        recorded_names().contains("dependencies"@),
        recorded_names().contains("enabled"@),
        recorded_names().contains("mac_"@ + VIRTIO_NET_INTERFACE@),
{
    let names = recorded_names();
    assert(names[0] == "os"@ && names[1] == "iso"@ && names[2] == "vnc_port"@);
    assert(names[3] == "vnc_bind"@ && names[4] == "vnc_width"@ && names[5] == "vnc_height"@);
    assert(names[6] == "tpm"@ && names[7] == "cpus"@ && names[8] == "memory"@);
    assert(names[9] == "dependencies"@ && names[10] == "enabled"@);
    assert(names[11] == "mac_"@ + VIRTIO_NET_INTERFACE@);
}

/// The version of the host is taken only where none was named, and never for a system that
/// has versions of its own.
pub proof fn law_host_version_is_for_its_own_kind(os: Seq<char>, version: Seq<char>)
    ensures
        !takes_host_version(os, Some(version)),
        takes_host_version("freebsd"@, None),
        !takes_host_version("ubuntu"@, None),
        !takes_host_version("debian"@, None),
        !takes_host_version("fedora"@, None),
{
    reveal_strlit("freebsd");
    reveal_strlit("ubuntu");
    reveal_strlit("debian");
    reveal_strlit("fedora");
    assert("freebsd"@.len() == 7 && "ubuntu"@.len() == 6 && "debian"@.len() == 6);
    assert("fedora"@.len() == 6);
}

/// At the end of a virtual machine what it held is given back, whatever of it fails: the
/// console, the machine in the kernel, its TPM, its interface and the files that tell of it.
/// The seed that it was started with is destroyed, and no other dataset.
#[verifier::spinoff_prover]
#[verifier::rlimit(40)]
pub proof fn law_exit_clears_away(
    name: Seq<char>,
    tpm: bool,
    tap: Seq<char>,
    config: Config,
    use_seed: bool,
)
    ensures
        ({
            let plan = exit_spec(name, tpm, tap, config, use_seed);
            &&& forall|i: int| 0 <= i < plan.steps.len() ==> (#[trigger] plan.steps[i]).optional
            &&& plan.performs(Act::ConsoleClose(name))
            &&& plan.calls("bhyvectl"@, seq!["--destroy"@, "--vm="@ + name])
            &&& tpm <==> plan.performs(Act::TpmStop(name))
            &&& plan.performs(Act::BridgeDelete { bridge: config.bridge@, member: tap })
            &&& plan.performs(Act::InterfaceDestroy(tap))
            &&& plan.performs(Act::RemoveFile(vm_file(name, "bhyve.pid"@)))
            &&& plan.performs(Act::RemoveFile(vm_file(name, "tpm.pid"@)))
            &&& plan.performs(Act::RemoveFile(vm_file(name, "tap"@)))
            &&& use_seed && jail::is_component(name) ==> plan.calls(
                "zfs"@,
                seq!["destroy"@, "-f"@, seed_dataset_spec(config, name)],
            )
            &&& plan.steps.len() == 7 + (if tpm {
                1int
            } else {
                0
            }) + (if use_seed && jail::is_component(name) {
                1int
            } else {
                0
            })
        }),
{
    broadcast use plan::group_plan_contents;

}

/// A virtual machine that is not running is made ready for its start, with a TPM exactly if
/// it has one; one that is running, or whose TPM is, is refused.
pub proof fn law_only_stopped_vms_are_prepared(vm: VmModel, running: bool, files: Snapshot)
    ensures
        prepare_spec(vm, running, files) is Ok <==> {
            &&& is_supported_os(vm.os)
            &&& !running
            &&& vm.tpm ==> jail::is_component(vm.name) && !snapshot::exists_at(
                files,
                tpm_socket_spec(vm.name),
            )
        },
        prepare_spec(vm, running, files) matches Ok(plan) ==> {
            &&& !vm.tpm ==> plan.steps.len() == 0
            &&& vm.tpm ==> plan.steps.len() == 1 && !plan.steps[0].optional
                && plan.steps[0].action == (Act::TpmStart {
                name: vm.name,
                script: tpm_script(vm.name),
            })
        },
{
}

/// A virtual machine is destroyed only if it is there and its settings can be read; what is
/// done first is its stop.
pub proof fn law_only_managed_vms_are_destroyed(
    name: Seq<char>,
    config: Config,
    properties: Seq<PropertyModel>,
    pid: Option<Seq<char>>,
    files: Snapshot,
)
    ensures
        destroy_spec(name, config, properties, pid, files) is Ok <==> jail::is_component(name)
            && snapshot::exists_at(files, vm_path(name)) && config_spec(name, config, properties) is Ok,
        destroy_spec(name, config, properties, pid, files) matches Ok(plan) ==> plan == stop_spec(
            name,
            pid,
        ),
{
}

/// A virtual machine whose interface cannot be set up leaves no TPM behind, and one whose
/// interface cannot be recorded leaves no interface behind either.
#[verifier::spinoff_prover]
pub proof fn law_unattached_vm_leaves_nothing(
    vm: VmModel,
    config: Config,
    tap: Seq<char>,
    fresh_mac: Seq<char>,
    use_seed: bool,
    seed_exists: bool,
    files: Snapshot,
    i: int,
)
    requires
        0 <= i < start_spec(vm, config, tap, fresh_mac, use_seed, seed_exists, files).steps.len(),
    ensures
        ({
            let step = start_spec(
                vm,
                config,
                tap,
                fresh_mac,
                use_seed,
                seed_exists,
                files,
            ).steps[i];
            &&& vm.tpm && (step.action is InterfaceUp || step.action is BridgeAdd
                || step.action is Write) ==> jail::recovers(step.recovery, Act::TpmStop(vm.name))
            &&& step.action is Write ==> jail::recovers(
                step.recovery,
                Act::BridgeDelete { bridge: config.bridge@, member: tap },
            ) && jail::recovers(step.recovery, Act::InterfaceDestroy(tap))
        }),
{
    let step = start_spec(vm, config, tap, fresh_mac, use_seed, seed_exists, files).steps[i];
    let none = plan::no_recovery();
    let first = undo_tpm(none, vm);
    let second = undo_tpm(undo_tap(none, tap, config.bridge@), vm);
    if vm.tpm {
        assert(first[0][0] == Act::TpmStop(vm.name));
        assert(second[2][0] == Act::TpmStop(vm.name));
    }
    assert(second[0][0] == (Act::BridgeDelete { bridge: config.bridge@, member: tap }));
    assert(second[1][0] == Act::InterfaceDestroy(tap));
    if step.action is InterfaceUp || step.action is BridgeAdd {
        assert(step.recovery == first);
    }
    if step.action is Write {
        assert(step.recovery == second);
    }
}

} // verus!
