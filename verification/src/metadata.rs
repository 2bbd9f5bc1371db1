//! What is recorded of a resource, as user properties of its ZFS dataset.

use vstd::prelude::*;

use crate::error;
use crate::error::{caused, Error};
use crate::plan;
use crate::plan::{command, Command, CommandLine};
use crate::text;
use crate::text::{owned, parse_bool, same, trim};

verus! {

/// The name of a property.
pub open spec fn property_spec(name: Seq<char>) -> Seq<char> {
    "priosun:"@ + name
}

fn property(name: &str) -> (result: String)
    ensures
        result@ == property_spec(name@),
{
    owned("priosun:").concat(name)
}

/// The command that records a property.
pub open spec fn set_spec(dataset: Seq<char>, name: Seq<char>, value: Seq<char>) -> CommandLine {
    plan::line("zfs"@).arg("set"@).arg(property_spec(name) + "="@ + value).arg(dataset)
}

/// The command that records a property.
pub fn set(dataset: &str, name: &str, value: &str) -> (result: Command)
    ensures
        result@ == set_spec(dataset@, name@, value@),
{
    let assignment = property(name).concat("=").concat(value);
    command("zfs").arg("set").arg(assignment.as_str()).arg(dataset)
}

/// The command that reads a property.
pub open spec fn get_command_spec(dataset: Seq<char>, name: Seq<char>) -> CommandLine {
    plan::line("zfs"@).arg("get"@).arg("-H"@).arg("-o"@).arg("value"@).arg(property_spec(name)).arg(
        dataset,
    )
}

/// The command that reads a property.
pub fn get_command(dataset: &str, name: &str) -> (result: Command)
    ensures
        result@ == get_command_spec(dataset@, name@),
{
    command("zfs").arg("get").arg("-H").arg("-o").arg("value").arg(property(name).as_str()).arg(
        dataset,
    )
}

/// The command that succeeds exactly if a dataset exists.
pub open spec fn exists_spec(dataset: Seq<char>) -> CommandLine {
    plan::line("zfs"@).arg("list"@).arg("-H"@).arg("-o"@).arg("name"@).arg(dataset)
}

/// The command that succeeds exactly if a dataset exists.
pub fn dataset_exists(dataset: &str) -> (result: Command)
    ensures
        result@ == exists_spec(dataset@),
{
    command("zfs").arg("list").arg("-H").arg("-o").arg("name").arg(dataset)
}

/// The value of a property, from what the command that reads it printed. A failure of
/// the command, nothing and a dash all mean that the property is not set.
pub open spec fn value_spec(succeeded: bool, printed: Seq<char>) -> Option<Seq<char>> {
    let value = text::trim_spec(printed);
    if !succeeded || value.len() == 0 || value == "-"@ {
        None
    } else {
        Some(value)
    }
}

/// The value of a property, from what the command that reads it printed.
pub fn get(succeeded: bool, printed: &str) -> (value: Option<String>)
    ensures
        match value {
            Some(value) => value_spec(succeeded, printed@) == Some(value@),
            None => value_spec(succeeded, printed@) is None,
        },
{
    let value = trim(printed);
    if !succeeded || value.as_str().is_empty() || same(value.as_str(), "-") {
        None
    } else {
        Some(value)
    }
}

/// The message for a property that is not set.
pub open spec fn missing_message(dataset: Seq<char>, name: Seq<char>) -> Seq<char> {
    "missing ZFS property priosun:"@ + name + " on "@ + dataset
}

/// The value of a property that must be set.
pub fn get_required(dataset: &str, name: &str, value: Option<String>) -> (result: Result<
    String,
    Error,
>)
    ensures
        match value {
            Some(value) => result == Ok::<String, Error>(value),
            None => result matches Err(error) && error@ == missing_message(dataset@, name@),
        },
{
    match value {
        Some(value) => Ok(value),
        None => Err(
            Error::new(
                owned("missing ZFS property priosun:").concat(name).concat(" on ").concat(dataset),
            ),
        ),
    }
}

/// The truth value that a property gives.
pub open spec fn bool_spec(name: Seq<char>, value: Option<Seq<char>>, default: bool) -> Result<
    bool,
    Seq<char>,
> {
    match value {
        None => Ok(default),
        Some(value) => match text::parse_bool_spec(value) {
            Some(flag) => Ok(flag),
            None => Err(
                error::with_cause(
                    "invalid boolean ZFS property priosun:"@ + name + "="@ + value,
                    "provided string was not `true` or `false`"@,
                ),
            ),
        },
    }
}

/// The truth value of a property, or the default where it is not set.
pub fn get_bool(name: &str, value: &Option<String>, default: bool) -> (result: Result<bool, Error>)
    ensures
        error::outcome(result) == bool_spec(name@, text::optional_view(*value), default),
{
    match value {
        None => Ok(default),
        Some(value) => match parse_bool(value.as_str()) {
            Some(flag) => Ok(flag),
            None => Err(
                caused(
                    owned("invalid boolean ZFS property priosun:").concat(name).concat("=").concat(
                        value.as_str(),
                    ),
                    "provided string was not `true` or `false`",
                ),
            ),
        },
    }
}

/// What the line that is printed of a value holds, where the value has no white space
/// around it.
pub proof fn lemma_printed_value(value: Seq<char>)
    requires
        text::is_trimmed(value),
    ensures
        text::trim_spec(value.push('\n')) == value,
{
    let printed = value.push('\n');
    assert(printed.drop_last() =~= value);
    if value.len() > 0 {
        assert(text::trim_start_spec(printed) == printed);
        assert(text::trim_end_spec(printed) == text::trim_end_spec(value));
        assert(text::trim_end_spec(value) == value);
    } else {
        assert(printed.skip(1) =~= value);
        assert(text::is_white(printed[0]));
        reveal_with_fuel(text::trim_start_spec, 2);
        assert(text::trim_start_spec(printed) == value);
    }
}

/// What was recorded is read back, from the line that is printed of it: every value
/// that is neither empty nor a dash and has no white space around it.
pub proof fn law_recorded_value_reads_back(value: Seq<char>)
    requires
        value.len() > 0,
        value != "-"@,
        !text::is_white(value[0]),
        !text::is_white(value.last()),
    ensures
        value_spec(true, value.push('\n')) == Some(value),
{
    lemma_printed_value(value);
}

/// A truth value that was recorded is read back, whatever the default is.
pub proof fn law_recorded_flag_reads_back(name: Seq<char>, flag: bool, default: bool)
    ensures
        bool_spec(name, value_spec(true, text::bool_spec(flag).push('\n')), default) == Ok::<
            bool,
            Seq<char>,
        >(flag),
{
    reveal_strlit("true");
    reveal_strlit("false");
    reveal_strlit("-");
    text::law_bool_reads_back(flag);
    let value = text::bool_spec(flag);
    assert(value[0] == 't' || value[0] == 'f');
    assert(value.last() == 'e');
    law_recorded_value_reads_back(value);
}

/// A property is recorded and read under one name, which no other property has: what is set on
/// a dataset is what is asked of it.
pub proof fn law_properties_are_told_apart(
    dataset: Seq<char>,
    name: Seq<char>,
    other: Seq<char>,
    value: Seq<char>,
)
    ensures
        plan::is_call(
            plan::Act::Run(set_spec(dataset, name, value)),
            "zfs"@,
            seq!["set"@, "priosun:"@ + name + "="@ + value, dataset],
        ),
        plan::is_call(
            plan::Act::Run(get_command_spec(dataset, name)),
            "zfs"@,
            seq!["get"@, "-H"@, "-o"@, "value"@, "priosun:"@ + name, dataset],
        ),
        plan::is_call(
            plan::Act::Run(exists_spec(dataset)),
            "zfs"@,
            seq!["list"@, "-H"@, "-o"@, "name"@, dataset],
        ),
        property_spec(name) == property_spec(other) ==> name == other,
{
    let start = "priosun:"@;
    assert((start + name).skip(start.len() as int) =~= name);
    assert((start + other).skip(start.len() as int) =~= other);
}

/// A property is not set exactly if the command that reads it fails or prints nothing or a
/// dash, whatever white space is around that; and a flag that is not set has its default.
pub proof fn law_unset_properties(succeeded: bool, printed: Seq<char>, name: Seq<char>, default: bool)
    ensures
        value_spec(succeeded, printed) is None <==> !succeeded || text::trim_spec(printed).len() == 0
            || text::trim_spec(printed) == "-"@,
        value_spec(succeeded, printed) matches Some(value) ==> value == text::trim_spec(printed),
        bool_spec(name, None, default) == Ok::<bool, Seq<char>>(default),
        forall|value: Seq<char>| #[trigger]
            bool_spec(name, Some(value), default) is Err <==> value != "true"@ && value != "false"@,
{
}

/// What is missing is named, with the dataset that it is missing on.
pub proof fn law_missing_property_is_named(dataset: Seq<char>, name: Seq<char>)
    ensures
        text::contains_spec(missing_message(dataset, name), name),
        text::ends_with_spec(missing_message(dataset, name), dataset),
{
    broadcast use text::group_texts_within;

    let message = missing_message(dataset, name);
    assert(message.skip(message.len() - dataset.len()) =~= dataset);
}

} // verus!
