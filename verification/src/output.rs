//! Lists of resources as tables.

use nvtree::Nvtree;
use vstd::prelude::*;

use crate::error::Error;
use crate::request;
use crate::request::optional_string;
use crate::text;
use crate::text::owned;
use crate::wire;
use crate::wire::{find, Found, Tree, Value};

verus! {

/// The cells of rows, as characters.
pub open spec fn row_views(rows: Seq<Vec<String>>) -> Seq<Seq<Seq<char>>> {
    rows.map_values(|row: Vec<String>| text::views(row@))
}

/// The text of the table that `tabled` draws of rows.
pub uninterp spec fn table_text(rows: Seq<Seq<Seq<char>>>) -> Seq<char>;

/// `tabled::builder::Builder` takes rows in order, the first being the heading, and
/// `tabled::Table` draws them in its plain style.
#[verifier::external_body]
pub(crate) fn draw(rows: Vec<Vec<String>>) -> (table: String)
    ensures
        table@ == table_text(row_views(rows@)),
{
    tabled::builder::Builder::from_iter(rows).build().to_string()
}

/// The trees of a field, if it is a list of trees.
pub open spec fn rows_at(tree: Tree, field: Seq<char>) -> Option<Seq<Tree>> {
    match wire::get(tree, field) {
        Some(Value::NestedList(trees)) => Some(trees),
        _ => None,
    }
}

/// The text of a cell: that of a field, or none.
pub open spec fn cell(row: Tree, field: Seq<char>) -> Seq<char> {
    match request::text_at(row, field) {
        Some(text) => text,
        None => ""@,
    }
}

/// The cells of a row, one for each column.
pub open spec fn cells(row: Tree, columns: Seq<Seq<char>>) -> Seq<Seq<char>> {
    columns.map_values(|column: Seq<char>| cell(row, column))
}

/// The rows of a table: the heading, then a row for each resource.
pub open spec fn table_rows(rows: Seq<Tree>, columns: Seq<Seq<char>>) -> Seq<Seq<Seq<char>>> {
    Seq::<Seq<Seq<char>>>::empty().push(columns) + rows.map_values(
        |row: Tree| cells(row, columns),
    )
}

/// The column of names.
pub open spec fn name_columns() -> Seq<Seq<char>> {
    Seq::<Seq<char>>::empty().push("name"@)
}

/// The columns of a list of jails.
pub open spec fn jail_columns() -> Seq<Seq<char>> {
    name_columns().push("hostname"@).push("ips"@).push("status"@)
}

/// The columns of a list of virtual machines.
pub open spec fn vm_columns() -> Seq<Seq<char>> {
    name_columns().push("status"@)
}

/// The rows of the table of a response: of the first kind of resource that it lists.
pub open spec fn response_rows(response: Tree) -> Option<Seq<Seq<Seq<char>>>> {
    match (
        rows_at(response, "datasets"@),
        rows_at(response, "volumes"@),
        rows_at(response, "jails"@),
        rows_at(response, "vms"@),
    ) {
        (Some(rows), _, _, _) => Some(table_rows(rows, name_columns())),
        (None, Some(rows), _, _) => Some(table_rows(rows, name_columns())),
        (None, None, Some(rows), _) => Some(table_rows(rows, jail_columns())),
        (None, None, None, Some(rows)) => Some(table_rows(rows, vm_columns())),
        (None, None, None, None) => None,
    }
}

fn listed<'a>(response: &'a Nvtree, field: &str) -> (rows: Option<&'a Vec<Nvtree>>)
    ensures
        match rows {
            Some(rows) => rows_at(wire::content(*response), field@) == Some(wire::contents(rows@)),
            None => rows_at(wire::content(*response), field@) is None,
        },
{
    match find(response, field) {
        Some(Found::NestedList(rows)) => Some(rows),
        _ => None,
    }
}

fn columns(names: &[&str]) -> (list: Vec<String>)
    ensures
        text::views(list@) == names@.map_values(|name: &str| name@),
{
    let mut list: Vec<String> = Vec::new();
    let mut index: usize = 0;
    while index < names.len()
        invariant
            index <= names@.len(),
            list@.len() == index,
            forall|i: int| 0 <= i < index ==> (#[trigger] list@[i])@ == names@[i]@,
        decreases names@.len() - index,
    {
        list.push(owned(names[index]));
        index += 1;
    }
    proof {
        assert(text::views(list@) =~= names@.map_values(|name: &str| name@));
    }
    list
}

fn row_cells(row: &Nvtree, columns: &Vec<String>) -> (list: Vec<String>)
    ensures
        text::views(list@) == cells(wire::content(*row), text::views(columns@)),
{
    let mut list: Vec<String> = Vec::new();
    let mut index: usize = 0;
    while index < columns.len()
        invariant
            index <= columns@.len(),
            list@.len() == index,
            forall|i: int|
                0 <= i < index ==> (#[trigger] list@[i])@ == cell(
                    wire::content(*row),
                    columns@[i]@,
                ),
        decreases columns@.len() - index,
    {
        let text = match optional_string(row, columns[index].as_str()) {
            Some(text) => text,
            None => owned(""),
        };
        list.push(text);
        index += 1;
    }
    proof {
        assert(text::views(list@) =~= cells(wire::content(*row), text::views(columns@)));
    }
    list
}

fn lay_out(rows: &Vec<Nvtree>, columns: Vec<String>) -> (table: Vec<Vec<String>>)
    ensures
        row_views(table@) == table_rows(wire::contents(rows@), text::views(columns@)),
{
    let ghost names = text::views(columns@);
    let mut body: Vec<Vec<String>> = Vec::new();
    let mut index: usize = 0;
    while index < rows.len()
        invariant
            index <= rows@.len(),
            body@.len() == index,
            names == text::views(columns@),
            forall|i: int|
                0 <= i < index ==> text::views((#[trigger] body@[i])@) == cells(
                    wire::content(rows@[i]),
                    names,
                ),
        decreases rows@.len() - index,
    {
        body.push(row_cells(&rows[index], &columns));
        index += 1;
    }
    let mut table: Vec<Vec<String>> = Vec::new();
    table.push(columns);
    let ghost heading = table@;
    table.append(&mut body);
    proof {
        assert(row_views(table@) =~= table_rows(wire::contents(rows@), names));
    }
    table
}

/// The rows of the table of a response, or that it lists nothing.
pub fn response_table(response: &Nvtree) -> (result: Result<Vec<Vec<String>>, Error>)
    ensures
        match result {
            Ok(rows) => response_rows(wire::content(*response)) == Some(row_views(rows@)),
            Err(error) => response_rows(wire::content(*response)) is None && error@
                == "response contains no tabular resource"@,
        },
{
    match listed(response, "datasets") {
        Some(rows) => {
            let names = columns(&["name"]);
            proof {
                assert(text::views(names@) =~= name_columns());
            }
            return Ok(lay_out(rows, names));
        },
        None => {},
    }
    match listed(response, "volumes") {
        Some(rows) => {
            let names = columns(&["name"]);
            proof {
                assert(text::views(names@) =~= name_columns());
            }
            return Ok(lay_out(rows, names));
        },
        None => {},
    }
    match listed(response, "jails") {
        Some(rows) => {
            let names = columns(&["name", "hostname", "ips", "status"]);
            proof {
                assert(text::views(names@) =~= jail_columns());
            }
            return Ok(lay_out(rows, names));
        },
        None => {},
    }
    match listed(response, "vms") {
        Some(rows) => {
            let names = columns(&["name", "status"]);
            proof {
                assert(text::views(names@) =~= vm_columns());
            }
            Ok(lay_out(rows, names))
        },
        None => Err(Error::new(owned("response contains no tabular resource"))),
    }
}

/// The table of the resources that a response lists, as text.
pub fn nvtree_to_table(response: &Nvtree) -> (result: Result<String, Error>)
    ensures
        match (response_rows(wire::content(*response)), result) {
            (Some(rows), Ok(text)) => text@ == table_text(rows) + "\n"@,
            (None, Err(error)) => error@ == "response contains no tabular resource"@,
            _ => false,
        },
{
    match response_table(response) {
        Ok(rows) => Ok(draw(rows).concat("\n")),
        Err(error) => Err(error),
    }
}

/// The table of an answer has the names of its columns on top and below them a row for each
/// resource, in the order of the answer, with the text of the resource in each column or
/// nothing where it has none. Datasets and volumes have a name, virtual machines a status
/// besides, and jails a host name and addresses as well.
pub proof fn law_table_shows_every_resource(response: Tree, rows: Seq<Tree>, i: int)
    requires
        0 <= i < rows.len(),
    ensures
        rows_at(response, "datasets"@) == Some(rows) ==> {
            let table = response_rows(response)->Some_0;
            &&& response_rows(response) is Some && table.len() == rows.len() + 1
            &&& table[0] =~= seq!["name"@]
            &&& table[i + 1] =~= seq![cell(rows[i], "name"@)]
        },
        rows_at(response, "datasets"@) is None && rows_at(response, "volumes"@) == Some(rows) ==> {
            let table = response_rows(response)->Some_0;
            &&& response_rows(response) is Some && table.len() == rows.len() + 1
            &&& table[0] =~= seq!["name"@]
            &&& table[i + 1] =~= seq![cell(rows[i], "name"@)]
        },
        rows_at(response, "datasets"@) is None && rows_at(response, "volumes"@) is None && rows_at(
            response,
            "jails"@,
        ) == Some(rows) ==> {
            let table = response_rows(response)->Some_0;
            &&& response_rows(response) is Some && table.len() == rows.len() + 1
            &&& table[0] =~= seq!["name"@, "hostname"@, "ips"@, "status"@]
            &&& table[i + 1] =~= seq![
                cell(rows[i], "name"@),
                cell(rows[i], "hostname"@),
                cell(rows[i], "ips"@),
                cell(rows[i], "status"@),
            ]
        },
        rows_at(response, "datasets"@) is None && rows_at(response, "volumes"@) is None && rows_at(
            response,
            "jails"@,
        ) is None && rows_at(response, "vms"@) == Some(rows) ==> {
            let table = response_rows(response)->Some_0;
            &&& response_rows(response) is Some && table.len() == rows.len() + 1
            &&& table[0] =~= seq!["name"@, "status"@]
            &&& table[i + 1] =~= seq![cell(rows[i], "name"@), cell(rows[i], "status"@)]
        },
{
    let table = response_rows(response)->Some_0;
    assert(table_rows(rows, name_columns())[i + 1] == cells(rows[i], name_columns()));
    assert(table_rows(rows, jail_columns())[i + 1] == cells(rows[i], jail_columns()));
    assert(table_rows(rows, vm_columns())[i + 1] == cells(rows[i], vm_columns()));
}

/// A cell holds the text of its field; a field that is missing or is no text leaves it empty.
pub proof fn law_cells_hold_their_fields(row: Tree, field: Seq<char>)
    ensures
        request::text_at(row, field) matches Some(text) ==> cell(row, field) == text,
        request::text_at(row, field) is None ==> cell(row, field) == ""@,
{
}

} // verus!
