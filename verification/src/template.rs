//! Where the templates are.

use vstd::prelude::*;

use crate::snapshot;
use crate::snapshot::Snapshot;
use crate::text;
use crate::text::{join_path, owned};

verus! {

/// Where the templates are installed.
pub const TEMPLATES: &'static str = "/usr/local/share/priosun/templates";

/// The directory of the templates: below the root that is set, or else beside the program
/// if it is there, or else where they are installed.
pub open spec fn template_dir_spec(
    root: Option<Seq<char>>,
    program_dir: Option<Seq<char>>,
    files: Snapshot,
) -> Seq<char> {
    match (root, program_dir) {
        (Some(root), _) => text::join_path_spec(root, "templates"@),
        (None, None) => TEMPLATES@,
        (None, Some(directory)) => {
            let shared = text::join_path_spec(directory, "../share/priosun/templates"@);
            let beside = text::join_path_spec(directory, "templates"@);
            if snapshot::exists_at(files, shared) {
                shared
            } else if snapshot::exists_at(files, beside) {
                beside
            } else {
                TEMPLATES@
            }
        },
    }
}

/// The directory of the templates. `root` is the root that the environment sets,
/// `program_dir` the directory of the running program.
pub fn template_dir(root: Option<&str>, program_dir: Option<&str>, files: &Snapshot) -> (directory:
    String)
    ensures
        directory@ == template_dir_spec(text::str_view(root), text::str_view(program_dir), *files),
{
    match root {
        Some(root) => {
            return join_path(root, "templates");
        },
        None => {},
    }
    match program_dir {
        Some(directory) => {
            let shared = join_path(directory, "../share/priosun/templates");
            if files.present(shared.as_str()) {
                return shared;
            }
            let beside = join_path(directory, "templates");
            if files.present(beside.as_str()) {
                return beside;
            }
            owned(TEMPLATES)
        },
        None => owned(TEMPLATES),
    }
}

/// The places where templates are looked for beside a program.
pub fn template_places(program_dir: &str) -> (places: Vec<String>)
    ensures
        places@.len() == 2,
        places@[0]@ == text::join_path_spec(program_dir@, "../share/priosun/templates"@),
        places@[1]@ == text::join_path_spec(program_dir@, "templates"@),
{
    let mut places: Vec<String> = Vec::new();
    places.push(join_path(program_dir, "../share/priosun/templates"));
    places.push(join_path(program_dir, "templates"));
    places
}

/// The root that is set decides where the templates are, whatever else there is. Without one,
/// the templates that come with the program are used: those that were installed with it before
/// those that lie beside it; and without either, those of the system.
pub proof fn law_templates_are_found(root: Seq<char>, directory: Seq<char>, files: Snapshot)
    ensures
        ({
            let shared = text::join_path_spec(directory, "../share/priosun/templates"@);
            let beside = text::join_path_spec(directory, "templates"@);
            let found = template_dir_spec(None, Some(directory), files);
            let system = "/usr/local/share/priosun/templates"@;
            &&& template_dir_spec(Some(root), Some(directory), files) == text::join_path_spec(
                root,
                "templates"@,
            )
            &&& template_dir_spec(Some(root), None, files) == text::join_path_spec(
                root,
                "templates"@,
            )
            &&& template_dir_spec(None, None, files) == system
            &&& snapshot::exists_at(files, shared) ==> found == shared
            &&& !snapshot::exists_at(files, shared) && snapshot::exists_at(files, beside) ==> found
                == beside
            &&& !snapshot::exists_at(files, shared) && !snapshot::exists_at(files, beside) ==> found
                == system
        }),
{
}

} // verus!
