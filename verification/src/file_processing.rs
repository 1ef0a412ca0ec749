//! Which files and directories of a project are read.

use crate::text::str_eq;
use vstd::prelude::*;

verus! {

/// The name is one of the directories that are never searched for source files.
pub open spec fn skipped_name(name: Seq<char>) -> bool {
    name == ".logs"@ || name == ".venv"@ || name == ".git"@ || name == "__pycache__"@ || name
        == "node_modules"@ || name == "build"@ || name == "dist"@
}

/// Whether an entry with this file name is left out of the walk.
pub fn should_skip(name: &str) -> (r: bool)
    ensures
        r == skipped_name(name@),
{
    str_eq(name, ".logs") || str_eq(name, ".venv") || str_eq(name, ".git") || str_eq(
        name,
        "__pycache__",
    ) || str_eq(name, "node_modules") || str_eq(name, "build") || str_eq(name, "dist")
}

/// Whether a file with this extension is a Python source file.
pub fn is_python_extension(extension: &str) -> (r: bool)
    ensures
        r == (extension@ == "py"@),
{
    str_eq(extension, "py")
}

/// Whether a file with this extension is embedded: Rust and Python sources are.
pub fn is_embedded_extension(extension: &str) -> (r: bool)
    ensures
        r == (extension@ == "rs"@ || extension@ == "py"@),
{
    str_eq(extension, "rs") || str_eq(extension, "py")
}

} // verus!
