//! Where the stream of a range is written.

use vstd::prelude::*;
use vstd::string::*;
use crate::decimal::{decimal_text, push_decimal};

verus! {

/// Where output goes.
#[derive(Debug)]
pub enum OutputTarget {
    /// One file for each range, in this folder; the current folder where none
    /// is given.
    Folder(Option<String>),
    /// One file, at this path, whatever the range.
    File(String),
}

/// The folder that is meant: the given one, or the current folder.
pub open spec fn folder_text(folder: Option<String>) -> Seq<char> {
    match folder {
        Some(f) => f@,
        None => "."@,
    }
}

/// The name of the file that holds the frames from `start` up to `end` in
/// `folder`: `<folder>/<start>-<end>.y4m`.
pub open spec fn range_file_name(folder: Seq<char>, start: nat, end: nat) -> Seq<char> {
    folder + "/"@ + decimal_text(start) + "-"@ + decimal_text(end) + ".y4m"@
}

/// The path that the frames from `start` up to `end` are written to.
pub open spec fn output_path_of(target: OutputTarget, start: nat, end: nat) -> Seq<char> {
    match target {
        OutputTarget::Folder(folder) => range_file_name(folder_text(folder), start, end),
        OutputTarget::File(path) => path@,
    }
}

/// The name of the file that holds the frames from `start` up to `end` in
/// `folder`.
pub fn file_name_in(folder: &str, start: usize, end: usize) -> (name: String)
    ensures
        name@ == range_file_name(folder@, start as nat, end as nat),
{
    let mut name = String::from_str(folder);
    name.append("/");
    push_decimal(&mut name, start);
    name.append("-");
    push_decimal(&mut name, end);
    name.append(".y4m");
    name
}

/// The path that the frames from `start` up to `end` are written to.
pub fn output_path(target: &OutputTarget, start: usize, end: usize) -> (path: String)
    ensures
        path@ == output_path_of(*target, start as nat, end as nat),
{
    match target {
        OutputTarget::Folder(Some(folder)) => file_name_in(folder.as_str(), start, end),
        OutputTarget::Folder(None) => file_name_in(".", start, end),
        OutputTarget::File(path) => path.clone(),
    }
}

} // verus!
