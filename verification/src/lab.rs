//! How a lab is named: on the course page, and on disk.

use vstd::prelude::*;

verus! {

/// The label of a lab: `Laboratorio <lab>`.
pub open spec fn lab_label(lab: Seq<char>) -> Seq<char> {
    "Laboratorio "@ + lab
}

/// The directory that receives a lab's files: `../../Laboratorio <lab>`, two
/// levels above the working directory.
pub open spec fn lab_directory(lab: Seq<char>) -> Seq<char> {
    "../../"@ + lab_label(lab)
}

/// The place of one exercise file: the lab's directory, a slash, and the file
/// name as it was read from the exercise page.
pub open spec fn exercise_file(lab: Seq<char>, name: Seq<char>) -> Seq<char> {
    lab_directory(lab) + "/"@ + name
}

/// Builds the label of a lab.
pub fn label_of(lab: &str) -> (label: String)
    ensures
        label@ == lab_label(lab@),
{
    String::from_str("Laboratorio ").concat(lab)
}

/// Builds the path of the directory that receives a lab's files.
pub fn directory_path(lab: &str) -> (path: String)
    ensures
        path@ == lab_directory(lab@),
{
    let label = label_of(lab);
    String::from_str("../../").concat(label.as_str())
}

/// Builds the path of one exercise file.
pub fn exercise_path(lab: &str, name: &str) -> (path: String)
    ensures
        path@ == exercise_file(lab@, name@),
{
    directory_path(lab).concat("/").concat(name)
}

} // verus!
